# Tidewave core

The logic of the Tidewave server, which stands between a browser on one side and coding agents, MCP
clients, terminals and the file system on the other. Its rules are written in Verus: every function
of the library carries a contract, and all contracts are proved but those of the calls into other
code that are listed below.

- `src/` is the library. It decides: which message goes where, under which identity, what is kept
  for a client that comes back, what is answered and what is refused.
- `app/` is the server around it: sockets, processes, timers and files. It hands events to the
  library and carries out what the library asks for.
- `tests/` runs the library on concrete values.

| Modules | What they are about |
| --- | --- |
| `acp_relay`, `acp_proxy`, `acp_channel`, `ws::acp` | agents that several clients share and come back to |
| `acp_server`, `acp` | agents behind HTTP and behind one socket |
| `mcp`, `mcp_channel`, `mcp_remote`, `ws::mcp` | MCP requests that a browser answers |
| `watch`, `watch_channel`, `channels`, `ws::watch`, `watching`, `starts` | watching directories |
| `ws`, `phoenix` | the Phoenix socket, its channels and its wire format |
| `terminal`, `ws::terminal`, `ws::recording`, `ws::upload` | terminals, recordings, uploads |
| `server`, `http_handlers`, `tls`, `config`, `command`, `paths` | HTTP, origins, downloads, certificates, shell commands |
| `json`, `jsonrpc`, `text`, `registry`, `urls`, `archive` | data that the others are built on |

What the library takes from other crates and from the standard library without proof stands beside
the code that uses it, in functions marked `external_body`: `serde_json` in `json`, `dashmap` in
`registry`, `reqwest`'s URLs in `urls`, `tar` and `flate2` in `archive`, `rustls_pemfile` in `tls`,
and of the standard library the reading of UTF-8 in `phoenix` and `text` and the quoting of text in
`text`.
