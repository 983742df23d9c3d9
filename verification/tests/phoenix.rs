use tidewave_core::json::Json;
use tidewave_core::phoenix::{Payload, PhxMessage};

fn bytes_of(payload: Payload) -> Vec<u8> {
    match payload {
        Payload::Binary(bytes) => bytes,
        Payload::Json(_) => panic!("Expected a binary payload"),
    }
}

#[test]
fn test_binary_decode() {
    let mut buf = Vec::new();
    buf.push(0);
    buf.push(1);
    buf.push(1);
    buf.push(13);
    buf.push(5);
    buf.extend_from_slice(b"1");
    buf.extend_from_slice(b"3");
    buf.extend_from_slice(b"recording:abc");
    buf.extend_from_slice(b"chunk");
    buf.extend_from_slice(b"\xDE\xAD\xBE\xEF");

    let msg = PhxMessage::decode_binary(&buf).unwrap();
    assert_eq!(msg.join_ref.as_deref(), Some("1"));
    assert_eq!(msg.ref_.as_deref(), Some("3"));
    assert_eq!(msg.topic, "recording:abc");
    assert_eq!(msg.event, "chunk");
    assert_eq!(bytes_of(msg.payload), b"\xDE\xAD\xBE\xEF".to_vec());
}

#[test]
fn test_binary_decode_empty_payload() {
    let mut buf = Vec::new();
    buf.push(0);
    buf.push(0);
    buf.push(1);
    buf.push(5);
    buf.push(4);
    buf.extend_from_slice(b"2");
    buf.extend_from_slice(b"topic");
    buf.extend_from_slice(b"done");

    let msg = PhxMessage::decode_binary(&buf).unwrap();
    assert_eq!(msg.join_ref, None);
    assert_eq!(msg.ref_.as_deref(), Some("2"));
    assert_eq!(msg.topic, "topic");
    assert_eq!(msg.event, "done");
    assert_eq!(bytes_of(msg.payload), Vec::<u8>::new());
}

#[test]
fn test_binary_decode_wrong_kind() {
    let buf = vec![1, 0, 0, 0, 0];
    assert!(PhxMessage::decode_binary(&buf).is_err());
}

#[test]
fn test_binary_decode_truncated() {
    let buf = vec![0, 5, 0, 0, 0];
    assert!(PhxMessage::decode_binary(&buf).is_err());
}

#[test]
fn binary_decode_refuses_a_short_header() {
    assert!(PhxMessage::decode_binary(&[0, 0, 0, 0]).is_err());
    assert!(PhxMessage::decode_binary(&[]).is_err());
}

#[test]
fn binary_decode_refuses_text_that_is_not_utf8() {
    assert!(PhxMessage::decode_binary(&[0, 0, 0, 1, 0, 0xff]).is_err());
}

#[test]
fn encoded_messages_are_arrays_of_five() {
    let msg = PhxMessage::new("acp:1", "jsonrpc", Json::object().with("a", Json::uint(1)));
    assert_eq!(msg.encode(), r#"[null,null,"acp:1","jsonrpc",{"a":1}]"#);
}

#[test]
fn decode_reads_what_encode_writes() {
    let text = r#"["4","7","watch:/tmp","phx_join",{"is_wsl":false}]"#;
    let msg = PhxMessage::decode(text).unwrap();
    assert_eq!(msg.join_ref.as_deref(), Some("4"));
    assert_eq!(msg.ref_.as_deref(), Some("7"));
    assert_eq!(msg.topic, "watch:/tmp");
    assert_eq!(msg.event, "phx_join");
    assert_eq!(msg.encode(), text);
}

#[test]
fn decode_refuses_other_text() {
    assert!(PhxMessage::decode("{}").is_err());
    assert!(PhxMessage::decode("[1,2]").is_err());
    assert!(PhxMessage::decode("not json").is_err());
}

#[test]
fn replies_keep_the_references_of_the_request() {
    let request = PhxMessage::new("t", "phx_join", Json::object()).with_ref("7").with_join_ref("4");
    let reply = PhxMessage::ok_reply(&request, Json::object());
    assert_eq!(
        reply.encode(),
        r#"["4","7","t","phx_reply",{"response":{},"status":"ok"}]"#
    );
    let refusal = PhxMessage::error_reply(&request, "no");
    assert_eq!(
        refusal.encode(),
        r#"["4","7","t","phx_reply",{"response":{"reason":"no"},"status":"error"}]"#
    );
}

#[test]
fn members_with_a_dollar_sign_are_kept() {
    let text = r##"["4","7","mcp:s","mcp_message",{"$ref":"#/a","$schema":"x"}]"##;
    assert_eq!(PhxMessage::decode(text).unwrap().encode(), text);
}

#[test]
fn a_later_key_of_any_name_is_kept() {
    let text = r#"["4","7","mcp:s","e",{"!":0,"$serde_json::private::RawValue":"1"}]"#;
    assert_eq!(PhxMessage::decode(text).unwrap().encode(), text);
}
