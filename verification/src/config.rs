//! The server's configuration.

use vstd::prelude::*;

use crate::text;

verus! {

/// The port that the server listens on when none is configured.
pub fn default_port() -> (port: u16)
    ensures
        port == 9832,
{
    9832
}

/// The configuration.
#[derive(Debug)]
pub struct Config {
    pub port: u16,
    pub debug: bool,
    /// Whether other machines can connect.
    pub allow_remote_access: bool,
    pub https_port: Option<u16>,
    pub https_cert_path: Option<String>,
    pub https_key_path: Option<String>,
    /// Environment variables to be set.
    pub env: Vec<(String, String)>,
    /// Origins from which browsers can connect, besides the server's own.
    pub allowed_origins: Vec<String>,
}

impl Default for Config {
    fn default() -> (r: Self)
        ensures
            r.port == 9832,
            !r.debug,
            !r.allow_remote_access,
            r.https_port is None,
            r.https_cert_path is None,
            r.https_key_path is None,
            r.env@.len() == 0,
            r.allowed_origins@.len() == 0,
    {
        Config {
            port: default_port(),
            debug: false,
            allow_remote_access: false,
            https_port: None,
            https_cert_path: None,
            https_key_path: None,
            env: Vec::new(),
            allowed_origins: Vec::new(),
        }
    }
}

/// What is wrong with the HTTPS part of a configuration: the port, the certificate and the key come
/// together or not at all.
pub open spec fn https_problem(has_port: bool, has_cert: bool, has_key: bool) -> Option<Seq<char>> {
    if !has_port && !has_cert && !has_key {
        None
    } else if !has_port {
        Some("HTTPS configuration error: https_port is required when using custom certificates"@)
    } else if !has_cert {
        Some("HTTPS configuration error: https_cert_path is required when https_port is set"@)
    } else if !has_key {
        Some("HTTPS configuration error: https_key_path is required when https_port is set"@)
    } else {
        None
    }
}

/// Checks the HTTPS part of a configuration.
pub fn validate_https_config(config: &Config) -> (r: Result<(), String>)
    ensures
        match https_problem(
            config.https_port is Some,
            config.https_cert_path is Some,
            config.https_key_path is Some,
        ) {
            Some(problem) => r is Err && r->Err_0@ == problem,
            None => r is Ok,
        },
{
    let has_port = config.https_port.is_some();
    let has_cert = config.https_cert_path.is_some();
    let has_key = config.https_key_path.is_some();
    if has_port || has_cert || has_key {
        if !has_port {
            return Err(
                "HTTPS configuration error: https_port is required when using custom certificates".to_owned(),
            );
        }
        if !has_cert {
            return Err(
                "HTTPS configuration error: https_cert_path is required when https_port is set".to_owned(),
            );
        }
        if !has_key {
            return Err(
                "HTTPS configuration error: https_key_path is required when https_port is set".to_owned(),
            );
        }
    }
    Ok(())
}

/// A configuration is accepted exactly where it names all of the port, the certificate and the key,
/// or none of them.
pub proof fn lemma_https_all_or_none(has_port: bool, has_cert: bool, has_key: bool)
    ensures
        https_problem(has_port, has_cert, has_key) is None <==> has_port == has_cert && has_cert == has_key,
{
}

/// What a configuration file looks like.
pub const EXPECTED_FORMAT: &'static str = "\n\nExpected format:\nport = 9832\n# https_port = 9833\n# https_cert_path = \"/path/to/cert.pem\"\n# https_key_path = \"/path/to/key.pem\"\ndebug = false\nallow_remote_access = false\n\n[env]\nKEY = \"value\"";

/// The message about a configuration file that cannot be read.
pub fn parse_error(error: &str) -> (r: String)
    ensures
        r@ == "Failed to parse config: "@ + error@ + EXPECTED_FORMAT@,
{
    let mut message = text::joined("Failed to parse config: ", error);
    message.append(EXPECTED_FORMAT);
    message
}

/// HTTPS needs a port, a certificate and a key, or none of them. What is missing first is named.
pub proof fn lemma_https_call(config: &Config, r: Result<(), String>)
    requires
        call_ensures(validate_https_config, (config,), r),
    ensures
        ({
            let port = config.https_port is Some;
            let cert = config.https_cert_path is Some;
            let key = config.https_key_path is Some;
            &&& r is Ok <==> port && cert && key || !port && !cert && !key
            &&& !port && (cert || key) ==> r->Err_0@
                == "HTTPS configuration error: https_port is required when using custom certificates"@
            &&& port && !cert ==> r->Err_0@
                == "HTTPS configuration error: https_cert_path is required when https_port is set"@
            &&& port && cert && !key ==> r->Err_0@
                == "HTTPS configuration error: https_key_path is required when https_port is set"@
        }),
{
}

/// The usual port is 9832. A configuration that cannot be read is reported with the reason and the format
/// that is expected.
pub proof fn lemma_default_calls(error: &str, port: u16, text: String)
    requires
        call_ensures(default_port, (), port),
        call_ensures(parse_error, (error,), text),
    ensures
        port == 9832,
        text@ == "Failed to parse config: "@ + error@ + EXPECTED_FORMAT@,
{
}

} // verus!
