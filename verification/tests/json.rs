use tidewave_core::json::Json;
use tidewave_core::jsonrpc::JsonRpcMessage;

#[test]
fn text_is_compact() {
    let value = Json::parse(r#" {"a" : [1, -2, true, null, "x\n"]} "#).unwrap();
    assert_eq!(value.to_text(), r#"{"a":[1,-2,true,null,"x\n"]}"#);
}

#[test]
fn what_is_no_json_is_refused() {
    assert!(Json::parse("{").is_err());
    assert!(Json::parse("1 2").is_err());
    assert!(Json::parse_bytes(b"\xff").is_none());
    assert!(Json::parse_array("{}").is_err());
}

#[test]
fn the_later_member_counts() {
    let value = Json::parse(r#"{"a":1,"a":2}"#).unwrap();
    assert_eq!(value.get("a").unwrap().as_u64(), Some(2));
    let built = Json::object().with("a", Json::uint(1)).with("a", Json::uint(2));
    assert_eq!(built.to_text(), r#"{"a":2}"#);
}

#[test]
fn numbers_keep_their_kind() {
    let value = Json::parse("[18446744073709551615,-9223372036854775808,1.5]").unwrap();
    assert_eq!(value.item(0).unwrap().as_u64(), Some(u64::MAX));
    assert_eq!(value.item(0).unwrap().as_i64(), None);
    assert_eq!(value.item(1).unwrap().as_i64(), Some(i64::MIN));
    assert_eq!(value.item(1).unwrap().as_u64(), None);
    assert_eq!(value.item(2).unwrap().as_i64(), None);
    assert_eq!(value.array_len(), Some(3));
    assert_eq!(Json::integer(-7).to_text(), "-7");
}

#[test]
fn members_can_be_taken_out() {
    let value = Json::parse(r#"{"a":1,"b":2}"#).unwrap();
    let rest = value.without("a");
    assert!(!rest.has("a"));
    assert!(rest.has("b"));
    assert!(rest.without("b").is_empty_object());
}

#[test]
fn bytes_and_arrays_are_read() {
    let value = Json::parse_bytes(br#"{"k":"v"}"#).unwrap();
    assert_eq!(value.get("k").unwrap().as_str(), Some("v"));
    let items = Json::parse_array("[true,3]").unwrap();
    assert_eq!(items.len(), 2);
    assert_eq!(items[0].as_bool(), Some(true));
}

fn message(text: &str) -> Option<JsonRpcMessage> {
    JsonRpcMessage::from_json(&Json::parse(text).unwrap())
}

#[test]
fn messages_are_told_apart() {
    assert!(matches!(
        message(r#"{"jsonrpc":"2.0","id":1,"method":"m"}"#),
        Some(JsonRpcMessage::Request(_))
    ));
    assert!(matches!(
        message(r#"{"jsonrpc":"2.0","id":1,"result":{}}"#),
        Some(JsonRpcMessage::Response(_))
    ));
    assert!(matches!(
        message(r#"{"jsonrpc":"2.0","method":"m"}"#),
        Some(JsonRpcMessage::Notification(_))
    ));
    assert!(message(r#"{"jsonrpc":"2.0"}"#).is_none());
    assert!(message("3").is_none());
}

#[test]
fn messages_read_back() {
    let texts = [
        r#"{"id":1,"jsonrpc":"2.0","method":"m","params":{"a":[]}}"#,
        r#"{"error":{"code":-1,"message":"x"},"id":"i","jsonrpc":"2.0"}"#,
        r#"{"jsonrpc":"2.0","method":"n","params":null}"#,
    ];
    for text in texts {
        let read = message(text).unwrap();
        let back = JsonRpcMessage::from_json(&Json::parse(&read.to_json().to_text()).unwrap()).unwrap();
        assert_eq!(read.to_json().to_text(), back.to_json().to_text());
        assert_eq!(Json::parse(text).unwrap().to_text(), read.to_json().to_text());
    }
}
