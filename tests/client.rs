use xray_lite::packet;

fn foo_bar_json() -> Vec<u8> {
    let mut map = serde_json::Map::new();
    map.insert("foo".to_string(), serde_json::Value::String("bar".to_string()));
    serde_json::to_vec(&serde_json::Value::Object(map)).unwrap()
}

#[test]
fn client_client_prefixes_packets_with_header() {
    assert_eq!(
        packet(&foo_bar_json()),
        [
            br#"{"format": "json", "version": 1}"# as &[u8],
            &[b'\n'],
            br#"{"foo":"bar"}"#,
        ]
        .concat()
    )
}

#[test]
fn lib_client_prefixes_packets_with_header() {
    assert_eq!(
        packet(&foo_bar_json()),
        [
            br#"{"format": "json", "version": 1}"# as &[u8],
            &[b'\n'],
            br#"{"foo":"bar"}"#,
        ]
        .concat()
    )
}

#[test]
fn empty_payload_is_preamble_and_newline() {
    assert_eq!(packet(&[]), b"{\"format\": \"json\", \"version\": 1}\n".to_vec());
}
