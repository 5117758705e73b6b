use flexo_assistant::codec::{
    decode_client_data_lenient, decode_client_data_list, encode_client_data_list,
    encode_opt_client_data,
};
use flexo_assistant::{ClientData, ErrorKind};

fn record(machine: Option<&str>, note: Option<&str>) -> ClientData {
    ClientData {
        machine: machine.map(|s| s.to_string()),
        width: None,
        gears: None,
        pitch: None,
        girth: None,
        count: None,
        thickness: None,
        distortion_rate: None,
        trimmer: None,
        note: note.map(|s| s.to_string()),
    }
}

#[test]
fn encode_empty_list() {
    let v: Vec<ClientData> = vec![];
    assert_eq!(encode_client_data_list(&v), "[]");
}

#[test]
fn encode_absent_list_is_null() {
    assert_eq!(encode_opt_client_data(&None), "null");
}

#[test]
fn encode_single_record_exact_text() {
    let v = vec![record(Some("M1"), None)];
    assert_eq!(
        encode_client_data_list(&v),
        "[{\"machine\":\"M1\",\"width\":null,\"gears\":null,\"pitch\":null,\"girth\":null,\"count\":null,\"thickness\":null,\"distortion_rate\":null,\"trimmer\":null,\"note\":null}]"
    );
}

#[test]
fn decode_inverts_encode() {
    let v = vec![record(Some("M1"), Some("plain")), record(None, Some("second"))];
    let text = encode_client_data_list(&v);
    let back = decode_client_data_list(&text).unwrap();
    assert_eq!(back.len(), 2);
    assert_eq!(back[0].machine.as_deref(), Some("M1"));
    assert_eq!(back[0].note.as_deref(), Some("plain"));
    assert!(back[0].width.is_none());
    assert!(back[1].machine.is_none());
    assert_eq!(back[1].note.as_deref(), Some("second"));
}

#[test]
fn decode_inverts_encode_with_escapes_and_unicode() {
    let tricky = "he said \"8\\10\", 宽度: 800";
    let v = vec![record(Some(tricky), Some("\\\\\"\""))];
    let text = encode_client_data_list(&v);
    let back = decode_client_data_list(&text).unwrap();
    assert_eq!(back.len(), 1);
    assert_eq!(back[0].machine.as_deref(), Some(tricky));
    assert_eq!(back[0].note.as_deref(), Some("\\\\\"\""));
}

#[test]
fn strict_decode_rejects_malformed() {
    let err = decode_client_data_list("not a stored list").unwrap_err();
    assert!(err.kind() == ErrorKind::Serialization);
    let err = decode_client_data_list("null").unwrap_err();
    assert!(err.kind() == ErrorKind::Serialization);
    let err = decode_client_data_list("[{\"machine\":\"M1\"}]").unwrap_err();
    assert!(err.kind() == ErrorKind::Serialization);
}

#[test]
fn lenient_decode_degrades_to_empty() {
    assert_eq!(decode_client_data_lenient("garbage").len(), 0);
    assert_eq!(decode_client_data_lenient("null").len(), 0);
    let v = vec![record(Some("M1"), None)];
    let text = encode_client_data_list(&v);
    let back = decode_client_data_lenient(&text);
    assert_eq!(back.len(), 1);
    assert_eq!(back[0].machine.as_deref(), Some("M1"));
}
