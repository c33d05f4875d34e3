use make87::encodings::json::JsonEncoder;
use make87::encodings::protobuf::ProtobufEncoder;
use make87::encodings::yaml::YamlEncoder;
use make87::message::Record;

#[test]
fn test_json_encoder_roundtrip() {
    let encoder = JsonEncoder;
    let original = Record { id: 42, name: "hello".to_string() };
    let json_bytes = encoder.encode(&original).expect("encode failed");
    let json_str = std::str::from_utf8(&json_bytes).unwrap();
    assert!(json_str.contains("\"id\":42"));
    assert!(json_str.contains("\"name\":\"hello\""));
    let decoded: Record = encoder.decode(&json_bytes).expect("decode failed");
    assert_eq!(decoded, original);
}

#[test]
fn test_json_encoder_decode_error() {
    let encoder = JsonEncoder;
    let bad_json = b"{ not json: }";
    let result = encoder.decode(bad_json);
    assert!(result.is_err());
}

#[test]
fn test_json_exact_bytes() {
    let encoder = JsonEncoder;
    let original = Record { id: 1, name: "a".to_string() };
    let bytes = encoder.encode(&original).unwrap();
    assert_eq!(bytes, b"{\"id\":1,\"name\":\"a\"}".to_vec());
}

#[test]
fn test_json_escaped_roundtrip() {
    let encoder = JsonEncoder;
    let original = Record { id: 7, name: "a\"b\\c\nd\te\r\u{1}f".to_string() };
    let bytes = encoder.encode(&original).unwrap();
    let decoded = encoder.decode(&bytes).unwrap();
    assert_eq!(decoded, original);
}

#[test]
fn test_json_escape_is_applied() {
    // A quote inside the name must not close the JSON string early.
    let encoder = JsonEncoder;
    let original = Record { id: 3, name: "x\"y".to_string() };
    let bytes = encoder.encode(&original).unwrap();
    assert_eq!(bytes, b"{\"id\":3,\"name\":\"x\\\"y\"}".to_vec());
}

#[test]
fn test_json_decode_rejects_invalid_utf8_name() {
    let encoder = JsonEncoder;
    // \u00ff is a lone 0xFF byte after unescaping: not valid UTF-8.
    let bytes = b"{\"id\":1,\"name\":\"\\u00ff\"}";
    assert!(encoder.decode(bytes).is_err());
}

#[test]
fn test_json_decode_rejects_leading_zero() {
    let encoder = JsonEncoder;
    assert!(encoder.decode(b"{\"id\":007,\"name\":\"x\"}").is_err());
    assert!(encoder.decode(b"{\"id\":0,\"name\":\"x\"}").is_ok());
}

#[test]
fn test_json_decode_rejects_overflow_id() {
    let encoder = JsonEncoder;
    assert!(encoder.decode(b"{\"id\":4294967295,\"name\":\"x\"}").is_ok());
    assert!(encoder.decode(b"{\"id\":4294967296,\"name\":\"x\"}").is_err());
}

#[test]
fn test_protobuf_encoder_roundtrip() {
    let encoder = ProtobufEncoder::new();
    let original = Record { id: 42, name: "hello".to_string() };
    let encoded = encoder.encode(&original).expect("encode failed");
    let decoded: Record = encoder.decode(&encoded).expect("decode failed");
    assert_eq!(decoded, original);
}

#[test]
fn test_protobuf_encoder_decode_error() {
    let encoder = ProtobufEncoder::new();
    let bad_data = b"not protobuf";
    let result = encoder.decode(bad_data);
    assert!(result.is_err());
}

#[test]
fn test_protobuf_exact_wire_bytes() {
    let encoder = ProtobufEncoder::new();
    let original = Record { id: 300, name: "ab".to_string() };
    let bytes = encoder.encode(&original).unwrap();
    // field 1 varint 300 = AC 02, field 2 len 2 "ab"
    assert_eq!(bytes, vec![0x08, 0xAC, 0x02, 0x12, 0x02, 0x61, 0x62]);
}

#[test]
fn test_protobuf_defaults_omitted() {
    let encoder = ProtobufEncoder::new();
    let original = Record { id: 0, name: String::new() };
    let bytes = encoder.encode(&original).unwrap();
    assert!(bytes.is_empty());
    let decoded = encoder.decode(&bytes).unwrap();
    assert_eq!(decoded, original);
}

#[test]
fn test_protobuf_skips_unknown_fields() {
    let encoder = ProtobufEncoder::new();
    // unknown field 3 (varint 7), then id = 42
    let bytes = vec![0x18, 0x07, 0x08, 0x2A];
    let decoded = encoder.decode(&bytes).unwrap();
    assert_eq!(decoded, Record { id: 42, name: String::new() });
}

#[test]
fn test_yaml_encoder_decode_error() {
    let encoder = YamlEncoder;
    let bad_yaml = b"{ not yaml: }";
    let result = encoder.decode(bad_yaml);
    assert!(result.is_err());
}

#[test]
fn test_yaml_encoder_roundtrip() {
    let encoder = YamlEncoder;
    let original = Record { id: 42, name: "hello".to_string() };

    // Encode to YAML bytes
    let yaml_bytes = encoder.encode(&original).expect("encode failed");
    let yaml_str = std::str::from_utf8(&yaml_bytes).unwrap();
    assert!(yaml_str.contains("id: 42"));
    assert!(yaml_str.contains("name: hello"));

    // Decode back
    let decoded: Record = encoder.decode(&yaml_bytes).expect("decode failed");
    assert_eq!(decoded, original);
}

#[test]
fn test_yaml_plain_scalar_exact_bytes() {
    let encoder = YamlEncoder;
    let bytes = encoder.encode(&Record { id: 42, name: "hello".to_string() }).unwrap();
    assert_eq!(bytes, b"id: 42\nname: hello\n".to_vec());
}

#[test]
fn test_yaml_decode_plain_scalar_from_other_writer() {
    // Plain scalars are read back even when the name is not one this writer
    // would emit plainly.
    let encoder = YamlEncoder;
    let decoded = encoder.decode(b"id: 3\nname: other-writer\n").unwrap();
    assert_eq!(decoded, Record { id: 3, name: "other-writer".to_string() });
}

#[test]
fn test_yaml_quoted_when_special() {
    // A name the plain form cannot carry is double-quoted and round-trips.
    let encoder = YamlEncoder;
    let original = Record { id: 7, name: "hello world: \"x\"".to_string() };
    let bytes = encoder.encode(&original).unwrap();
    let text = std::str::from_utf8(&bytes).unwrap();
    assert!(text.contains("name: \""));
    let decoded = encoder.decode(&bytes).unwrap();
    assert_eq!(decoded, original);
}

#[test]
fn test_json_decode_tolerates_whitespace() {
    let encoder = JsonEncoder;
    let decoded = encoder.decode(b" {\n  \"id\": 7 ,\t\"name\" : \"hi\" }\n").unwrap();
    assert_eq!(decoded, Record { id: 7, name: "hi".to_string() });
}

#[test]
fn test_json_decode_accepts_reordered_fields() {
    let encoder = JsonEncoder;
    let decoded = encoder.decode(b"{\"name\":\"swap\",\"id\":9}").unwrap();
    assert_eq!(decoded, Record { id: 9, name: "swap".to_string() });
}
