use kv_explorer::value::classify;
use kv_explorer::value::SemanticValue;

fn variant_name(v: &SemanticValue) -> &'static str {
    match v {
        SemanticValue::StructuredJson(_) => "StructuredJson",
        SemanticValue::StructuredBinary(_) => "StructuredBinary",
        SemanticValue::PlainText(_) => "PlainText",
        SemanticValue::RawBytes(_) => "RawBytes",
    }
}

#[test]
fn classify_is_deterministic() {
    let inputs: Vec<Vec<u8>> = vec![
        b"42".to_vec(),
        b"hello world".to_vec(),
        vec![0x81, 0xa1, 0x6b, 0x01],
        vec![0xff, 0xfe, 0x00, 0x01],
        vec![0xc1, 0xfe, 0x00, 0x01],
        vec![],
    ];
    for bytes in inputs {
        let first = classify(bytes.clone());
        let second = classify(bytes.clone());
        assert_eq!(variant_name(&first), variant_name(&second));
        assert_eq!(first.pretty(), second.pretty());
        assert_eq!(first.pretty_long(), second.pretty_long());
    }
}

#[test]
fn json_takes_precedence_over_text() {
    let v = classify(b"42".to_vec());
    assert!(matches!(v, SemanticValue::StructuredJson(_)));
    assert_eq!(v.pretty(), "42");
}

#[test]
fn json_object_classifies_as_structured_json() {
    let v = classify(b"{\"a\":[1,2],\"b\":\"x\"}".to_vec());
    assert!(matches!(v, SemanticValue::StructuredJson(_)));
}

#[test]
fn non_json_utf8_falls_back_to_text() {
    let v = classify(b"hello world".to_vec());
    match &v {
        SemanticValue::PlainText(s) => assert_eq!(s, "hello world"),
        _ => panic!("expected plain text"),
    }
    assert_eq!(v.pretty(), "\"hello world\"");
    assert_eq!(v.pretty_long(), "\"hello world\"");
}

#[test]
fn msgpack_map_falls_back_to_structured_binary() {
    // A MessagePack map {"k": 1}; its leading tag bytes are not valid UTF-8.
    let bytes = vec![0x81, 0xa1, 0x6b, 0x01];
    assert!(String::from_utf8(bytes.clone()).is_err());
    let v = classify(bytes);
    assert!(matches!(v, SemanticValue::StructuredBinary(_)));
    assert_eq!(v.pretty(), "{\"k\":1}");
}

#[test]
fn unparseable_bytes_fall_back_to_raw() {
    // Invalid UTF-8, and no complete MessagePack document: 0xff alone
    // encodes an integer, so the three trailing bytes disqualify it.
    let bytes = vec![0xff, 0xfe, 0x00, 0x01];
    let v = classify(bytes.clone());
    match &v {
        SemanticValue::RawBytes(b) => assert_eq!(b, &bytes),
        _ => panic!("expected raw bytes"),
    }
    assert_eq!(v.pretty(), "0xfffe0001");
    assert_eq!(v.pretty_long(), "0xfffe0001");
}

#[test]
fn reserved_marker_falls_back_to_raw() {
    // 0xc1 is never used by MessagePack and is not valid UTF-8 either.
    let bytes = vec![0xc1, 0xfe, 0x00, 0x01];
    let v = classify(bytes.clone());
    match &v {
        SemanticValue::RawBytes(b) => assert_eq!(b, &bytes),
        _ => panic!("expected raw bytes"),
    }
    assert_eq!(v.pretty(), "0xc1fe0001");
}

#[test]
fn msgpack_with_trailing_bytes_is_no_document() {
    // A complete MessagePack map followed by one extra byte: the parse
    // does not consume the whole input, so the bytes stay raw.
    let bytes = vec![0x81, 0xa1, 0x6b, 0x01, 0x00];
    let v = classify(bytes.clone());
    match &v {
        SemanticValue::RawBytes(b) => assert_eq!(b, &bytes),
        _ => panic!("expected raw bytes"),
    }
}

#[test]
fn empty_input_is_empty_text() {
    let v = classify(Vec::new());
    match &v {
        SemanticValue::PlainText(s) => assert_eq!(s, ""),
        _ => panic!("expected plain text"),
    }
    assert_eq!(v.pretty(), "\"\"");
}

#[test]
fn compact_rendering_normalizes_json() {
    // The compact form is a serialization of the parsed tree, not an echo
    // of the input bytes.
    let v = classify(b" { \"a\" : 1 } ".to_vec());
    assert!(matches!(v, SemanticValue::StructuredJson(_)));
    assert_eq!(v.pretty(), "{\"a\":1}");
}

#[test]
fn compact_rendering_of_structured_values_is_single_line() {
    // Even an embedded newline in a JSON string stays escaped: the
    // compact form of a structured value never holds a newline.
    let v = classify(b"{\"a\":[1,2],\"b\":\"x\\ny\"}".to_vec());
    assert!(matches!(v, SemanticValue::StructuredJson(_)));
    assert!(!v.pretty().contains('\n'));
    let w = classify(vec![0x81, 0xa1, 0x6b, 0x01]);
    assert!(matches!(w, SemanticValue::StructuredBinary(_)));
    assert!(!w.pretty().contains('\n'));
}

#[test]
fn long_rendering_is_indented() {
    let v = classify(b"{\"a\":1}".to_vec());
    assert_eq!(v.pretty_long(), "{\n  \"a\": 1\n}");
}

#[test]
fn json_rendering_round_trips() {
    let bytes = b"{\"a\":[1,2,3],\"b\":\"x\",\"c\":null}".to_vec();
    let original: serde_json::Value = serde_json::from_slice(&bytes).unwrap();
    let v = classify(bytes);
    let compact: serde_json::Value = serde_json::from_str(&v.pretty()).unwrap();
    let long: serde_json::Value = serde_json::from_str(&v.pretty_long()).unwrap();
    assert_eq!(compact, original);
    assert_eq!(long, original);
}

#[test]
fn msgpack_rendering_round_trips() {
    // {"k": 1} encoded as MessagePack; both renderings re-parse (as JSON,
    // the format they serialize) to the same tree.
    let v = classify(vec![0x81, 0xa1, 0x6b, 0x01]);
    let expected: serde_json::Value = serde_json::from_str("{\"k\":1}").unwrap();
    let compact: serde_json::Value = serde_json::from_str(&v.pretty()).unwrap();
    let long: serde_json::Value = serde_json::from_str(&v.pretty_long()).unwrap();
    assert_eq!(compact, expected);
    assert_eq!(long, expected);
}

#[test]
fn msgpack_encoded_by_library_classifies_as_binary() {
    // Encode a map with rmp_serde itself; the encoding starts with a map
    // tag that is not valid UTF-8.
    let tree: serde_json::Value = serde_json::from_str("{\"count\":7}").unwrap();
    let bytes = rmp_serde::to_vec_named(&tree).unwrap();
    let v = classify(bytes);
    assert!(matches!(v, SemanticValue::StructuredBinary(_)));
    let reparsed: serde_json::Value = serde_json::from_str(&v.pretty()).unwrap();
    assert_eq!(reparsed, tree);
}
