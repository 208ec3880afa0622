use flag_engine::json::{JsonNode, NodeKind};
use flag_engine::value::{decode_value, encode_value, DecodeError, FlagsmithValue};

#[test]
fn integer_round_trips() {
    let decoded = decode_value(&JsonNode::Int(1)).unwrap();
    assert_eq!(decoded, FlagsmithValue::Integer(1));
    assert_eq!(encode_value(&decoded), JsonNode::Int(1));
}

#[test]
fn null_round_trips() {
    let decoded = decode_value(&JsonNode::Null).unwrap();
    assert_eq!(decoded, FlagsmithValue::Null);
    assert_eq!(encode_value(&decoded), JsonNode::Null);
}

#[test]
fn string_round_trips() {
    let decoded = decode_value(&JsonNode::Str("baz".to_string())).unwrap();
    assert_eq!(decoded, FlagsmithValue::Text("baz".to_string()));
    assert_eq!(encode_value(&decoded), JsonNode::Str("baz".to_string()));
}

#[test]
fn boolean_round_trips() {
    let decoded = decode_value(&JsonNode::Bool(true)).unwrap();
    assert_eq!(decoded, FlagsmithValue::Boolean(true));
    assert_eq!(encode_value(&decoded), JsonNode::Bool(true));
}

#[test]
fn array_value_fails_to_decode() {
    let r = decode_value(&JsonNode::Arr(vec![JsonNode::Int(1)]));
    assert_eq!(r, Err(DecodeError::ValueKind(NodeKind::ArrKind)));
}

#[test]
fn object_value_fails_to_decode() {
    let r = decode_value(&JsonNode::Obj(vec![]));
    assert_eq!(r, Err(DecodeError::ValueKind(NodeKind::ObjKind)));
}

#[test]
fn fractional_value_fails_to_decode() {
    let r = decode_value(&JsonNode::Frac(1500));
    assert_eq!(r, Err(DecodeError::ValueKind(NodeKind::FracKind)));
}
