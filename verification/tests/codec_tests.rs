use flag_engine::codec::{decode_feature_state, encode_feature_state};
use flag_engine::json::JsonNode;
use flag_engine::value::{DecodeError, FieldName, FlagsmithValue};

/// Converts a parsed JSON document into the library's payload tree. Numbers
/// that carry a fractional part are held in thousandths.
fn value_to_node(v: &serde_json::Value) -> JsonNode {
    match v {
        serde_json::Value::Null => JsonNode::Null,
        serde_json::Value::Bool(b) => JsonNode::Bool(*b),
        serde_json::Value::Number(n) => {
            if let Some(i) = n.as_i64() {
                JsonNode::Int(i)
            } else if let Some(f) = n.as_f64() {
                let milli = (f * 1000.0).round() as i64;
                if milli % 1000 == 0 {
                    JsonNode::Int(milli / 1000)
                } else {
                    JsonNode::Frac(milli)
                }
            } else {
                JsonNode::Frac(i64::MAX)
            }
        }
        serde_json::Value::String(s) => JsonNode::Str(s.clone()),
        serde_json::Value::Array(items) => {
            JsonNode::Arr(items.iter().map(value_to_node).collect())
        }
        serde_json::Value::Object(fields) => JsonNode::Obj(
            fields
                .iter()
                .map(|(k, v)| (k.clone(), value_to_node(v)))
                .collect(),
        ),
    }
}

fn node_to_value(n: &JsonNode) -> serde_json::Value {
    match n {
        JsonNode::Null => serde_json::Value::Null,
        JsonNode::Bool(b) => serde_json::Value::Bool(*b),
        JsonNode::Int(i) => serde_json::Value::from(*i),
        JsonNode::Frac(m) => serde_json::Value::from(*m as f64 / 1000.0),
        JsonNode::Str(s) => serde_json::Value::String(s.clone()),
        JsonNode::Arr(items) => {
            serde_json::Value::Array(items.iter().map(node_to_value).collect())
        }
        JsonNode::Obj(fields) => serde_json::Value::Object(
            fields
                .iter()
                .map(|(k, v)| (k.clone(), node_to_value(v)))
                .collect(),
        ),
    }
}

fn decode_json(text: &str) -> Result<flag_engine::features::FeatureState, DecodeError> {
    let value: serde_json::Value = serde_json::from_str(text).unwrap();
    decode_feature_state(&value_to_node(&value))
}

#[test]
fn deserializing_fs_creates_default_uuid_if_not_present() {
    let feature_state_json = r#"{
            "multivariate_feature_state_values": [
        {
            "id": 3404,
            "multivariate_feature_option": {
              "value": "baz"
            },
            "percentage_allocation": 30
          }
            ],
            "feature_state_value": 1,
            "django_id": 1,
            "feature": {
                "name": "feature1",
                "type": null,
                "id": 1
            },
            "segment_id": null,
            "enabled": false
        }"#;

    let feature_state = decode_json(feature_state_json).unwrap();
    assert_eq!(feature_state.featurestate_uuid.is_empty(), false);
    assert_eq!(
        feature_state.multivariate_feature_state_values[0]
            .mv_fs_value_uuid
            .is_empty(),
        false
    );
}

#[test]
fn serialize_and_deserialize_feature_state() {
    let feature_state_json: serde_json::Value = serde_json::from_str(
        r#"{
                "multivariate_feature_state_values": [],
                "feature_state_value": 1,
                "featurestate_uuid":"a6ff815f-63ed-4e72-99dc-9124c442ce4d",
                "django_id": 1,
                "feature": {
                    "name": "feature1",
                    "type": null,
                    "id": 1
                },
                "enabled": false
            }"#,
    )
    .unwrap();
    let feature_state = decode_feature_state(&value_to_node(&feature_state_json)).unwrap();
    let given_json = node_to_value(&encode_feature_state(&feature_state));
    assert_eq!(given_json, feature_state_json)
}

#[test]
fn generated_uuids_are_hyphenated_uuid_text() {
    let feature_state = decode_json(
        r#"{
            "multivariate_feature_state_values": [],
            "feature_state_value": null,
            "feature": {"name": "f", "type": null, "id": 1},
            "enabled": true
        }"#,
    )
    .unwrap();
    assert_eq!(feature_state.featurestate_uuid.len(), 36);
    assert_eq!(feature_state.django_id, None);
}

#[test]
fn decoded_multivariate_values_round_trip() {
    let text = r#"{
            "multivariate_feature_state_values": [
                {
                    "id": 3404,
                    "multivariate_feature_option": {"value": "baz", "id": 9},
                    "percentage_allocation": 30.5,
                    "mv_fs_value_uuid": "mv-uuid-1"
                }
            ],
            "feature_state_value": "base",
            "featurestate_uuid": "fs-uuid",
            "django_id": 7,
            "feature": {"name": "feature1", "type": "STANDARD", "id": 1},
            "enabled": true
        }"#;
    let original: serde_json::Value = serde_json::from_str(text).unwrap();
    let state = decode_feature_state(&value_to_node(&original)).unwrap();
    assert_eq!(
        state.multivariate_feature_state_values[0].percentage_allocation,
        30_500
    );
    let re_encoded = node_to_value(&encode_feature_state(&state));
    assert_eq!(re_encoded, original);
}

#[test]
fn base_value_accepts_value_alias() {
    let state = decode_json(
        r#"{
            "multivariate_feature_state_values": [],
            "value": "aliased",
            "feature": {"name": "f", "type": null, "id": 1},
            "enabled": false
        }"#,
    )
    .unwrap();
    assert_eq!(state.get_value(None, 0), FlagsmithValue::Text("aliased".to_string()));
}

#[test]
fn missing_feature_is_a_decode_error() {
    let r = decode_json(
        r#"{
            "multivariate_feature_state_values": [],
            "feature_state_value": 1,
            "enabled": false
        }"#,
    );
    assert_eq!(r, Err(DecodeError::MissingField(FieldName::FeatureField)));
}

#[test]
fn wrong_shape_base_value_is_a_decode_error() {
    let r = decode_json(
        r#"{
            "multivariate_feature_state_values": [],
            "feature_state_value": [1, 2],
            "feature": {"name": "f", "type": null, "id": 1},
            "enabled": false
        }"#,
    );
    assert!(matches!(r, Err(DecodeError::ValueKind(_))));
}

#[test]
fn negative_percentage_is_a_decode_error() {
    let r = decode_json(
        r#"{
            "multivariate_feature_state_values": [
                {
                    "multivariate_feature_option": {"value": 1},
                    "percentage_allocation": -5
                }
            ],
            "feature_state_value": 1,
            "feature": {"name": "f", "type": null, "id": 1},
            "enabled": false
        }"#,
    );
    assert_eq!(
        r,
        Err(DecodeError::NumberOutOfRange(FieldName::PercentageField))
    );
}

#[test]
fn oversized_feature_id_is_a_decode_error() {
    let r = decode_json(
        r#"{
            "multivariate_feature_state_values": [],
            "feature_state_value": 1,
            "feature": {"name": "f", "type": null, "id": 4294967296},
            "enabled": false
        }"#,
    );
    assert_eq!(r, Err(DecodeError::NumberOutOfRange(FieldName::IdField)));
}

#[test]
fn wrong_kind_enabled_is_a_decode_error() {
    let r = decode_json(
        r#"{
            "multivariate_feature_state_values": [],
            "feature_state_value": 1,
            "feature": {"name": "f", "type": null, "id": 1},
            "enabled": 1
        }"#,
    );
    assert_eq!(
        r,
        Err(DecodeError::FieldKind(
            FieldName::EnabledField,
            flag_engine::json::NodeKind::IntKind
        ))
    );
}

#[test]
fn missing_enabled_is_a_decode_error() {
    let r = decode_json(
        r#"{
            "multivariate_feature_state_values": [],
            "feature_state_value": 1,
            "feature": {"name": "f", "type": null, "id": 1}
        }"#,
    );
    assert_eq!(r, Err(DecodeError::MissingField(FieldName::EnabledField)));
}
