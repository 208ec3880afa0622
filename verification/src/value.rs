//! The dynamic flag-value type and its codec: a tagged scalar that encodes
//! to, and decodes from, a raw scalar node with no wrapper around it.

use vstd::prelude::*;
use crate::json::{JsonNode, NodeKind, kind_of};

verus! {

/// A flag's dynamic value: a string, a boolean, a signed 64-bit integer, or
/// the absent value (JSON null).
#[derive(Debug, Clone, PartialEq, Eq, Hash)]
pub enum FlagsmithValue {
    Text(String),
    Boolean(bool),
    Integer(i64),
    Null,
}

/// The payload fields decoding can report about.
#[derive(Debug, Clone, Copy, PartialEq, Eq, Structural)]
pub enum FieldName {
    StateField,
    FeatureField,
    EnabledField,
    DjangoIdField,
    FeatureStateUuidField,
    MultivariateValuesField,
    ValueField,
    OptionField,
    PercentageField,
    IdField,
    NameField,
    TypeField,
    MvUuidField,
}

/// Why a payload failed to decode.
#[derive(Debug, Clone, Copy, PartialEq, Eq, Structural)]
pub enum DecodeError {
    /// A flag-value field held a non-scalar node of this shape.
    ValueKind(NodeKind),
    /// The named field held a node of an unexpected shape.
    FieldKind(FieldName, NodeKind),
    /// A required field was absent.
    MissingField(FieldName),
    /// The named numeric field does not fit the range the engine stores.
    NumberOutOfRange(FieldName),
}

/// What decoding a scalar node yields: dispatch is purely on the node's
/// shape, and any non-scalar shape is a decode error naming that shape.
pub open spec fn spec_decode_value(n: JsonNode) -> Result<FlagsmithValue, DecodeError> {
    match n {
        JsonNode::Null => Ok(FlagsmithValue::Null),
        JsonNode::Bool(b) => Ok(FlagsmithValue::Boolean(b)),
        JsonNode::Int(i) => Ok(FlagsmithValue::Integer(i)),
        JsonNode::Str(s) => Ok(FlagsmithValue::Text(s)),
        _ => Err(DecodeError::ValueKind(kind_of(n))),
    }
}

/// The raw scalar a value encodes to: no wrapper, a string as a string node,
/// an integer as an integer node, the absent value as null.
pub open spec fn spec_encode_value(v: FlagsmithValue) -> JsonNode {
    match v {
        FlagsmithValue::Null => JsonNode::Null,
        FlagsmithValue::Boolean(b) => JsonNode::Bool(b),
        FlagsmithValue::Integer(i) => JsonNode::Int(i),
        FlagsmithValue::Text(s) => JsonNode::Str(s),
    }
}

impl FlagsmithValue {
    /// A copy that is known to hold the same value.
    pub fn duplicate(&self) -> (r: FlagsmithValue)
        ensures
            r == *self,
    {
        match self {
            FlagsmithValue::Text(s) => FlagsmithValue::Text(s.clone()),
            FlagsmithValue::Boolean(b) => FlagsmithValue::Boolean(*b),
            FlagsmithValue::Integer(i) => FlagsmithValue::Integer(*i),
            FlagsmithValue::Null => FlagsmithValue::Null,
        }
    }
}

/// Decodes a scalar node into a dynamic value.
pub fn decode_value(n: &JsonNode) -> (r: Result<FlagsmithValue, DecodeError>)
    ensures
        r == spec_decode_value(*n),
{
    match n {
        JsonNode::Null => Ok(FlagsmithValue::Null),
        JsonNode::Bool(b) => Ok(FlagsmithValue::Boolean(*b)),
        JsonNode::Int(i) => Ok(FlagsmithValue::Integer(*i)),
        JsonNode::Str(s) => Ok(FlagsmithValue::Text(s.clone())),
        _ => Err(DecodeError::ValueKind(n.kind())),
    }
}

/// Encodes a dynamic value as its raw scalar node.
pub fn encode_value(v: &FlagsmithValue) -> (r: JsonNode)
    ensures
        r == spec_encode_value(*v),
{
    match v {
        FlagsmithValue::Null => JsonNode::Null,
        FlagsmithValue::Boolean(b) => JsonNode::Bool(*b),
        FlagsmithValue::Integer(i) => JsonNode::Int(*i),
        FlagsmithValue::Text(s) => JsonNode::Str(s.clone()),
    }
}

/// Law: a dynamic value survives an encode/decode round trip unchanged.
pub proof fn lemma_value_round_trip(v: FlagsmithValue)
    ensures
        spec_decode_value(spec_encode_value(v)) == Ok::<FlagsmithValue, DecodeError>(v),
{
}

/// Law: decoding pins the scalar down — a node that decodes successfully is
/// exactly what the decoded value encodes back to.
pub proof fn lemma_decode_inverts_encode(n: JsonNode, v: FlagsmithValue)
    requires
        spec_decode_value(n) == Ok::<FlagsmithValue, DecodeError>(v),
    ensures
        spec_encode_value(v) == n,
{
}

} // verus!
