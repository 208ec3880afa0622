//! The entity codec: decoding a configuration payload into feature entities,
//! with uuid defaulting for payloads that omit one, and encoding entities
//! back out with `feature_state_value` as the base-value key.

use vstd::prelude::*;
use vstd::string::StringExecFns;
use crate::json::{JsonNode, kind_of, lookup_field, spec_lookup};
use crate::value::{
    DecodeError, FieldName, FlagsmithValue, decode_value, encode_value, lemma_value_round_trip,
    spec_decode_value, spec_encode_value,
};
use crate::features::{Feature, FeatureState, MultivariateFeatureOption, MultivariateFeatureStateValue};

verus! {

broadcast use vstd::string::group_string_axioms;

/// Relies on `uuid::Uuid::new_v4` and its `Display` implementation: a fresh
/// random version-4 UUID rendered in hyphenated form, which is always 36
/// characters long. Nothing more is assumed of the value, since it is random.
#[verifier::external_body]
fn new_uuid_string() -> (r: String)
    ensures
        r@.len() == 36,
{
    uuid::Uuid::new_v4().to_string()
}

/// The id a feature payload must carry fits a 32-bit unsigned integer.
pub open spec fn fits_u32(i: i64) -> bool {
    0 <= i <= u32::MAX as i64
}

/// The largest whole percentage an integer allocation may carry: scaled by
/// one thousand it must still fit the stored 32-bit unit count.
pub open spec fn fits_percent_int(p: i64) -> bool {
    0 <= p && p * 1000 <= u32::MAX as i64
}

/// What decoding a feature object yields: `id` and `name` are required, the
/// optional classification tag `type` may be a string, null, or absent.
pub open spec fn spec_decode_feature(n: JsonNode) -> Result<Feature, DecodeError> {
    match n {
        JsonNode::Obj(fields) => match spec_lookup(fields@, "id"@) {
            Option::None => Err(DecodeError::MissingField(FieldName::IdField)),
            Option::Some(idn) => match idn {
                JsonNode::Int(i) => if !fits_u32(i) {
                    Err(DecodeError::NumberOutOfRange(FieldName::IdField))
                } else {
                    match spec_lookup(fields@, "name"@) {
                        Option::None => Err(DecodeError::MissingField(FieldName::NameField)),
                        Option::Some(nn) => match nn {
                            JsonNode::Str(name) => match spec_lookup(fields@, "type"@) {
                                Option::None => Ok(
                                    Feature { id: i as u32, name, feature_type: Option::None },
                                ),
                                Option::Some(tn) => match tn {
                                    JsonNode::Null => Ok(
                                        Feature { id: i as u32, name, feature_type: Option::None },
                                    ),
                                    JsonNode::Str(t) => Ok(
                                        Feature {
                                            id: i as u32,
                                            name,
                                            feature_type: Option::Some(t),
                                        },
                                    ),
                                    _ => Err(
                                        DecodeError::FieldKind(FieldName::TypeField, kind_of(tn)),
                                    ),
                                },
                            },
                            _ => Err(DecodeError::FieldKind(FieldName::NameField, kind_of(nn))),
                        },
                    }
                },
                _ => Err(DecodeError::FieldKind(FieldName::IdField, kind_of(idn))),
            },
        },
        _ => Err(DecodeError::FieldKind(FieldName::FeatureField, kind_of(n))),
    }
}

/// Decodes a feature object.
pub fn decode_feature(n: &JsonNode) -> (r: Result<Feature, DecodeError>)
    ensures
        r == spec_decode_feature(*n),
{
    let fields = match n {
        JsonNode::Obj(fields) => fields,
        _ => {
            return Err(DecodeError::FieldKind(FieldName::FeatureField, n.kind()));
        },
    };
    let id: u32 = match lookup_field(fields, "id") {
        Option::None => {
            return Err(DecodeError::MissingField(FieldName::IdField));
        },
        Option::Some(JsonNode::Int(i)) => {
            if *i < 0 || *i > u32::MAX as i64 {
                return Err(DecodeError::NumberOutOfRange(FieldName::IdField));
            }
            *i as u32
        },
        Option::Some(other) => {
            return Err(DecodeError::FieldKind(FieldName::IdField, other.kind()));
        },
    };
    let name: String = match lookup_field(fields, "name") {
        Option::None => {
            return Err(DecodeError::MissingField(FieldName::NameField));
        },
        Option::Some(JsonNode::Str(s)) => s.clone(),
        Option::Some(other) => {
            return Err(DecodeError::FieldKind(FieldName::NameField, other.kind()));
        },
    };
    let feature_type: Option<String> = match lookup_field(fields, "type") {
        Option::None => Option::None,
        Option::Some(JsonNode::Null) => Option::None,
        Option::Some(JsonNode::Str(t)) => Option::Some(t.clone()),
        Option::Some(other) => {
            return Err(DecodeError::FieldKind(FieldName::TypeField, other.kind()));
        },
    };
    Ok(Feature { id, name, feature_type })
}

/// What decoding a variant-option object yields: a required scalar `value`
/// and an optional persisted `id`.
pub open spec fn spec_decode_mv_option(n: JsonNode) -> Result<
    MultivariateFeatureOption,
    DecodeError,
> {
    match n {
        JsonNode::Obj(fields) => match spec_lookup(fields@, "value"@) {
            Option::None => Err(DecodeError::MissingField(FieldName::ValueField)),
            Option::Some(vn) => match spec_decode_value(vn) {
                Err(e) => Err(e),
                Ok(value) => match spec_lookup(fields@, "id"@) {
                    Option::None => Ok(MultivariateFeatureOption { value, id: Option::None }),
                    Option::Some(idn) => match idn {
                        JsonNode::Null => Ok(
                            MultivariateFeatureOption { value, id: Option::None },
                        ),
                        JsonNode::Int(i) => if !fits_u32(i) {
                            Err(DecodeError::NumberOutOfRange(FieldName::IdField))
                        } else {
                            Ok(MultivariateFeatureOption { value, id: Option::Some(i as u32) })
                        },
                        _ => Err(DecodeError::FieldKind(FieldName::IdField, kind_of(idn))),
                    },
                },
            },
        },
        _ => Err(DecodeError::FieldKind(FieldName::OptionField, kind_of(n))),
    }
}

/// Decodes a variant-option object.
pub fn decode_mv_option(n: &JsonNode) -> (r: Result<MultivariateFeatureOption, DecodeError>)
    ensures
        r == spec_decode_mv_option(*n),
{
    let fields = match n {
        JsonNode::Obj(fields) => fields,
        _ => {
            return Err(DecodeError::FieldKind(FieldName::OptionField, n.kind()));
        },
    };
    let value: FlagsmithValue = match lookup_field(fields, "value") {
        Option::None => {
            return Err(DecodeError::MissingField(FieldName::ValueField));
        },
        Option::Some(vn) => match decode_value(vn) {
            Err(e) => {
                return Err(e);
            },
            Ok(v) => v,
        },
    };
    let id: Option<u32> = match lookup_field(fields, "id") {
        Option::None => Option::None,
        Option::Some(JsonNode::Null) => Option::None,
        Option::Some(JsonNode::Int(i)) => {
            if *i < 0 || *i > u32::MAX as i64 {
                return Err(DecodeError::NumberOutOfRange(FieldName::IdField));
            }
            Option::Some(*i as u32)
        },
        Option::Some(other) => {
            return Err(DecodeError::FieldKind(FieldName::IdField, other.kind()));
        },
    };
    Ok(MultivariateFeatureOption { value, id })
}

/// The parsed parts of one variant binding, before uuid defaulting: the
/// option, the allocation in thousandths of a percent, the persisted id, and
/// the uuid exactly as the payload carried it.
pub type MvParts = (MultivariateFeatureOption, u32, Option<u32>, Option<String>);

/// What parsing one variant-binding object yields. A whole-number allocation
/// is scaled to thousandths; a fractional one is already in thousandths.
pub open spec fn spec_decode_mv(n: JsonNode) -> Result<MvParts, DecodeError> {
    match n {
        JsonNode::Obj(fields) => match spec_lookup(fields@, "multivariate_feature_option"@) {
            Option::None => Err(DecodeError::MissingField(FieldName::OptionField)),
            Option::Some(on) => match spec_decode_mv_option(on) {
                Err(e) => Err(e),
                Ok(option) => match spec_lookup(fields@, "percentage_allocation"@) {
                    Option::None => Err(DecodeError::MissingField(FieldName::PercentageField)),
                    Option::Some(pn) => match pn {
                        JsonNode::Int(p) => if !fits_percent_int(p) {
                            Err(DecodeError::NumberOutOfRange(FieldName::PercentageField))
                        } else {
                            spec_decode_mv_tail(fields@, option, (p * 1000) as u32)
                        },
                        JsonNode::Frac(m) => if !fits_u32(m) {
                            Err(DecodeError::NumberOutOfRange(FieldName::PercentageField))
                        } else {
                            spec_decode_mv_tail(fields@, option, m as u32)
                        },
                        _ => Err(DecodeError::FieldKind(FieldName::PercentageField, kind_of(pn))),
                    },
                },
            },
        },
        _ => Err(DecodeError::FieldKind(FieldName::MultivariateValuesField, kind_of(n))),
    }
}

/// The id and uuid parts of a variant binding, once option and allocation
/// are in hand.
pub open spec fn spec_decode_mv_tail(
    fields: Seq<(String, JsonNode)>,
    option: MultivariateFeatureOption,
    percentage: u32,
) -> Result<MvParts, DecodeError> {
    match spec_lookup(fields, "id"@) {
        Option::None => spec_decode_mv_uuid(fields, option, percentage, Option::None),
        Option::Some(idn) => match idn {
            JsonNode::Null => spec_decode_mv_uuid(fields, option, percentage, Option::None),
            JsonNode::Int(i) => if !fits_u32(i) {
                Err(DecodeError::NumberOutOfRange(FieldName::IdField))
            } else {
                spec_decode_mv_uuid(fields, option, percentage, Option::Some(i as u32))
            },
            _ => Err(DecodeError::FieldKind(FieldName::IdField, kind_of(idn))),
        },
    }
}

/// The uuid part of a variant binding: absent is allowed, anything but a
/// string is not.
pub open spec fn spec_decode_mv_uuid(
    fields: Seq<(String, JsonNode)>,
    option: MultivariateFeatureOption,
    percentage: u32,
    id: Option<u32>,
) -> Result<MvParts, DecodeError> {
    match spec_lookup(fields, "mv_fs_value_uuid"@) {
        Option::None => Ok((option, percentage, id, Option::None)),
        Option::Some(un) => match un {
            JsonNode::Str(u) => Ok((option, percentage, id, Option::Some(u))),
            _ => Err(DecodeError::FieldKind(FieldName::MvUuidField, kind_of(un))),
        },
    }
}

/// Whether a decoded binding agrees with its parsed parts: every field is
/// pinned, except that a binding whose payload had no uuid carries a fresh
/// generated one, known only to be 36 characters long.
pub open spec fn mv_matches(p: MvParts, mv: MultivariateFeatureStateValue) -> bool {
    &&& mv.multivariate_feature_option == p.0
    &&& mv.percentage_allocation == p.1
    &&& mv.id == p.2
    &&& match p.3 {
        Option::Some(u) => mv.mv_fs_value_uuid == u,
        Option::None => mv.mv_fs_value_uuid@.len() == 36,
    }
}

/// Decodes one variant-binding object, generating a uuid exactly when the
/// payload supplies none.
pub fn decode_mv(n: &JsonNode) -> (r: Result<MultivariateFeatureStateValue, DecodeError>)
    ensures
        match spec_decode_mv(*n) {
            Err(e) => r == Err::<MultivariateFeatureStateValue, DecodeError>(e),
            Ok(p) => r is Ok && mv_matches(p, r->Ok_0),
        },
{
    let fields = match n {
        JsonNode::Obj(fields) => fields,
        _ => {
            return Err(DecodeError::FieldKind(FieldName::MultivariateValuesField, n.kind()));
        },
    };
    let option: MultivariateFeatureOption = match lookup_field(
        fields,
        "multivariate_feature_option",
    ) {
        Option::None => {
            return Err(DecodeError::MissingField(FieldName::OptionField));
        },
        Option::Some(on) => match decode_mv_option(on) {
            Err(e) => {
                return Err(e);
            },
            Ok(o) => o,
        },
    };
    let percentage: u32 = match lookup_field(fields, "percentage_allocation") {
        Option::None => {
            return Err(DecodeError::MissingField(FieldName::PercentageField));
        },
        Option::Some(JsonNode::Int(p)) => {
            if *p < 0 || *p > (u32::MAX / 1000) as i64 {
                return Err(DecodeError::NumberOutOfRange(FieldName::PercentageField));
            }
            proof {
                assert(fits_percent_int(*p));
            }
            (*p * 1000) as u32
        },
        Option::Some(JsonNode::Frac(m)) => {
            if *m < 0 || *m > u32::MAX as i64 {
                return Err(DecodeError::NumberOutOfRange(FieldName::PercentageField));
            }
            *m as u32
        },
        Option::Some(other) => {
            return Err(DecodeError::FieldKind(FieldName::PercentageField, other.kind()));
        },
    };
    let id: Option<u32> = match lookup_field(fields, "id") {
        Option::None => Option::None,
        Option::Some(JsonNode::Null) => Option::None,
        Option::Some(JsonNode::Int(i)) => {
            if *i < 0 || *i > u32::MAX as i64 {
                return Err(DecodeError::NumberOutOfRange(FieldName::IdField));
            }
            Option::Some(*i as u32)
        },
        Option::Some(other) => {
            return Err(DecodeError::FieldKind(FieldName::IdField, other.kind()));
        },
    };
    let mv_fs_value_uuid: String = match lookup_field(fields, "mv_fs_value_uuid") {
        Option::None => new_uuid_string(),
        Option::Some(JsonNode::Str(u)) => u.clone(),
        Option::Some(other) => {
            return Err(DecodeError::FieldKind(FieldName::MvUuidField, other.kind()));
        },
    };
    Ok(
        MultivariateFeatureStateValue {
            multivariate_feature_option: option,
            percentage_allocation: percentage,
            id,
            mv_fs_value_uuid,
        },
    )
}

/// What parsing a run of variant bindings yields: the parts of each, or the
/// first error reading left to right.
pub open spec fn spec_decode_mvs(items: Seq<JsonNode>) -> Result<Seq<MvParts>, DecodeError>
    decreases items.len(),
{
    if items.len() == 0 {
        Ok(Seq::empty())
    } else {
        match spec_decode_mvs(items.drop_last()) {
            Err(e) => Err(e),
            Ok(rest) => match spec_decode_mv(items.last()) {
                Err(e) => Err(e),
                Ok(p) => Ok(rest.push(p)),
            },
        }
    }
}

proof fn lemma_decode_mvs_err(items: Seq<JsonNode>, k: int, e: DecodeError)
    requires
        0 <= k < items.len(),
        spec_decode_mvs(items.take(k)) is Ok,
        spec_decode_mv(items[k]) == Err::<MvParts, DecodeError>(e),
    ensures
        spec_decode_mvs(items) == Err::<Seq<MvParts>, DecodeError>(e),
    decreases items.len(),
{
    if items.len() == k + 1 {
        assert(items.drop_last() =~= items.take(k));
        assert(items.last() == items[k]);
    } else {
        assert(items.drop_last().take(k) =~= items.take(k));
        assert(items.drop_last()[k] == items[k]);
        lemma_decode_mvs_err(items.drop_last(), k, e);
    }
}

/// Decodes a run of variant bindings, left to right.
pub fn decode_mvs(items: &Vec<JsonNode>) -> (r: Result<
    Vec<MultivariateFeatureStateValue>,
    DecodeError,
>)
    ensures
        match spec_decode_mvs(items@) {
            Err(e) => r == Err::<Vec<MultivariateFeatureStateValue>, DecodeError>(e),
            Ok(ps) => r is Ok && r->Ok_0@.len() == ps.len() && forall|i: int|
                0 <= i < ps.len() ==> mv_matches(ps[i], #[trigger] r->Ok_0@[i]),
        },
{
    let mut out: Vec<MultivariateFeatureStateValue> = Vec::new();
    let mut k: usize = 0;
    proof {
        assert(items@.take(0) =~= Seq::<JsonNode>::empty());
    }
    while k < items.len()
        invariant
            k <= items@.len(),
            spec_decode_mvs(items@.take(k as int)) is Ok,
            out@.len() == spec_decode_mvs(items@.take(k as int))->Ok_0.len(),
            forall|i: int|
                0 <= i < out@.len() ==> mv_matches(
                    spec_decode_mvs(items@.take(k as int))->Ok_0[i],
                    #[trigger] out@[i],
                ),
        decreases items@.len() - k,
    {
        proof {
            assert(items@.take(k as int + 1).drop_last() =~= items@.take(k as int));
            assert(items@.take(k as int + 1).last() == items@[k as int]);
        }
        match decode_mv(&items[k]) {
            Err(e) => {
                proof {
                    lemma_decode_mvs_err(items@, k as int, e);
                }
                return Err(e);
            },
            Ok(mv) => {
                out.push(mv);
            },
        }
        k = k + 1;
    }
    proof {
        assert(items@.take(items@.len() as int) =~= items@);
    }
    Ok(out)
}

/// The parsed parts of a feature state, before uuid defaulting: feature,
/// enabled flag, persisted id, the uuid exactly as the payload carried it,
/// the parts of each variant binding, and the base value.
pub type FsParts = (Feature, bool, Option<u32>, Option<String>, Seq<MvParts>, FlagsmithValue);

/// What parsing a feature-state object yields. The base value is read from
/// `feature_state_value`, accepting the alias `value`; an absent base value
/// is the absent dynamic value.
pub open spec fn spec_decode_fs(n: JsonNode) -> Result<FsParts, DecodeError> {
    match n {
        JsonNode::Obj(fields) => match spec_lookup(fields@, "feature"@) {
            Option::None => Err(DecodeError::MissingField(FieldName::FeatureField)),
            Option::Some(fnode) => match spec_decode_feature(fnode) {
                Err(e) => Err(e),
                Ok(feature) => match spec_lookup(fields@, "enabled"@) {
                    Option::None => Err(DecodeError::MissingField(FieldName::EnabledField)),
                    Option::Some(en) => match en {
                        JsonNode::Bool(enabled) => spec_decode_fs_tail(fields@, feature, enabled),
                        _ => Err(DecodeError::FieldKind(FieldName::EnabledField, kind_of(en))),
                    },
                },
            },
        },
        _ => Err(DecodeError::FieldKind(FieldName::StateField, kind_of(n))),
    }
}

/// The persisted id and uuid parts of a feature state.
pub open spec fn spec_decode_fs_tail(
    fields: Seq<(String, JsonNode)>,
    feature: Feature,
    enabled: bool,
) -> Result<FsParts, DecodeError> {
    match spec_lookup(fields, "django_id"@) {
        Option::Some(dn) => match dn {
            JsonNode::Null => spec_decode_fs_uuid(fields, feature, enabled, Option::None),
            JsonNode::Int(d) => if !fits_u32(d) {
                Err(DecodeError::NumberOutOfRange(FieldName::DjangoIdField))
            } else {
                spec_decode_fs_uuid(fields, feature, enabled, Option::Some(d as u32))
            },
            _ => Err(DecodeError::FieldKind(FieldName::DjangoIdField, kind_of(dn))),
        },
        Option::None => spec_decode_fs_uuid(fields, feature, enabled, Option::None),
    }
}

pub open spec fn spec_decode_fs_uuid(
    fields: Seq<(String, JsonNode)>,
    feature: Feature,
    enabled: bool,
    django_id: Option<u32>,
) -> Result<FsParts, DecodeError> {
    match spec_lookup(fields, "featurestate_uuid"@) {
        Option::Some(un) => match un {
            JsonNode::Str(u) => spec_decode_fs_mvs(
                fields,
                feature,
                enabled,
                django_id,
                Option::Some(u),
            ),
            _ => Err(DecodeError::FieldKind(FieldName::FeatureStateUuidField, kind_of(un))),
        },
        Option::None => spec_decode_fs_mvs(fields, feature, enabled, django_id, Option::None),
    }
}

pub open spec fn spec_decode_fs_mvs(
    fields: Seq<(String, JsonNode)>,
    feature: Feature,
    enabled: bool,
    django_id: Option<u32>,
    uuid: Option<String>,
) -> Result<FsParts, DecodeError> {
    match spec_lookup(fields, "multivariate_feature_state_values"@) {
        Option::None => Err(DecodeError::MissingField(FieldName::MultivariateValuesField)),
        Option::Some(mn) => match mn {
            JsonNode::Arr(items) => match spec_decode_mvs(items@) {
                Err(e) => Err(e),
                Ok(parts) => match spec_base_value_node(fields) {
                    Option::None => Ok(
                        (feature, enabled, django_id, uuid, parts, FlagsmithValue::Null),
                    ),
                    Option::Some(vn) => match spec_decode_value(vn) {
                        Err(e) => Err(e),
                        Ok(value) => Ok((feature, enabled, django_id, uuid, parts, value)),
                    },
                },
            },
            _ => Err(DecodeError::FieldKind(FieldName::MultivariateValuesField, kind_of(mn))),
        },
    }
}

/// The node the base value is read from: the `feature_state_value` field,
/// or the `value` alias when that key is absent.
pub open spec fn spec_base_value_node(fields: Seq<(String, JsonNode)>) -> Option<JsonNode> {
    match spec_lookup(fields, "feature_state_value"@) {
        Option::Some(vn) => Option::Some(vn),
        Option::None => spec_lookup(fields, "value"@),
    }
}

/// Whether a decoded feature state agrees with its parsed parts: every field
/// is pinned, except that a state whose payload had no uuid carries a fresh
/// generated one, known only to be 36 characters long.
pub open spec fn fs_matches(p: FsParts, fs: FeatureState) -> bool {
    &&& fs.feature == p.0
    &&& fs.enabled == p.1
    &&& fs.django_id == p.2
    &&& match p.3 {
        Option::Some(u) => fs.featurestate_uuid == u,
        Option::None => fs.featurestate_uuid@.len() == 36,
    }
    &&& fs.multivariate_feature_state_values@.len() == p.4.len()
    &&& forall|i: int|
        0 <= i < p.4.len() ==> mv_matches(p.4[i], #[trigger] fs.multivariate_feature_state_values@[i])
    &&& fs.value == p.5
}

/// Decodes a feature-state object, generating uuids exactly where the
/// payload supplies none.
pub fn decode_feature_state(n: &JsonNode) -> (r: Result<FeatureState, DecodeError>)
    ensures
        match spec_decode_fs(*n) {
            Err(e) => r == Err::<FeatureState, DecodeError>(e),
            Ok(p) => r is Ok && fs_matches(p, r->Ok_0),
        },
{
    let fields = match n {
        JsonNode::Obj(fields) => fields,
        _ => {
            return Err(DecodeError::FieldKind(FieldName::StateField, n.kind()));
        },
    };
    let feature: Feature = match lookup_field(fields, "feature") {
        Option::None => {
            return Err(DecodeError::MissingField(FieldName::FeatureField));
        },
        Option::Some(fnode) => match decode_feature(fnode) {
            Err(e) => {
                return Err(e);
            },
            Ok(f) => f,
        },
    };
    let enabled: bool = match lookup_field(fields, "enabled") {
        Option::None => {
            return Err(DecodeError::MissingField(FieldName::EnabledField));
        },
        Option::Some(JsonNode::Bool(b)) => *b,
        Option::Some(other) => {
            return Err(DecodeError::FieldKind(FieldName::EnabledField, other.kind()));
        },
    };
    let django_id: Option<u32> = match lookup_field(fields, "django_id") {
        Option::None => Option::None,
        Option::Some(JsonNode::Null) => Option::None,
        Option::Some(JsonNode::Int(d)) => {
            if *d < 0 || *d > u32::MAX as i64 {
                return Err(DecodeError::NumberOutOfRange(FieldName::DjangoIdField));
            }
            Option::Some(*d as u32)
        },
        Option::Some(other) => {
            return Err(DecodeError::FieldKind(FieldName::DjangoIdField, other.kind()));
        },
    };
    let featurestate_uuid: String = match lookup_field(fields, "featurestate_uuid") {
        Option::None => new_uuid_string(),
        Option::Some(JsonNode::Str(u)) => u.clone(),
        Option::Some(other) => {
            return Err(DecodeError::FieldKind(FieldName::FeatureStateUuidField, other.kind()));
        },
    };
    let multivariate_feature_state_values: Vec<MultivariateFeatureStateValue> = match lookup_field(
        fields,
        "multivariate_feature_state_values",
    ) {
        Option::None => {
            return Err(DecodeError::MissingField(FieldName::MultivariateValuesField));
        },
        Option::Some(JsonNode::Arr(items)) => match decode_mvs(items) {
            Err(e) => {
                return Err(e);
            },
            Ok(mvs) => mvs,
        },
        Option::Some(other) => {
            return Err(DecodeError::FieldKind(FieldName::MultivariateValuesField, other.kind()));
        },
    };
    let base_node: Option<&JsonNode> = match lookup_field(fields, "feature_state_value") {
        Option::Some(vn) => Option::Some(vn),
        Option::None => lookup_field(fields, "value"),
    };
    let value: FlagsmithValue = match base_node {
        Option::None => FlagsmithValue::Null,
        Option::Some(vn) => match decode_value(vn) {
            Err(e) => {
                return Err(e);
            },
            Ok(v) => v,
        },
    };
    Ok(
        FeatureState {
            feature,
            enabled,
            django_id,
            featurestate_uuid,
            multivariate_feature_state_values,
            value,
        },
    )
}

/// The node an optional persisted id encodes to: the number, or null.
pub open spec fn opt_u32_node(o: Option<u32>) -> JsonNode {
    match o {
        Option::Some(i) => JsonNode::Int(i as i64),
        Option::None => JsonNode::Null,
    }
}

/// The node an optional tag encodes to: the string, or null.
pub open spec fn opt_str_node(o: Option<String>) -> JsonNode {
    match o {
        Option::Some(s) => JsonNode::Str(s),
        Option::None => JsonNode::Null,
    }
}

/// The node an allocation encodes to: a whole number of percent where the
/// thousandths divide out, else the fractional value in thousandths.
pub open spec fn percent_node(p: u32) -> JsonNode {
    if p % 1000 == 0 {
        JsonNode::Int((p / 1000) as i64)
    } else {
        JsonNode::Frac(p as i64)
    }
}

/// The shape a feature encodes to: an object with its three fields.
pub open spec fn spec_encoded_feature(n: JsonNode, f: Feature) -> bool {
    match n {
        JsonNode::Obj(fields) => {
            &&& fields@.len() == 3
            &&& fields@[0].0@ == "id"@ && fields@[0].1 == JsonNode::Int(f.id as i64)
            &&& fields@[1].0@ == "name"@ && fields@[1].1 == JsonNode::Str(f.name)
            &&& fields@[2].0@ == "type"@ && fields@[2].1 == opt_str_node(f.feature_type)
        },
        _ => false,
    }
}

/// The shape a variant option encodes to.
pub open spec fn spec_encoded_option(n: JsonNode, o: MultivariateFeatureOption) -> bool {
    match n {
        JsonNode::Obj(fields) => {
            &&& fields@.len() == 2
            &&& fields@[0].0@ == "value"@ && fields@[0].1 == spec_encode_value(o.value)
            &&& fields@[1].0@ == "id"@ && fields@[1].1 == opt_u32_node(o.id)
        },
        _ => false,
    }
}

/// The shape a variant binding encodes to, its uuid materialized.
pub open spec fn spec_encoded_mv(n: JsonNode, mv: MultivariateFeatureStateValue) -> bool {
    match n {
        JsonNode::Obj(fields) => {
            &&& fields@.len() == 4
            &&& fields@[0].0@ == "multivariate_feature_option"@ && spec_encoded_option(
                fields@[0].1,
                mv.multivariate_feature_option,
            )
            &&& fields@[1].0@ == "percentage_allocation"@ && fields@[1].1 == percent_node(
                mv.percentage_allocation,
            )
            &&& fields@[2].0@ == "id"@ && fields@[2].1 == opt_u32_node(mv.id)
            &&& fields@[3].0@ == "mv_fs_value_uuid"@ && fields@[3].1 == JsonNode::Str(
                mv.mv_fs_value_uuid,
            )
        },
        _ => false,
    }
}

/// The shape a feature state encodes to: every field re-emitted, the base
/// value under the key `feature_state_value`, uuids materialized.
pub open spec fn spec_encoded_fs(n: JsonNode, fs: FeatureState) -> bool {
    match n {
        JsonNode::Obj(fields) => {
            &&& fields@.len() == 6
            &&& fields@[0].0@ == "feature"@ && spec_encoded_feature(fields@[0].1, fs.feature)
            &&& fields@[1].0@ == "enabled"@ && fields@[1].1 == JsonNode::Bool(fs.enabled)
            &&& fields@[2].0@ == "django_id"@ && fields@[2].1 == opt_u32_node(fs.django_id)
            &&& fields@[3].0@ == "featurestate_uuid"@ && fields@[3].1 == JsonNode::Str(
                fs.featurestate_uuid,
            )
            &&& fields@[4].0@ == "multivariate_feature_state_values"@ && match fields@[4].1 {
                JsonNode::Arr(items) => {
                    &&& items@.len() == fs.multivariate_feature_state_values@.len()
                    &&& forall|i: int|
                        0 <= i < items@.len() ==> spec_encoded_mv(
                            #[trigger] items@[i],
                            fs.multivariate_feature_state_values@[i],
                        )
                },
                _ => false,
            }
            &&& fields@[5].0@ == "feature_state_value"@ && fields@[5].1 == spec_encode_value(
                fs.value,
            )
        },
        _ => false,
    }
}

/// Encodes a feature as an object.
pub fn encode_feature(f: &Feature) -> (r: JsonNode)
    ensures
        spec_encoded_feature(r, *f),
{
    let mut fields: Vec<(String, JsonNode)> = Vec::new();
    fields.push((String::from_str("id"), JsonNode::Int(f.id as i64)));
    fields.push((String::from_str("name"), JsonNode::Str(f.name.clone())));
    let tnode = match &f.feature_type {
        Option::Some(t) => JsonNode::Str(t.clone()),
        Option::None => JsonNode::Null,
    };
    fields.push((String::from_str("type"), tnode));
    JsonNode::Obj(fields)
}

/// Encodes a variant option as an object.
pub fn encode_mv_option(o: &MultivariateFeatureOption) -> (r: JsonNode)
    ensures
        spec_encoded_option(r, *o),
{
    let mut fields: Vec<(String, JsonNode)> = Vec::new();
    fields.push((String::from_str("value"), encode_value(&o.value)));
    let idn = match o.id {
        Option::Some(i) => JsonNode::Int(i as i64),
        Option::None => JsonNode::Null,
    };
    fields.push((String::from_str("id"), idn));
    JsonNode::Obj(fields)
}

/// Encodes a variant binding as an object.
pub fn encode_mv(mv: &MultivariateFeatureStateValue) -> (r: JsonNode)
    ensures
        spec_encoded_mv(r, *mv),
{
    let mut fields: Vec<(String, JsonNode)> = Vec::new();
    fields.push(
        (
            String::from_str("multivariate_feature_option"),
            encode_mv_option(&mv.multivariate_feature_option),
        ),
    );
    let pn = if mv.percentage_allocation % 1000 == 0 {
        JsonNode::Int((mv.percentage_allocation / 1000) as i64)
    } else {
        JsonNode::Frac(mv.percentage_allocation as i64)
    };
    fields.push((String::from_str("percentage_allocation"), pn));
    let idn = match mv.id {
        Option::Some(i) => JsonNode::Int(i as i64),
        Option::None => JsonNode::Null,
    };
    fields.push((String::from_str("id"), idn));
    fields.push((String::from_str("mv_fs_value_uuid"), JsonNode::Str(mv.mv_fs_value_uuid.clone())));
    JsonNode::Obj(fields)
}

/// Encodes a feature state as an object, the base value under the key
/// `feature_state_value`.
pub fn encode_feature_state(fs: &FeatureState) -> (r: JsonNode)
    ensures
        spec_encoded_fs(r, *fs),
{
    let mut fields: Vec<(String, JsonNode)> = Vec::new();
    fields.push((String::from_str("feature"), encode_feature(&fs.feature)));
    fields.push((String::from_str("enabled"), JsonNode::Bool(fs.enabled)));
    let djn = match fs.django_id {
        Option::Some(d) => JsonNode::Int(d as i64),
        Option::None => JsonNode::Null,
    };
    fields.push((String::from_str("django_id"), djn));
    fields.push((String::from_str("featurestate_uuid"), JsonNode::Str(fs.featurestate_uuid.clone())));
    let mut items: Vec<JsonNode> = Vec::new();
    let mut k: usize = 0;
    while k < fs.multivariate_feature_state_values.len()
        invariant
            k <= fs.multivariate_feature_state_values@.len(),
            items@.len() == k,
            forall|i: int|
                0 <= i < k ==> spec_encoded_mv(
                    #[trigger] items@[i],
                    fs.multivariate_feature_state_values@[i],
                ),
        decreases fs.multivariate_feature_state_values@.len() - k,
    {
        items.push(encode_mv(&fs.multivariate_feature_state_values[k]));
        k = k + 1;
    }
    fields.push((String::from_str("multivariate_feature_state_values"), JsonNode::Arr(items)));
    fields.push((String::from_str("feature_state_value"), encode_value(&fs.value)));
    JsonNode::Obj(fields)
}

proof fn lemma_lookup_at(fields: Seq<(String, JsonNode)>, key: Seq<char>, j: int)
    requires
        0 <= j < fields.len(),
        forall|k: int| 0 <= k < j ==> (#[trigger] fields[k]).0@ != key,
        fields[j].0@ == key,
    ensures
        spec_lookup(fields, key) == Option::Some(fields[j].1),
    decreases j,
{
    if j > 0 {
        assert forall|k: int| 0 <= k < j - 1 implies (#[trigger] fields.drop_first()[k]).0@ != key by {
            assert(fields.drop_first()[k] == fields[k + 1]);
        }
        assert(fields.drop_first()[j - 1] == fields[j]);
        lemma_lookup_at(fields.drop_first(), key, j - 1);
    }
}

/// The parts decoding recovers from a binding whose uuid is already fixed.
pub open spec fn mv_parts_of(mv: MultivariateFeatureStateValue) -> MvParts {
    (mv.multivariate_feature_option, mv.percentage_allocation, mv.id, Option::Some(
        mv.mv_fs_value_uuid,
    ))
}

/// The parts decoding recovers from a state whose uuids are already fixed.
pub open spec fn fs_parts_of(fs: FeatureState) -> FsParts {
    (
        fs.feature,
        fs.enabled,
        fs.django_id,
        Option::Some(fs.featurestate_uuid),
        fs.multivariate_feature_state_values@.map_values(|mv| mv_parts_of(mv)),
        fs.value,
    )
}

proof fn lemma_feature_round_trip(n: JsonNode, f: Feature)
    requires
        spec_encoded_feature(n, f),
    ensures
        spec_decode_feature(n) == Ok::<Feature, DecodeError>(f),
{
    reveal_strlit("id");
    reveal_strlit("name");
    reveal_strlit("type");
    assert("id"@.len() == 2);
    assert("name"@.len() == 4);
    assert("type"@.len() == 4);
    assert("name"@[0] == 'n' && "type"@[0] == 't');
    match n {
        JsonNode::Obj(fields) => {
            lemma_lookup_at(fields@, "id"@, 0);
            lemma_lookup_at(fields@, "name"@, 1);
            lemma_lookup_at(fields@, "type"@, 2);
        },
        _ => {},
    }
}

proof fn lemma_option_round_trip(n: JsonNode, o: MultivariateFeatureOption)
    requires
        spec_encoded_option(n, o),
    ensures
        spec_decode_mv_option(n) == Ok::<MultivariateFeatureOption, DecodeError>(o),
{
    reveal_strlit("value");
    reveal_strlit("id");
    assert("value"@.len() == 5);
    assert("id"@.len() == 2);
    match n {
        JsonNode::Obj(fields) => {
            lemma_lookup_at(fields@, "value"@, 0);
            lemma_lookup_at(fields@, "id"@, 1);
            lemma_value_round_trip(o.value);
        },
        _ => {},
    }
}

proof fn lemma_mv_round_trip(n: JsonNode, mv: MultivariateFeatureStateValue)
    requires
        spec_encoded_mv(n, mv),
    ensures
        spec_decode_mv(n) == Ok::<MvParts, DecodeError>(mv_parts_of(mv)),
{
    reveal_strlit("multivariate_feature_option");
    reveal_strlit("percentage_allocation");
    reveal_strlit("id");
    reveal_strlit("mv_fs_value_uuid");
    assert("multivariate_feature_option"@.len() == 27);
    assert("percentage_allocation"@.len() == 21);
    assert("id"@.len() == 2);
    assert("mv_fs_value_uuid"@.len() == 16);
    match n {
        JsonNode::Obj(fields) => {
            lemma_lookup_at(fields@, "multivariate_feature_option"@, 0);
            lemma_lookup_at(fields@, "percentage_allocation"@, 1);
            lemma_lookup_at(fields@, "id"@, 2);
            lemma_lookup_at(fields@, "mv_fs_value_uuid"@, 3);
            lemma_option_round_trip(fields@[0].1, mv.multivariate_feature_option);
            let p = mv.percentage_allocation;
            if p % 1000 == 0 {
                assert((p / 1000) * 1000 == p) by {
                    assert(p == (p / 1000) * 1000 + p % 1000) by (nonlinear_arith);
                };
                assert(fits_percent_int((p / 1000) as i64));
            }
        },
        _ => {},
    }
}

proof fn lemma_mvs_round_trip(items: Seq<JsonNode>, mvs: Seq<MultivariateFeatureStateValue>)
    requires
        items.len() == mvs.len(),
        forall|i: int| 0 <= i < items.len() ==> spec_encoded_mv(#[trigger] items[i], mvs[i]),
    ensures
        spec_decode_mvs(items) == Ok::<Seq<MvParts>, DecodeError>(
            mvs.map_values(|mv| mv_parts_of(mv)),
        ),
    decreases items.len(),
{
    if items.len() == 0 {
        assert(mvs.map_values(|mv| mv_parts_of(mv)) =~= Seq::<MvParts>::empty());
    } else {
        assert forall|i: int|
            0 <= i < items.drop_last().len() implies spec_encoded_mv(
            #[trigger] items.drop_last()[i],
            mvs.drop_last()[i],
        ) by {
            assert(items.drop_last()[i] == items[i]);
            assert(mvs.drop_last()[i] == mvs[i]);
        }
        lemma_mvs_round_trip(items.drop_last(), mvs.drop_last());
        lemma_mv_round_trip(items.last(), mvs.last());
        assert(mvs.map_values(|mv| mv_parts_of(mv)) =~= mvs.drop_last().map_values(
            |mv| mv_parts_of(mv),
        ).push(mv_parts_of(mvs.last())));
    }
}

/// Whether two states hold the same entities, field for field.
pub open spec fn fs_equiv(a: FeatureState, b: FeatureState) -> bool {
    &&& a.feature == b.feature
    &&& a.enabled == b.enabled
    &&& a.django_id == b.django_id
    &&& a.featurestate_uuid == b.featurestate_uuid
    &&& a.multivariate_feature_state_values@ == b.multivariate_feature_state_values@
    &&& a.value == b.value
}

/// Law: round-trip stability. Once its uuids are fixed, a feature state that
/// is encoded and decoded again parses without error to exactly its own
/// parts, and any state built from those parts is the original state.
pub proof fn lemma_feature_state_round_trip(n: JsonNode, fs: FeatureState)
    requires
        spec_encoded_fs(n, fs),
    ensures
        spec_decode_fs(n) == Ok::<FsParts, DecodeError>(fs_parts_of(fs)),
        forall|fs2: FeatureState| fs_matches(fs_parts_of(fs), fs2) ==> fs_equiv(fs2, fs),
{
    reveal_strlit("feature");
    reveal_strlit("enabled");
    reveal_strlit("django_id");
    reveal_strlit("featurestate_uuid");
    reveal_strlit("multivariate_feature_state_values");
    reveal_strlit("feature_state_value");
    assert("feature"@.len() == 7);
    assert("enabled"@.len() == 7);
    assert("django_id"@.len() == 9);
    assert("featurestate_uuid"@.len() == 17);
    assert("multivariate_feature_state_values"@.len() == 33);
    assert("feature_state_value"@.len() == 19);
    assert("feature"@[0] == 'f' && "enabled"@[0] == 'e');
    match n {
        JsonNode::Obj(fields) => {
            lemma_lookup_at(fields@, "feature"@, 0);
            lemma_lookup_at(fields@, "enabled"@, 1);
            lemma_lookup_at(fields@, "django_id"@, 2);
            lemma_lookup_at(fields@, "featurestate_uuid"@, 3);
            lemma_lookup_at(fields@, "multivariate_feature_state_values"@, 4);
            lemma_lookup_at(fields@, "feature_state_value"@, 5);
            lemma_feature_round_trip(fields@[0].1, fs.feature);
            match fields@[4].1 {
                JsonNode::Arr(items) => {
                    lemma_mvs_round_trip(items@, fs.multivariate_feature_state_values@);
                },
                _ => {},
            }
            lemma_value_round_trip(fs.value);
        },
        _ => {},
    }
    assert forall|fs2: FeatureState| fs_matches(fs_parts_of(fs), fs2) implies fs_equiv(fs2, fs) by {
        let parts = fs_parts_of(fs);
        assert forall|i: int|
            0 <= i < fs.multivariate_feature_state_values@.len() implies #[trigger] fs2.multivariate_feature_state_values@[i]
            == fs.multivariate_feature_state_values@[i] by {
            assert(mv_matches(parts.4[i], fs2.multivariate_feature_state_values@[i]));
            assert(parts.4[i] == mv_parts_of(fs.multivariate_feature_state_values@[i]));
        }
        assert(fs2.multivariate_feature_state_values@
            =~= fs.multivariate_feature_state_values@);
    }
}

} // verus!
