use flag_engine::features::{
    Feature, FeatureState, MultivariateFeatureOption, MultivariateFeatureStateValue,
};
use flag_engine::value::FlagsmithValue;

fn base_feature() -> Feature {
    Feature::new(1, "feature1".to_string(), None)
}

fn mv(
    value: FlagsmithValue,
    permille: u32,
    id: Option<u32>,
    uuid: &str,
) -> MultivariateFeatureStateValue {
    MultivariateFeatureStateValue::new(
        MultivariateFeatureOption::new(value, id),
        permille,
        id,
        uuid.to_string(),
    )
}

fn simple_state() -> FeatureState {
    FeatureState::new(
        base_feature(),
        false,
        Some(1),
        "a6ff815f-63ed-4e72-99dc-9124c442ce4d".to_string(),
        vec![],
        FlagsmithValue::Integer(1),
    )
}

#[test]
fn no_variants_returns_base_value_for_identity() {
    let state = simple_state();
    assert_eq!(
        state.get_value(Some("identity-1"), 0),
        FlagsmithValue::Integer(1)
    );
}

#[test]
fn no_identity_returns_base_value() {
    let state = two_option_state();
    assert_eq!(state.get_value(None, 0), FlagsmithValue::Integer(1));
    let empty = simple_state();
    assert_eq!(empty.get_value(Some("id"), 55_000), FlagsmithValue::Integer(1));
}

#[test]
fn resolution_is_deterministic() {
    let state = two_option_state();
    let first = state.get_value(Some("identity-1"), 42_000);
    for _ in 0..5 {
        assert_eq!(state.get_value(Some("identity-1"), 42_000), first);
    }
}

fn two_option_state() -> FeatureState {
    // Two options with allocations 30% and 70%, in fixed sorted order.
    FeatureState::new(
        base_feature(),
        true,
        Some(1),
        "a6ff815f-63ed-4e72-99dc-9124c442ce4d".to_string(),
        vec![
            mv(FlagsmithValue::Text("first".to_string()), 30_000, Some(1), "u-1"),
            mv(FlagsmithValue::Text("second".to_string()), 70_000, Some(2), "u-2"),
        ],
        FlagsmithValue::Integer(1),
    )
}

#[test]
fn boundary_bucketing() {
    let state = two_option_state();
    let first = FlagsmithValue::Text("first".to_string());
    let second = FlagsmithValue::Text("second".to_string());
    // hashed 0 and 29.999 land in [0, 30); 30 and 99.999 land in [30, 100).
    assert_eq!(state.get_value(Some("id"), 0), first);
    assert_eq!(state.get_value(Some("id"), 29_999), first);
    assert_eq!(state.get_value(Some("id"), 30_000), second);
    assert_eq!(state.get_value(Some("id"), 99_999), second);
}

#[test]
fn variants_sort_lexically_by_id_text() {
    // Ids 2, 10 and 9 order as "10" < "2" < "9" when compared as text.
    let state = FeatureState::new(
        base_feature(),
        true,
        Some(1),
        "a6ff815f-63ed-4e72-99dc-9124c442ce4d".to_string(),
        vec![
            mv(FlagsmithValue::Text("two".to_string()), 10_000, Some(2), "u-2"),
            mv(FlagsmithValue::Text("ten".to_string()), 10_000, Some(10), "u-10"),
            mv(FlagsmithValue::Text("nine".to_string()), 10_000, Some(9), "u-9"),
        ],
        FlagsmithValue::Integer(1),
    );
    assert_eq!(
        state.get_value(Some("id"), 5_000),
        FlagsmithValue::Text("ten".to_string())
    );
    assert_eq!(
        state.get_value(Some("id"), 15_000),
        FlagsmithValue::Text("two".to_string())
    );
    assert_eq!(
        state.get_value(Some("id"), 25_000),
        FlagsmithValue::Text("nine".to_string())
    );
}

#[test]
fn variant_without_id_sorts_by_its_uuid() {
    // The saved variant's key is "50"; the unsaved one's key is its uuid,
    // "3f...", which comes first lexically.
    let state = FeatureState::new(
        base_feature(),
        true,
        Some(1),
        "a6ff815f-63ed-4e72-99dc-9124c442ce4d".to_string(),
        vec![
            mv(FlagsmithValue::Text("saved".to_string()), 10_000, Some(50), "u-50"),
            mv(
                FlagsmithValue::Text("unsaved".to_string()),
                10_000,
                None,
                "3f2a9e1c-0000-0000-0000-000000000000",
            ),
        ],
        FlagsmithValue::Integer(1),
    );
    assert_eq!(
        state.get_value(Some("id"), 5_000),
        FlagsmithValue::Text("unsaved".to_string())
    );
    assert_eq!(
        state.get_value(Some("id"), 15_000),
        FlagsmithValue::Text("saved".to_string())
    );
}

#[test]
fn unmatched_percentage_falls_back_to_base_value() {
    // Allocations cover only [0, 30): anything above serves the control value.
    let state = FeatureState::new(
        base_feature(),
        true,
        None,
        "a6ff815f-63ed-4e72-99dc-9124c442ce4d".to_string(),
        vec![mv(FlagsmithValue::Text("first".to_string()), 30_000, Some(1), "u-1")],
        FlagsmithValue::Integer(1),
    );
    assert_eq!(state.get_value(Some("id"), 30_000), FlagsmithValue::Integer(1));
    assert_eq!(state.get_value(Some("id"), 99_999), FlagsmithValue::Integer(1));
}

#[test]
fn object_id_prefers_persisted_id() {
    let state = simple_state();
    assert_eq!(state.object_id(), "1".to_string());
    let unsaved = FeatureState::new(
        base_feature(),
        false,
        None,
        "a6ff815f-63ed-4e72-99dc-9124c442ce4d".to_string(),
        vec![],
        FlagsmithValue::Null,
    );
    assert_eq!(
        unsaved.object_id(),
        "a6ff815f-63ed-4e72-99dc-9124c442ce4d".to_string()
    );
}

#[test]
fn object_id_renders_larger_ids_in_decimal() {
    let state = FeatureState::new(
        base_feature(),
        false,
        Some(4294967295),
        "u".to_string(),
        vec![],
        FlagsmithValue::Null,
    );
    assert_eq!(state.object_id(), "4294967295".to_string());
}
