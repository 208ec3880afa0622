//! Feature entities and the resolution engine: given one evaluable state of a
//! flag and an optional requester, pick the dynamic value to serve. With no
//! requester or no variants the base value is served; otherwise the requester
//! is bucketed into the ordered variants by a hashed percentage, falling back
//! to the base value when no range matches.

use vstd::prelude::*;
use crate::strings::{
    dec_chars, lex_le, lemma_lex_le_total, lemma_lex_le_trans, str_lex_le, u32_to_string,
};
use crate::value::FlagsmithValue;

verus! {

/// A named flag definition.
#[derive(Debug, Clone, PartialEq, Eq, Hash)]
pub struct Feature {
    pub id: u32,
    pub name: String,
    pub feature_type: Option<String>,
}

impl Feature {
    pub fn new(id: u32, name: String, feature_type: Option<String>) -> (r: Feature)
        ensures
            r == (Feature { id, name, feature_type }),
    {
        Feature { id, name, feature_type }
    }
}

/// One selectable variant value, with its persisted id if it has one.
#[derive(Debug, Clone, PartialEq)]
pub struct MultivariateFeatureOption {
    pub value: FlagsmithValue,
    pub id: Option<u32>,
}

impl MultivariateFeatureOption {
    pub fn new(value: FlagsmithValue, id: Option<u32>) -> (r: MultivariateFeatureOption)
        ensures
            r == (MultivariateFeatureOption { value, id }),
    {
        MultivariateFeatureOption { value, id }
    }

    /// A copy that is known to hold the same option.
    pub fn duplicate(&self) -> (r: MultivariateFeatureOption)
        ensures
            r == *self,
    {
        MultivariateFeatureOption { value: self.value.duplicate(), id: self.id }
    }
}

/// Binds one variant to its weight within a feature state. The weight is in
/// thousandths of a percent: an allocation of 30% is 30_000.
#[derive(Debug, Clone, PartialEq)]
pub struct MultivariateFeatureStateValue {
    pub multivariate_feature_option: MultivariateFeatureOption,
    pub percentage_allocation: u32,
    pub id: Option<u32>,
    pub mv_fs_value_uuid: String,
}

impl MultivariateFeatureStateValue {
    pub fn new(
        multivariate_feature_option: MultivariateFeatureOption,
        percentage_allocation: u32,
        id: Option<u32>,
        mv_fs_value_uuid: String,
    ) -> (r: MultivariateFeatureStateValue)
        ensures
            r == (MultivariateFeatureStateValue {
                multivariate_feature_option,
                percentage_allocation,
                id,
                mv_fs_value_uuid,
            }),
    {
        MultivariateFeatureStateValue {
            multivariate_feature_option,
            percentage_allocation,
            id,
            mv_fs_value_uuid,
        }
    }

    /// A copy that is known to hold the same binding.
    pub fn duplicate(&self) -> (r: MultivariateFeatureStateValue)
        ensures
            r == *self,
    {
        MultivariateFeatureStateValue {
            multivariate_feature_option: self.multivariate_feature_option.duplicate(),
            percentage_allocation: self.percentage_allocation,
            id: self.id,
            mv_fs_value_uuid: self.mv_fs_value_uuid.clone(),
        }
    }
}

/// One evaluable state of a feature.
#[derive(Debug, Clone, PartialEq)]
pub struct FeatureState {
    pub feature: Feature,
    pub enabled: bool,
    pub django_id: Option<u32>,
    pub featurestate_uuid: String,
    pub multivariate_feature_state_values: Vec<MultivariateFeatureStateValue>,
    pub value: FlagsmithValue,
}

/// The key a variant binding is ordered by: its persisted id rendered as
/// decimal text when it has one, else its uuid. The comparison is lexical on
/// the text even for ids, so the ordering is stable across evaluators that
/// share the flag data.
pub open spec fn mv_sort_key(mv: MultivariateFeatureStateValue) -> Seq<char> {
    match mv.id {
        Option::Some(i) => dec_chars(i as nat),
        Option::None => mv.mv_fs_value_uuid@,
    }
}

/// The ordering key of one binding, as text.
pub fn mv_key_string(mv: &MultivariateFeatureStateValue) -> (r: String)
    ensures
        r@ == mv_sort_key(*mv),
{
    match mv.id {
        Option::Some(i) => u32_to_string(i),
        Option::None => mv.mv_fs_value_uuid.clone(),
    }
}

/// Whether a run of bindings is in ascending key order.
pub open spec fn sorted_by_mv_key(s: Seq<MultivariateFeatureStateValue>) -> bool {
    forall|i: int, j: int|
        0 <= i <= j < s.len() ==> lex_le(mv_sort_key(#[trigger] s[i]), mv_sort_key(#[trigger] s[j]))
}

/// Inserts a binding into an ordered run, after every binding whose key is
/// no greater, so that bindings with equal keys keep their original order.
pub open spec fn spec_insert_mv(
    x: MultivariateFeatureStateValue,
    s: Seq<MultivariateFeatureStateValue>,
) -> Seq<MultivariateFeatureStateValue>
    decreases s.len(),
{
    if s.len() == 0 {
        seq![x]
    } else if lex_le(mv_sort_key(s.last()), mv_sort_key(x)) {
        s.push(x)
    } else {
        spec_insert_mv(x, s.drop_last()).push(s.last())
    }
}

/// The stable ordering of the variant bindings: ascending by key, equal keys
/// in their stored order.
pub open spec fn spec_sort_mvs(s: Seq<MultivariateFeatureStateValue>) -> Seq<
    MultivariateFeatureStateValue,
>
    decreases s.len(),
{
    if s.len() == 0 {
        s
    } else {
        spec_insert_mv(s.last(), spec_sort_mvs(s.drop_last()))
    }
}

proof fn lemma_insert_mv_elements(x: MultivariateFeatureStateValue, s: Seq<
    MultivariateFeatureStateValue,
>)
    ensures
        spec_insert_mv(x, s).len() == s.len() + 1,
        forall|k: int|
            0 <= k < spec_insert_mv(x, s).len() ==> #[trigger] spec_insert_mv(x, s)[k] == x
                || s.contains(spec_insert_mv(x, s)[k]),
    decreases s.len(),
{
    if s.len() != 0 && !lex_le(mv_sort_key(s.last()), mv_sort_key(x)) {
        lemma_insert_mv_elements(x, s.drop_last());
        assert forall|k: int| 0 <= k < spec_insert_mv(x, s).len() implies #[trigger] spec_insert_mv(
            x,
            s,
        )[k] == x || s.contains(spec_insert_mv(x, s)[k]) by {
            if k < spec_insert_mv(x, s).len() - 1 {
                if spec_insert_mv(x, s.drop_last()).contains(spec_insert_mv(x, s)[k]) {
                    assert(spec_insert_mv(x, s)[k] == spec_insert_mv(x, s.drop_last())[k]);
                    if s.drop_last().contains(spec_insert_mv(x, s)[k]) {
                        let idx = choose|idx: int|
                            0 <= idx < s.drop_last().len() && s.drop_last()[idx]
                                == spec_insert_mv(x, s)[k];
                        assert(s[idx] == spec_insert_mv(x, s)[k]);
                    }
                }
            } else {
                assert(spec_insert_mv(x, s)[k] == s.last());
                assert(s[s.len() - 1] == s.last());
            }
        }
    }
}

proof fn lemma_insert_mv_sorted(x: MultivariateFeatureStateValue, s: Seq<
    MultivariateFeatureStateValue,
>)
    requires
        sorted_by_mv_key(s),
    ensures
        sorted_by_mv_key(spec_insert_mv(x, s)),
    decreases s.len(),
{
    lemma_insert_mv_elements(x, s);
    if s.len() == 0 {
        lemma_lex_le_total(mv_sort_key(x), mv_sort_key(x));
    } else if lex_le(mv_sort_key(s.last()), mv_sort_key(x)) {
        assert forall|i: int, j: int| 0 <= i <= j < s.push(x).len() implies lex_le(
            mv_sort_key(#[trigger] s.push(x)[i]),
            mv_sort_key(#[trigger] s.push(x)[j]),
        ) by {
            if j < s.len() {
            } else if i < s.len() {
                lemma_lex_le_trans(mv_sort_key(s[i]), mv_sort_key(s.last()), mv_sort_key(x));
            } else {
                lemma_lex_le_total(mv_sort_key(x), mv_sort_key(x));
            }
        }
    } else {
        assert forall|i: int, j: int|
            0 <= i <= j < s.drop_last().len() implies lex_le(
            mv_sort_key(#[trigger] s.drop_last()[i]),
            mv_sort_key(#[trigger] s.drop_last()[j]),
        ) by {
            assert(s.drop_last()[i] == s[i]);
            assert(s.drop_last()[j] == s[j]);
        }
        lemma_insert_mv_sorted(x, s.drop_last());
        lemma_insert_mv_elements(x, s.drop_last());
        let t = spec_insert_mv(x, s.drop_last()).push(s.last());
        assert forall|i: int, j: int| 0 <= i <= j < t.len() implies lex_le(
            mv_sort_key(#[trigger] t[i]),
            mv_sort_key(#[trigger] t[j]),
        ) by {
            if j < t.len() - 1 {
            } else if i < t.len() - 1 {
                let e = spec_insert_mv(x, s.drop_last())[i];
                assert(t[i] == e);
                if e == x {
                    lemma_lex_le_total(mv_sort_key(s.last()), mv_sort_key(x));
                } else {
                    let idx = choose|idx: int|
                        0 <= idx < s.drop_last().len() && s.drop_last()[idx] == e;
                    assert(s[idx] == e);
                    assert(lex_le(mv_sort_key(s[idx]), mv_sort_key(s[s.len() - 1])));
                }
            } else {
                lemma_lex_le_total(mv_sort_key(s.last()), mv_sort_key(s.last()));
            }
        }
    }
}

/// Law: the stable ordering is in ascending key order.
pub proof fn lemma_sort_mvs_sorted(s: Seq<MultivariateFeatureStateValue>)
    ensures
        sorted_by_mv_key(spec_sort_mvs(s)),
    decreases s.len(),
{
    if s.len() != 0 {
        lemma_sort_mvs_sorted(s.drop_last());
        lemma_insert_mv_sorted(s.last(), spec_sort_mvs(s.drop_last()));
    }
}

proof fn lemma_insert_mv_at(
    x: MultivariateFeatureStateValue,
    s: Seq<MultivariateFeatureStateValue>,
    j: int,
)
    requires
        0 <= j <= s.len(),
        sorted_by_mv_key(s),
        forall|k: int| 0 <= k < j ==> lex_le(mv_sort_key(#[trigger] s[k]), mv_sort_key(x)),
        j < s.len() ==> !lex_le(mv_sort_key(s[j]), mv_sort_key(x)),
    ensures
        spec_insert_mv(x, s) =~= s.insert(j, x),
    decreases s.len(),
{
    if s.len() == 0 {
        assert(spec_insert_mv(x, s) =~= s.insert(0, x));
    } else if j == s.len() {
        assert(lex_le(mv_sort_key(s[s.len() - 1]), mv_sort_key(x)));
        assert(spec_insert_mv(x, s) == s.push(x));
        assert(s.push(x) =~= s.insert(j, x));
    } else {
        if j < s.len() - 1 {
            assert(lex_le(mv_sort_key(s[j]), mv_sort_key(s[s.len() - 1])));
            if lex_le(mv_sort_key(s.last()), mv_sort_key(x)) {
                lemma_lex_le_trans(mv_sort_key(s[j]), mv_sort_key(s.last()), mv_sort_key(x));
            }
        }
        assert(!lex_le(mv_sort_key(s.last()), mv_sort_key(x)));
        assert forall|i1: int, j1: int|
            0 <= i1 <= j1 < s.drop_last().len() implies lex_le(
            mv_sort_key(#[trigger] s.drop_last()[i1]),
            mv_sort_key(#[trigger] s.drop_last()[j1]),
        ) by {
            assert(s.drop_last()[i1] == s[i1]);
            assert(s.drop_last()[j1] == s[j1]);
        }
        assert(j < s.drop_last().len() ==> s.drop_last()[j] == s[j]);
        assert(forall|k: int|
            0 <= k < j ==> lex_le(mv_sort_key(#[trigger] s.drop_last()[k]), mv_sort_key(x)));
        lemma_insert_mv_at(x, s.drop_last(), j);
        assert(spec_insert_mv(x, s) == spec_insert_mv(x, s.drop_last()).push(s.last()));
        assert(spec_insert_mv(x, s.drop_last()) =~= s.drop_last().insert(j, x));
        assert(s.drop_last().insert(j, x).push(s.last()) =~= s.insert(j, x));
    }
}

/// The stable ordering of the variant bindings, as the engine computes it:
/// a sorted copy; the stored list is never altered.
pub fn sorted_mvs(src: &Vec<MultivariateFeatureStateValue>) -> (r: Vec<
    MultivariateFeatureStateValue,
>)
    ensures
        r@ == spec_sort_mvs(src@),
{
    let mut out: Vec<MultivariateFeatureStateValue> = Vec::new();
    proof {
        assert(src@.take(0) =~= Seq::<MultivariateFeatureStateValue>::empty());
    }
    let mut i: usize = 0;
    while i < src.len()
        invariant
            i <= src@.len(),
            out@ == spec_sort_mvs(src@.take(i as int)),
        decreases src@.len() - i,
    {
        let x = src[i].duplicate();
        let key_x = mv_key_string(&x);
        let mut j: usize = 0;
        let mut scanning = true;
        while scanning && j < out.len()
            invariant
                j <= out@.len(),
                out@ == spec_sort_mvs(src@.take(i as int)),
                key_x@ == mv_sort_key(x),
                forall|k: int| 0 <= k < j ==> lex_le(mv_sort_key(#[trigger] out@[k]), mv_sort_key(x)),
                !scanning ==> j < out@.len() && !lex_le(mv_sort_key(out@[j as int]), mv_sort_key(x)),
            decreases out@.len() - j + (if scanning { 1int } else { 0int }),
        {
            let kj = mv_key_string(&out[j]);
            if str_lex_le(kj.as_str(), key_x.as_str()) {
                j = j + 1;
            } else {
                scanning = false;
            }
        }
        proof {
            lemma_sort_mvs_sorted(src@.take(i as int));
            lemma_insert_mv_at(x, out@, j as int);
            assert(src@.take(i as int + 1).drop_last() =~= src@.take(i as int));
            assert(src@.take(i as int + 1).last() == src@[i as int]);
        }
        out.insert(j, x);
        i = i + 1;
    }
    proof {
        assert(src@.take(src@.len() as int) =~= src@);
    }
    out
}

/// Which variant a hashed percentage lands on: walking the bindings in order,
/// each owns the range `[start, start + allocation)`; the first range that
/// contains the hashed percentage wins, and `None` means no range matched.
pub open spec fn spec_select(
    vals: Seq<MultivariateFeatureStateValue>,
    hashed: int,
    start: int,
) -> Option<FlagsmithValue>
    decreases vals.len(),
{
    if vals.len() == 0 {
        Option::None
    } else if start <= hashed < start + vals[0].percentage_allocation {
        Option::Some(vals[0].multivariate_feature_option.value)
    } else {
        spec_select(vals.drop_first(), hashed, start + vals[0].percentage_allocation)
    }
}

/// Law: once the running start has passed the hashed percentage, no later
/// range can match, since allocations are never negative.
pub proof fn lemma_select_none_past(
    vals: Seq<MultivariateFeatureStateValue>,
    hashed: int,
    start: int,
)
    requires
        start > hashed,
    ensures
        spec_select(vals, hashed, start) is None,
    decreases vals.len(),
{
    if vals.len() != 0 {
        lemma_select_none_past(vals.drop_first(), hashed, start + vals[0].percentage_allocation);
    }
}

/// What resolution returns: the base value when no requester identity is
/// given or the state has no variants, else the variant the hashed
/// percentage buckets into, with the base value as the fallback when no
/// range matches.
pub open spec fn spec_get_value(fs: FeatureState, has_identity: bool, hashed: int) -> FlagsmithValue {
    if !has_identity || fs.multivariate_feature_state_values@.len() == 0 {
        fs.value
    } else {
        match spec_select(spec_sort_mvs(fs.multivariate_feature_state_values@), hashed, 0) {
            Option::Some(v) => v,
            Option::None => fs.value,
        }
    }
}

/// The text that identifies this state for bucketing: the persisted id in
/// decimal if there is one, else the state's uuid.
pub open spec fn spec_object_id(fs: FeatureState) -> Seq<char> {
    match fs.django_id {
        Option::Some(d) => dec_chars(d as nat),
        Option::None => fs.featurestate_uuid@,
    }
}

impl FeatureState {
    pub fn new(
        feature: Feature,
        enabled: bool,
        django_id: Option<u32>,
        featurestate_uuid: String,
        multivariate_feature_state_values: Vec<MultivariateFeatureStateValue>,
        value: FlagsmithValue,
    ) -> (r: FeatureState)
        ensures
            r == (FeatureState {
                feature,
                enabled,
                django_id,
                featurestate_uuid,
                multivariate_feature_state_values,
                value,
            }),
    {
        FeatureState {
            feature,
            enabled,
            django_id,
            featurestate_uuid,
            multivariate_feature_state_values,
            value,
        }
    }

    /// The identifier hashed together with the requester's identity. The
    /// persisted id is preferred so that bucketing does not depend on
    /// transient in-memory state.
    pub fn object_id(&self) -> (r: String)
        ensures
            r@ == spec_object_id(*self),
    {
        match self.django_id {
            Option::Some(d) => u32_to_string(d),
            Option::None => self.featurestate_uuid.clone(),
        }
    }

    /// The value to serve. `hashed_permille` is the deterministic hash of
    /// this state's object id together with the requester's identity, in
    /// thousandths of a percent; it is consulted only when an identity is
    /// given and the state has variants.
    pub fn get_value(&self, identity_id: Option<&str>, hashed_permille: u32) -> (r: FlagsmithValue)
        ensures
            r == spec_get_value(*self, identity_id is Some, hashed_permille as int),
    {
        if identity_id.is_some() && self.multivariate_feature_state_values.len() > 0 {
            self.get_multivariate_value(hashed_permille)
        } else {
            self.value.duplicate()
        }
    }

    /// Buckets a hashed percentage into the stable ordering of the variants,
    /// serving the base value when no range matches.
    fn get_multivariate_value(&self, hashed_permille: u32) -> (r: FlagsmithValue)
        ensures
            r == match spec_select(
                spec_sort_mvs(self.multivariate_feature_state_values@),
                hashed_permille as int,
                0,
            ) {
                Option::Some(v) => v,
                Option::None => self.value,
            },
    {
        let sorted = sorted_mvs(&self.multivariate_feature_state_values);
        let ghost full = sorted@;
        let mut start: u64 = 0;
        let mut idx: usize = 0;
        proof {
            assert(full.skip(0) =~= full);
        }
        while idx < sorted.len()
            invariant
                idx <= full.len(),
                sorted@ == full,
                full == spec_sort_mvs(self.multivariate_feature_state_values@),
                spec_select(full, hashed_permille as int, 0) == spec_select(
                    full.skip(idx as int),
                    hashed_permille as int,
                    start as int,
                ),
            decreases full.len() - idx,
        {
            proof {
                assert(full.skip(idx as int)[0] == full[idx as int]);
                assert(full.skip(idx as int).drop_first() =~= full.skip(idx as int + 1));
            }
            if start > hashed_permille as u64 {
                proof {
                    lemma_select_none_past(
                        full.skip(idx as int),
                        hashed_permille as int,
                        start as int,
                    );
                }
                return self.value.duplicate();
            }
            let alloc = sorted[idx].percentage_allocation as u64;
            let limit = start + alloc;
            if (hashed_permille as u64) < limit {
                return sorted[idx].multivariate_feature_option.value.duplicate();
            }
            start = limit;
            idx = idx + 1;
        }
        proof {
            assert(full.skip(idx as int) =~= Seq::<MultivariateFeatureStateValue>::empty());
        }
        self.value.duplicate()
    }
}

/// Law: boundary bucketing over two ordered variants. The first owns exactly
/// the range `[0, a)` for its allocation `a`, the second exactly `[a, a + b)`:
/// a hashed percentage on the boundary `a` already belongs to the second.
pub proof fn lemma_two_option_bucketing(vals: Seq<MultivariateFeatureStateValue>, hashed: int)
    requires
        vals.len() == 2,
    ensures
        0 <= hashed < vals[0].percentage_allocation ==> spec_select(vals, hashed, 0)
            == Option::Some(vals[0].multivariate_feature_option.value),
        vals[0].percentage_allocation <= hashed < vals[0].percentage_allocation
            + vals[1].percentage_allocation ==> spec_select(vals, hashed, 0) == Option::Some(
            vals[1].multivariate_feature_option.value,
        ),
        hashed >= vals[0].percentage_allocation + vals[1].percentage_allocation ==> spec_select(
            vals,
            hashed,
            0,
        ) is None,
{
    reveal_with_fuel(spec_select, 3);
    assert(vals.drop_first()[0] == vals[1]);
    assert(vals.drop_first().drop_first().len() == 0);
}

/// Law: resolution is deterministic — for one state, one presence of an
/// identity and one hashed percentage, any two results are the same value.
pub proof fn lemma_resolution_deterministic(
    fs: FeatureState,
    has_identity: bool,
    hashed: int,
    r1: FlagsmithValue,
    r2: FlagsmithValue,
)
    requires
        r1 == spec_get_value(fs, has_identity, hashed),
        r2 == spec_get_value(fs, has_identity, hashed),
    ensures
        r1 == r2,
{
}

/// Law: with no requester identity, or with no variants, resolution serves
/// the base value.
pub proof fn lemma_control_value_paths(fs: FeatureState, hashed: int)
    ensures
        spec_get_value(fs, false, hashed) == fs.value,
        fs.multivariate_feature_state_values@.len() == 0 ==> spec_get_value(fs, true, hashed)
            == fs.value,
{
}

} // verus!
