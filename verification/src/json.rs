//! A scalar-faithful model of configuration payloads: the tree a JSON
//! document denotes, with integer-valued numbers kept apart from fractional
//! ones so that every number the engine interprets is held exactly.

use vstd::prelude::*;
use vstd::string::StringExecFns;

verus! {

/// One node of a configuration payload. A number that denotes an integer is
/// `Int`; a number with a fractional part is `Frac(m)`, the value `m / 1000`
/// held in thousandths. An object keeps its fields in document order.
#[derive(Debug, PartialEq)]
pub enum JsonNode {
    Null,
    Bool(bool),
    Int(i64),
    Frac(i64),
    Str(String),
    Arr(Vec<JsonNode>),
    Obj(Vec<(String, JsonNode)>),
}

/// The shape of a node, named so that decode errors can report what was found.
#[derive(Debug, Clone, Copy, PartialEq, Eq, Structural)]
pub enum NodeKind {
    NullKind,
    BoolKind,
    IntKind,
    FracKind,
    StrKind,
    ArrKind,
    ObjKind,
}

pub open spec fn kind_of(n: JsonNode) -> NodeKind {
    match n {
        JsonNode::Null => NodeKind::NullKind,
        JsonNode::Bool(_) => NodeKind::BoolKind,
        JsonNode::Int(_) => NodeKind::IntKind,
        JsonNode::Frac(_) => NodeKind::FracKind,
        JsonNode::Str(_) => NodeKind::StrKind,
        JsonNode::Arr(_) => NodeKind::ArrKind,
        JsonNode::Obj(_) => NodeKind::ObjKind,
    }
}

impl JsonNode {
    /// The shape of this node.
    pub fn kind(&self) -> (k: NodeKind)
        ensures
            k == kind_of(*self),
    {
        match self {
            JsonNode::Null => NodeKind::NullKind,
            JsonNode::Bool(_) => NodeKind::BoolKind,
            JsonNode::Int(_) => NodeKind::IntKind,
            JsonNode::Frac(_) => NodeKind::FracKind,
            JsonNode::Str(_) => NodeKind::StrKind,
            JsonNode::Arr(_) => NodeKind::ArrKind,
            JsonNode::Obj(_) => NodeKind::ObjKind,
        }
    }
}

/// The value of the first field named `key`, if any.
pub open spec fn spec_lookup(fields: Seq<(String, JsonNode)>, key: Seq<char>) -> Option<JsonNode>
    decreases fields.len(),
{
    if fields.len() == 0 {
        Option::None
    } else if fields[0].0@ == key {
        Option::Some(fields[0].1)
    } else {
        spec_lookup(fields.drop_first(), key)
    }
}

/// Whether two in-memory strings hold the same characters.
pub fn string_eq_str(a: &String, b: &str) -> (r: bool)
    ensures
        r == (a@ == b@),
{
    let bs = String::from_str(b);
    *a == bs
}

/// Finds the first field named `key` in an object's field list.
pub fn lookup_field<'a>(fields: &'a Vec<(String, JsonNode)>, key: &str) -> (r: Option<
    &'a JsonNode,
>)
    ensures
        match r {
            Option::Some(n) => spec_lookup(fields@, key@) == Option::Some(*n),
            Option::None => spec_lookup(fields@, key@) is None,
        },
{
    let mut i: usize = 0;
    proof {
        assert(fields@.skip(0) =~= fields@);
    }
    while i < fields.len()
        invariant
            i <= fields@.len(),
            spec_lookup(fields@, key@) == spec_lookup(fields@.skip(i as int), key@),
        decreases fields@.len() - i,
    {
        proof {
            assert(fields@.skip(i as int)[0] == fields@[i as int]);
            assert(fields@.skip(i as int).drop_first() =~= fields@.skip(i as int + 1));
        }
        if string_eq_str(&fields[i].0, key) {
            return Option::Some(&fields[i].1);
        }
        i = i + 1;
    }
    proof {
        assert(fields@.skip(i as int) =~= Seq::<(String, JsonNode)>::empty());
    }
    Option::None
}

} // verus!
