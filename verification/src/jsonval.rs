use vstd::prelude::*;
use crate::ast::strs_view;

verus! {

/// The shape of a text read as JSON, as far as indexing needs it: not
/// JSON at all, a scalar, or a container whose members are already
/// rendered to their dynamic-value string form (a JSON string member
/// unquoted, every other member as compact JSON).
pub enum JsonShape {
    Invalid,
    Scalar,
    Array(Vec<String>),
    Object(Vec<(String, String)>),
}

/// The mathematical model of a `JsonShape`.
pub enum JShapeV {
    Invalid,
    Scalar,
    Array(Seq<Seq<char>>),
    Object(Seq<(Seq<char>, Seq<char>)>),
}

impl View for JsonShape {
    type V = JShapeV;

    open spec fn view(&self) -> JShapeV {
        match self {
            JsonShape::Invalid => JShapeV::Invalid,
            JsonShape::Scalar => JShapeV::Scalar,
            JsonShape::Array(items) => JShapeV::Array(strs_view(items@)),
            JsonShape::Object(members) => JShapeV::Object(
                members@.map_values(|p: (String, String)| (p.0@, p.1@)),
            ),
        }
    }
}

/// What the text parses to as JSON, member renderings included.
pub uninterp spec fn json_shape(s: Seq<char>) -> JShapeV;

/// Relies on serde_json::from_str and the Display rendering of
/// serde_json::Value: a parse failure, a scalar, or the members of the
/// parsed array or object, each member rendered unquoted when it is a
/// JSON string and as compact JSON otherwise.
#[verifier::external_body]
pub(crate) fn exec_json_shape(s: &str) -> (r: JsonShape)
    ensures
        r@ == json_shape(s@),
{
    let render = |v: &serde_json::Value| match v.as_str() {
        Some(t) => t.to_string(),
        None => v.to_string(),
    };
    match serde_json::from_str::<serde_json::Value>(s) {
        Err(_) => JsonShape::Invalid,
        Ok(serde_json::Value::Array(items)) => JsonShape::Array(items.iter().map(render).collect()),
        Ok(serde_json::Value::Object(members)) => JsonShape::Object(
            members.iter().map(|(k, v)| (k.clone(), render(v))).collect(),
        ),
        Ok(_) => JsonShape::Scalar,
    }
}

/// The first member bound to the key, scanning left to right.
pub open spec fn spec_assoc(members: Seq<(Seq<char>, Seq<char>)>, k: Seq<char>) -> Option<Seq<char>>
    decreases members.len(),
{
    if members.len() == 0 {
        None
    } else if members[0].0 == k {
        Some(members[0].1)
    } else {
        spec_assoc(members.drop_first(), k)
    }
}

/// Looks a key up among rendered object members.
pub(crate) fn assoc_get(members: &Vec<(String, String)>, key: &String) -> (r: Option<String>)
    ensures
        (match r {
            Some(v) => spec_assoc(members@.map_values(|p: (String, String)| (p.0@, p.1@)), key@)
                == Some(v@),
            None => spec_assoc(members@.map_values(|p: (String, String)| (p.0@, p.1@)), key@)
                is None,
        }),
{
    let ghost m = members@.map_values(|p: (String, String)| (p.0@, p.1@));
    let mut i: usize = 0;
    proof {
        assert(m.skip(0) =~= m);
    }
    while i < members.len()
        invariant
            i <= members.len(),
            m == members@.map_values(|p: (String, String)| (p.0@, p.1@)),
            spec_assoc(m.skip(i as int), key@) == spec_assoc(m, key@),
        decreases members.len() - i,
    {
        proof {
            assert(m.skip(i as int)[0] == m[i as int]);
            assert(m.skip(i as int).drop_first() =~= m.skip(i as int + 1));
        }
        if members[i].0 == *key {
            return Some(members[i].1.clone());
        }
        i = i + 1;
    }
    None
}

} // verus!
