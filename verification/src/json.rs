//! A JSON document as the statistics site's pages embed it, and the lookups
//! that reading one needs.

use vstd::prelude::*;

verus! {

/// A JSON number, as far as reading counts needs it.
#[derive(Debug)]
pub enum JsonNumber {
    /// A non-negative integer.
    PosInt(u64),
    /// A negative integer.
    NegInt(i64),
    /// A number with a fraction or an exponent.
    Float,
}

/// A JSON value. An object keeps its members in document order.
#[derive(Debug)]
pub enum Json {
    Null,
    Bool(bool),
    Number(JsonNumber),
    String(String),
    Array(Vec<Json>),
    Object(Vec<(String, Json)>),
}

/// The value of the first member named `key`.
pub open spec fn member_of(members: Seq<(String, Json)>, key: Seq<char>) -> Option<Json>
    decreases members.len(),
{
    if members.len() == 0 {
        None
    } else if members[0].0@ == key {
        Some(members[0].1)
    } else {
        member_of(members.drop_first(), key)
    }
}

/// The member `key` of an object; nothing for any other value.
pub open spec fn json_get(v: Json, key: Seq<char>) -> Option<Json> {
    match v {
        Json::Object(members) => member_of(members@, key),
        _ => None,
    }
}

/// The value reached from `v` through the members named by `path`, in turn.
pub open spec fn json_at(v: Json, path: Seq<Seq<char>>) -> Option<Json>
    decreases path.len(),
{
    if path.len() == 0 {
        Some(v)
    } else {
        match json_get(v, path[0]) {
            Some(w) => json_at(w, path.drop_first()),
            None => None,
        }
    }
}

/// The items of an array.
pub open spec fn json_items(v: Json) -> Option<Seq<Json>> {
    match v {
        Json::Array(items) => Some(items@),
        _ => None,
    }
}

/// The text of a string.
pub open spec fn json_text(v: Json) -> Option<Seq<char>> {
    match v {
        Json::String(s) => Some(s@),
        _ => None,
    }
}

/// The value of a non-negative integer.
pub open spec fn json_u64(v: Json) -> Option<u64> {
    match v {
        Json::Number(JsonNumber::PosInt(n)) => Some(n),
        _ => None,
    }
}

/// The keys of a path, as texts.
pub open spec fn path_view(path: Seq<&str>) -> Seq<Seq<char>> {
    path.map_values(|s: &str| s@)
}

/// A JSON value of the `serde_json` crate.
#[verifier::external_type_specification]
#[verifier::external_body]
pub struct ExValue(serde_json::Value);

/// The document that `serde_json` reads from a text: the value of the whole
/// text, or nothing when the text is no JSON document.
pub uninterp spec fn json_document_of(text: Seq<char>) -> Option<Json>;

/// Converts a `serde_json::Value` into a `Json`, variant for variant; a
/// number goes by `Number::as_u64` and `Number::as_i64`.
#[verifier::external_body]
fn value_to_json(v: &serde_json::Value) -> Json {
    match v {
        serde_json::Value::Null => Json::Null,
        serde_json::Value::Bool(b) => Json::Bool(*b),
        serde_json::Value::Number(n) => Json::Number(match (n.as_u64(), n.as_i64()) {
            (Some(u), _) => JsonNumber::PosInt(u),
            (None, Some(i)) => JsonNumber::NegInt(i),
            (None, None) => JsonNumber::Float,
        }),
        serde_json::Value::String(t) => Json::String(t.clone()),
        serde_json::Value::Array(items) => Json::Array(items.iter().map(value_to_json).collect()),
        serde_json::Value::Object(m) => Json::Object(m.iter().map(|(k, w)| (k.clone(), value_to_json(w))).collect()),
    }
}

/// Reads a JSON document with `serde_json::from_str` into a
/// `serde_json::Value`; nothing when the text is no JSON document.
#[verifier::external_body]
fn parse_json_text(text: &str) -> (res: Option<Json>)
    ensures
        res == json_document_of(text@),
{
    serde_json::from_str::<serde_json::Value>(text).ok().map(|v| value_to_json(&v))
}

/// The JSON document that a text holds, if it holds one.
pub fn read_document(text: &str) -> (res: Option<Json>)
    ensures
        res == json_document_of(text@),
{
    parse_json_text(text)
}

impl Json {
    /// The member `key` of an object, the first if there are several.
    pub fn get(&self, key: &str) -> (res: Option<&Json>)
        ensures
            match json_get(*self, key@) {
                Some(w) => res == Some(&w),
                None => res is None,
            },
    {
        match self {
            Json::Object(members) => {
                let k = key.to_owned();
                let n = members.len();
                let mut i: usize = 0;
                proof {
                    assert(members@.skip(0) =~= members@);
                }
                while i < n
                    invariant
                        n == members@.len(),
                        i <= n,
                        k@ == key@,
                        json_get(*self, key@) == member_of(members@, key@),
                        member_of(members@, key@) == member_of(members@.skip(i as int), key@),
                    decreases n - i,
                {
                    proof {
                        assert(members@.skip(i as int).drop_first() =~= members@.skip(i + 1));
                        assert(members@.skip(i as int)[0] == members@[i as int]);
                    }
                    if members[i].0 == k {
                        proof {
                            assert(member_of(members@.skip(i as int), key@) == Some(members@[i as int].1));
                        }
                        let found = &members[i].1;
                        return Some(found);
                    }
                    i = i + 1;
                }
                proof {
                    assert(members@.skip(n as int) =~= Seq::<(String, Json)>::empty());
                }
                None
            },
            _ => None,
        }
    }

    /// The value reached through the members named by `path`, in turn, as
    /// a JSON pointer of plain member names reaches it.
    pub fn lookup(&self, path: &[&str]) -> (res: Option<&Json>)
        ensures
            match json_at(*self, path_view(path@)) {
                Some(w) => res == Some(&w),
                None => res is None,
            },
    {
        let ghost pv = path_view(path@);
        let n = path.len();
        let mut cur: &Json = self;
        let mut i: usize = 0;
        proof {
            assert(pv.skip(0) =~= pv);
        }
        while i < n
            invariant
                n == path@.len(),
                pv == path_view(path@),
                i <= n,
                json_at(*self, pv) == json_at(*cur, pv.skip(i as int)),
            decreases n - i,
        {
            proof {
                assert(pv.skip(i as int).drop_first() =~= pv.skip(i + 1));
                assert(pv.skip(i as int)[0] == path@[i as int]@);
            }
            match cur.get(path[i]) {
                Some(next) => {
                    cur = next;
                },
                None => {
                    return None;
                },
            }
            i = i + 1;
        }
        proof {
            assert(pv.skip(n as int) =~= Seq::<Seq<char>>::empty());
        }
        Some(cur)
    }

    /// The items of an array.
    pub fn as_array(&self) -> (res: Option<&Vec<Json>>)
        ensures
            match json_items(*self) {
                Some(items) => res matches Some(r) && r@ == items,
                None => res is None,
            },
    {
        match self {
            Json::Array(items) => Some(items),
            _ => None,
        }
    }

    /// The text of a string.
    pub fn as_str(&self) -> (res: Option<&String>)
        ensures
            match json_text(*self) {
                Some(t) => res matches Some(r) && r@ == t,
                None => res is None,
            },
    {
        match self {
            Json::String(s) => Some(s),
            _ => None,
        }
    }

    /// The value of a non-negative integer.
    pub fn as_u64(&self) -> (res: Option<u64>)
        ensures
            res == json_u64(*self),
    {
        match self {
            Json::Number(JsonNumber::PosInt(n)) => Some(*n),
            _ => None,
        }
    }
}

} // verus!
