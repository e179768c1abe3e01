//! The crate's own model of JSON documents.
//!
//! Every stage of the pipeline that inspects JSON works on [`JsonVal`],
//! a plain tree of values that contracts can speak about through its
//! mathematical view [`JsonValV`].  A JSON number that fits in an `i64`
//! is held as `Int`; any other number is held as its decimal text in
//! `Dec`, so that no floating point value ever enters the crate.

use vstd::prelude::*;

verus! {

/// A JSON value as this crate models it.
#[derive(Debug, PartialEq, Eq)]
pub enum JsonVal {
    Null,
    Bool(bool),
    Int(i64),
    /// A number that does not fit in an `i64`, kept as its source text.
    Dec(String),
    Str(String),
    Arr(Vec<JsonVal>),
    Obj(Vec<(String, JsonVal)>),
}

/// The mathematical view of a [`JsonVal`].
pub enum JsonValV {
    Null,
    Bool(bool),
    Int(int),
    Dec(Seq<char>),
    Str(Seq<char>),
    Arr(Seq<JsonValV>),
    Obj(Seq<(Seq<char>, JsonValV)>),
}

/// The view of a sequence of JSON values, element by element.
pub open spec fn json_seq_view(s: Seq<JsonVal>) -> Seq<JsonValV>
    decreases s,
{
    if s.len() == 0 {
        Seq::empty()
    } else {
        seq![json_view(s[0])] + json_seq_view(s.drop_first())
    }
}

/// The view of a sequence of JSON object members, member by member.
pub open spec fn json_obj_view(s: Seq<(String, JsonVal)>) -> Seq<(Seq<char>, JsonValV)>
    decreases s,
{
    if s.len() == 0 {
        Seq::empty()
    } else {
        seq![(s[0].0@, json_view(s[0].1))] + json_obj_view(s.drop_first())
    }
}

pub proof fn lemma_json_seq_view(s: Seq<JsonVal>)
    ensures
        json_seq_view(s).len() == s.len(),
        forall|i: int| 0 <= i < s.len() ==> json_seq_view(s)[i] == json_view(s[i]),
    decreases s,
{
    if s.len() > 0 {
        lemma_json_seq_view(s.drop_first());
    }
}

pub proof fn lemma_json_obj_view(s: Seq<(String, JsonVal)>)
    ensures
        json_obj_view(s).len() == s.len(),
        forall|i: int|
            0 <= i < s.len() ==> json_obj_view(s)[i] == (s[i].0@, json_view(s[i].1)),
    decreases s,
{
    if s.len() > 0 {
        lemma_json_obj_view(s.drop_first());
    }
}

pub proof fn lemma_json_obj_view_push(s: Seq<(String, JsonVal)>, m: (String, JsonVal))
    ensures
        json_obj_view(s.push(m)) == json_obj_view(s) + seq![(m.0@, json_view(m.1))],
{
    lemma_json_obj_view(s.push(m));
    lemma_json_obj_view(s);
    assert(json_obj_view(s.push(m)) =~= json_obj_view(s) + seq![(m.0@, json_view(m.1))]);
}

/// The view of a single JSON value.
pub open spec fn json_view(v: JsonVal) -> JsonValV
    decreases v,
{
    match v {
        JsonVal::Null => JsonValV::Null,
        JsonVal::Bool(b) => JsonValV::Bool(b),
        JsonVal::Int(i) => JsonValV::Int(i as int),
        JsonVal::Dec(s) => JsonValV::Dec(s@),
        JsonVal::Str(s) => JsonValV::Str(s@),
        JsonVal::Arr(items) => JsonValV::Arr(json_seq_view(items@)),
        JsonVal::Obj(members) => JsonValV::Obj(json_obj_view(members@)),
    }
}

impl View for JsonVal {
    type V = JsonValV;

    open spec fn view(&self) -> JsonValV {
        json_view(*self)
    }
}

impl JsonVal {
    /// A deep copy of this JSON value.
    pub fn duplicate(&self) -> (r: Self)
        ensures
            r@ == self@,
        decreases *self,
    {
        match self {
            JsonVal::Null => JsonVal::Null,
            JsonVal::Bool(b) => JsonVal::Bool(*b),
            JsonVal::Int(i) => JsonVal::Int(*i),
            JsonVal::Dec(s) => JsonVal::Dec(s.clone()),
            JsonVal::Str(s) => JsonVal::Str(s.clone()),
            JsonVal::Arr(items) => {
                let mut out: Vec<JsonVal> = Vec::new();
                let mut idx: usize = 0;
                while idx < items.len()
                    invariant
                        *self == JsonVal::Arr(*items),
                        idx <= items.len(),
                        out@.len() == idx,
                        forall|i: int| 0 <= i < idx ==> json_view(out@[i]) == json_view(items@[i]),
                    decreases items.len() - idx,
                {
                    proof {
                        assert(decreases_to!(*self => items@[idx as int])) by {
                            assert(decreases_to!(*self => self->Arr_0));
                            assert(decreases_to!(*items => items@));
                            assert(decreases_to!(items@ => items@[idx as int]));
                        }
                    }
                    let d = items[idx].duplicate();
                    out.push(d);
                    idx += 1;
                }
                proof {
                    lemma_json_seq_view(out@);
                    lemma_json_seq_view(items@);
                    assert(json_seq_view(out@) =~= json_seq_view(items@));
                }
                JsonVal::Arr(out)
            },
            JsonVal::Obj(members) => {
                let mut out: Vec<(String, JsonVal)> = Vec::new();
                let mut idx: usize = 0;
                while idx < members.len()
                    invariant
                        *self == JsonVal::Obj(*members),
                        idx <= members.len(),
                        out@.len() == idx,
                        forall|i: int|
                            0 <= i < idx ==> out@[i].0@ == members@[i].0@
                                && json_view(out@[i].1) == json_view(members@[i].1),
                    decreases members.len() - idx,
                {
                    proof {
                        assert(decreases_to!(*self => members@[idx as int].1)) by {
                            assert(decreases_to!(*self => self->Obj_0));
                            assert(decreases_to!(*members => members@));
                            assert(decreases_to!(members@ => members@[idx as int]));
                        }
                    }
                    let k = members[idx].0.clone();
                    let d = members[idx].1.duplicate();
                    out.push((k, d));
                    idx += 1;
                }
                proof {
                    lemma_json_obj_view(out@);
                    lemma_json_obj_view(members@);
                    assert(json_obj_view(out@) =~= json_obj_view(members@));
                }
                JsonVal::Obj(out)
            },
        }
    }
}

/// Whether two string slices hold the same characters.
pub(crate) fn str_eq(a: &str, b: &str) -> (r: bool)
    ensures
        r == (a@ == b@),
{
    let x = a.to_owned();
    let y = b.to_owned();
    x == y
}

/// Looks a key up in a sequence of object members: the value of the
/// first member with that key, if any.
pub open spec fn obj_lookup(ms: Seq<(Seq<char>, JsonValV)>, key: Seq<char>) -> Option<JsonValV>
    decreases ms,
{
    if ms.len() == 0 {
        None
    } else if ms[0].0 == key {
        Some(ms[0].1)
    } else {
        obj_lookup(ms.drop_first(), key)
    }
}

/// Looks a key up among the members of a JSON object, exactly as
/// [`obj_lookup`] says.
pub fn obj_get<'a>(members: &'a Vec<(String, JsonVal)>, key: &str) -> (r: Option<&'a JsonVal>)
    ensures
        r matches Some(x) ==> obj_lookup(json_obj_view(members@), key@) == Some(json_view(*x)),
        r is None <==> obj_lookup(json_obj_view(members@), key@) is None,
{
    let ghost msv = json_obj_view(members@);
    proof {
        lemma_json_obj_view(members@);
    }
    let mut idx: usize = 0;
    proof {
        assert(msv.skip(0) =~= msv);
    }
    while idx < members.len()
        invariant
            idx <= members.len(),
            msv == json_obj_view(members@),
            msv.len() == members@.len(),
            forall|i: int|
                0 <= i < members@.len() ==> msv[i] == (members@[i].0@, json_view(members@[i].1)),
            forall|i: int| 0 <= i < idx ==> msv[i].0 != key@,
            obj_lookup(msv, key@) == obj_lookup(msv.skip(idx as int), key@),
        decreases members.len() - idx,
    {
        if str_eq(members[idx].0.as_str(), key) {
            proof {
                assert(msv.skip(idx as int)[0] == msv[idx as int]);
            }
            return Some(&members[idx].1);
        }
        proof {
            assert(msv.skip(idx as int).drop_first() =~= msv.skip(idx + 1));
            assert(msv.skip(idx as int)[0] == msv[idx as int]);
        }
        idx += 1;
    }
    proof {
        assert(msv.skip(members@.len() as int) =~= Seq::<(Seq<char>, JsonValV)>::empty());
    }
    None
}

#[verifier::external_type_specification]
#[verifier::external_body]
pub struct ExSerdeValue(serde_json::Value);

/// What `serde_json::from_str::<serde_json::Value>` yields on a given text,
/// translated into this crate's JSON model: `None` when the text is not
/// valid JSON, otherwise the parsed value.
pub uninterp spec fn json_of(s: Seq<char>) -> Option<JsonValV>;

/// Translates a parsed `serde_json::Value` tree into this crate's model,
/// node for node: integral numbers that fit in an `i64` become `Int`,
/// any other number keeps its source text as `Dec`, and object members
/// keep the parser's key order.  The translation recurses as deep as
/// the value nests; values from [`parse_json`] are bounded by the
/// parser's recursion limit.
#[verifier::external_body]
pub(crate) fn json_tree(v: serde_json::Value) -> JsonVal {
    match v {
        serde_json::Value::Null => JsonVal::Null,
        serde_json::Value::Bool(b) => JsonVal::Bool(b),
        serde_json::Value::Number(n) => match n.as_i64() {
            Some(i) => JsonVal::Int(i),
            None => JsonVal::Dec(n.to_string()),
        },
        serde_json::Value::String(t) => JsonVal::Str(t),
        serde_json::Value::Array(a) => JsonVal::Arr(a.into_iter().map(json_tree).collect()),
        serde_json::Value::Object(m) => JsonVal::Obj(
            m.into_iter().map(|(k, w)| (k, json_tree(w))).collect(),
        ),
    }
}

/// Relies on `serde_json::from_str::<serde_json::Value>`: which texts it
/// accepts and the value it parses from an accepted text are functions
/// of the text alone; [`json_tree`] carries that value into this
/// crate's model, and `json_of` names the composed result.
#[verifier::external_body]
pub(crate) fn parse_json(chars: &Vec<char>) -> (r: Result<JsonVal, String>)
    ensures
        r is Ok <==> json_of(chars@) is Some,
        r matches Ok(v) ==> json_of(chars@) == Some(v@),
{
    let text: String = chars.iter().collect();
    match serde_json::from_str::<serde_json::Value>(&text) {
        Ok(v) => Ok(json_tree(v)),
        Err(e) => Err(format!("{e}")),
    }
}

} // verus!
