//! Typed claim records, their extraction from decoded token payloads,
//! and the synthesis of entities from them.
//!
//! Each token kind has a schema: the required claims with their types,
//! the optional claims, and a catch-all for every claim the schema does
//! not model.  Extraction fails exactly when a payload does not match
//! the schema.

use vstd::prelude::*;
use crate::cedar::{build_entity, entity_convertible, BuildEntityError, BuiltEntity};
use crate::entities::{
    attr_map_view, attr_of_json, attr_seq_view, attr_view, attr_from_json, lemma_attr_map_view,
    lemma_attr_map_view_push, lemma_attr_seq_view, AttrValue, AttrValueV, Entity, EntityIdent,
    EntityIdentV, EntityV,
};
use crate::json::{
    json_obj_view, json_view, obj_get, obj_lookup, str_eq, JsonVal, JsonValV,
};

verus! {

/// The value of a required string claim, if present with that type.
pub open spec fn req_string(ms: Seq<(Seq<char>, JsonValV)>, key: Seq<char>) -> Option<Seq<char>> {
    match obj_lookup(ms, key) {
        Some(JsonValV::Str(s)) => Some(s),
        _ => None,
    }
}

/// The value of a required integer claim, if present with that type.
pub open spec fn req_long(ms: Seq<(Seq<char>, JsonValV)>, key: Seq<char>) -> Option<int> {
    match obj_lookup(ms, key) {
        Some(JsonValV::Int(i)) => Some(i),
        _ => None,
    }
}

/// The value of an optional string claim: absent or `null` counts as
/// absent, any type but a string is a schema mismatch.
pub open spec fn opt_string(ms: Seq<(Seq<char>, JsonValV)>, key: Seq<char>) -> Option<
    Option<Seq<char>>,
> {
    match obj_lookup(ms, key) {
        None => Some(None),
        Some(JsonValV::Null) => Some(None),
        Some(JsonValV::Str(s)) => Some(Some(s)),
        Some(_) => None,
    }
}

/// The strings of a JSON array, if every element is a string.
pub open spec fn strings_of_json(items: Seq<JsonValV>) -> Option<Seq<Seq<char>>>
    decreases items,
{
    if items.len() == 0 {
        Some(Seq::empty())
    } else {
        match items[0] {
            JsonValV::Str(s) => match strings_of_json(items.drop_first()) {
                Some(rest) => Some(seq![s] + rest),
                None => None,
            },
            _ => None,
        }
    }
}

/// The value of a string-set claim: absent counts as empty, otherwise
/// the claim must be an array of strings.
pub open spec fn string_list(ms: Seq<(Seq<char>, JsonValV)>, key: Seq<char>) -> Option<
    Seq<Seq<char>>,
> {
    match obj_lookup(ms, key) {
        None => Some(Seq::empty()),
        Some(JsonValV::Arr(items)) => strings_of_json(items),
        Some(_) => None,
    }
}

/// The value of a required string-set claim: the claim must be present
/// as an array of strings.
pub open spec fn req_string_list(ms: Seq<(Seq<char>, JsonValV)>, key: Seq<char>) -> Option<
    Seq<Seq<char>>,
> {
    match obj_lookup(ms, key) {
        Some(JsonValV::Arr(items)) => strings_of_json(items),
        _ => None,
    }
}

/// The members whose keys are not among `keys`, in source order.
pub open spec fn extra_of(
    ms: Seq<(Seq<char>, JsonValV)>,
    keys: Seq<Seq<char>>,
) -> Seq<(Seq<char>, JsonValV)>
    decreases ms,
{
    if ms.len() == 0 {
        Seq::empty()
    } else if keys.contains(ms[0].0) {
        extra_of(ms.drop_first(), keys)
    } else {
        seq![ms[0]] + extra_of(ms.drop_first(), keys)
    }
}

pub proof fn lemma_extra_of_concat(
    a: Seq<(Seq<char>, JsonValV)>,
    b: Seq<(Seq<char>, JsonValV)>,
    keys: Seq<Seq<char>>,
)
    ensures
        extra_of(a + b, keys) == extra_of(a, keys) + extra_of(b, keys),
    decreases a,
{
    if a.len() == 0 {
        assert(a + b =~= b);
        assert(extra_of(a, keys) + extra_of(b, keys) =~= extra_of(b, keys));
    } else {
        assert((a + b).drop_first() =~= a.drop_first() + b);
        lemma_extra_of_concat(a.drop_first(), b, keys);
        assert((a + b)[0] == a[0]);
        if !keys.contains(a[0].0) {
            assert(seq![a[0]] + (extra_of(a.drop_first(), keys) + extra_of(b, keys))
                =~= (seq![a[0]] + extra_of(a.drop_first(), keys)) + extra_of(b, keys));
        }
    }
}

pub proof fn lemma_extra_of_single(m: (Seq<char>, JsonValV), keys: Seq<Seq<char>>)
    ensures
        keys.contains(m.0) ==> extra_of(seq![m], keys) == Seq::<(Seq<char>, JsonValV)>::empty(),
        !keys.contains(m.0) ==> extra_of(seq![m], keys) == seq![m],
{
    reveal_with_fuel(extra_of, 2);
    assert(seq![m].drop_first() =~= Seq::<(Seq<char>, JsonValV)>::empty());
    assert(seq![m][0] == m);
    if !keys.contains(m.0) {
        assert(extra_of(seq![m], keys) =~= seq![m]);
    }
}

/// Reads a required string claim, exactly as [`req_string`] says.
pub(crate) fn get_req_string(members: &Vec<(String, JsonVal)>, key: &str) -> (r: Result<String, String>)
    ensures
        r matches Ok(s) ==> req_string(json_obj_view(members@), key@) == Some(s@),
        r is Ok <==> req_string(json_obj_view(members@), key@) is Some,
{
    match obj_get(members, key) {
        Some(v) => match v {
            JsonVal::Str(s) => Ok(s.clone()),
            _ => Err("a required claim is not a string".to_owned()),
        },
        None => Err("a required string claim is missing".to_owned()),
    }
}

/// Reads a required integer claim, exactly as [`req_long`] says.
pub(crate) fn get_req_long(members: &Vec<(String, JsonVal)>, key: &str) -> (r: Result<i64, String>)
    ensures
        r matches Ok(i) ==> req_long(json_obj_view(members@), key@) == Some(i as int),
        r is Ok <==> req_long(json_obj_view(members@), key@) is Some,
{
    match obj_get(members, key) {
        Some(v) => match v {
            JsonVal::Int(i) => Ok(*i),
            _ => Err("a required claim is not an integer".to_owned()),
        },
        None => Err("a required integer claim is missing".to_owned()),
    }
}

/// Reads an optional string claim, exactly as [`opt_string`] says.
fn get_opt_string(members: &Vec<(String, JsonVal)>, key: &str) -> (r: Result<
    Option<String>,
    String,
>)
    ensures
        r matches Ok(s) ==> opt_string(json_obj_view(members@), key@) == Some(
            match s {
                Some(x) => Some(x@),
                None => None,
            },
        ),
        r is Ok <==> opt_string(json_obj_view(members@), key@) is Some,
{
    match obj_get(members, key) {
        Some(v) => match v {
            JsonVal::Null => Ok(None),
            JsonVal::Str(s) => Ok(Some(s.clone())),
            _ => Err("an optional claim is neither a string nor null".to_owned()),
        },
        None => Ok(None),
    }
}

proof fn lemma_strings_of_json_concat(a: Seq<JsonValV>, b: Seq<JsonValV>)
    ensures
        strings_of_json(a + b) == match (strings_of_json(a), strings_of_json(b)) {
            (Some(x), Some(y)) => Some::<Seq<Seq<char>>>(x + y),
            _ => None::<Seq<Seq<char>>>,
        },
    decreases a,
{
    if a.len() == 0 {
        assert(a + b =~= b);
        if strings_of_json(b) is Some {
            assert(Seq::<Seq<char>>::empty() + strings_of_json(b)->Some_0
                =~= strings_of_json(b)->Some_0);
        }
    } else {
        assert((a + b).drop_first() =~= a.drop_first() + b);
        lemma_strings_of_json_concat(a.drop_first(), b);
        assert((a + b)[0] == a[0]);
        match a[0] {
            JsonValV::Str(s) => {
                match (strings_of_json(a.drop_first()), strings_of_json(b)) {
                    (Some(x), Some(y)) => {
                        assert(seq![s] + (x + y) =~= (seq![s] + x) + y);
                    },
                    _ => {},
                }
            },
            _ => {},
        }
    }
}

proof fn lemma_strings_of_json_single(x: JsonValV)
    ensures
        x matches JsonValV::Str(s) ==> strings_of_json(seq![x]) == Some(seq![s]),
        !(x is Str) ==> strings_of_json(seq![x]) is None,
{
    reveal_with_fuel(strings_of_json, 2);
    assert(seq![x].drop_first() =~= Seq::<JsonValV>::empty());
    assert(seq![x][0] == x);
    match x {
        JsonValV::Str(s) => {
            assert(strings_of_json(seq![x])->Some_0 =~= seq![s]);
        },
        _ => {},
    }
}

/// Reads a string-set claim, exactly as [`string_list`] says.
fn get_string_list(members: &Vec<(String, JsonVal)>, key: &str) -> (r: Result<Vec<String>, String>)
    ensures
        r matches Ok(v) ==> string_list(json_obj_view(members@), key@) == Some(
            v@.map_values(|s: String| s@),
        ),
        r is Ok <==> string_list(json_obj_view(members@), key@) is Some,
{
    match obj_get(members, key) {
        None => {
            let r: Vec<String> = Vec::new();
            proof {
                assert(r@.map_values(|s: String| s@) =~= Seq::<Seq<char>>::empty());
            }
            Ok(r)
        },
        Some(v) => match v {
            JsonVal::Arr(items) => strings_from_array(items),
            _ => Err("a string-set claim is not an array".to_owned()),
        },
    }
}

/// Reads a required string-set claim, exactly as [`req_string_list`]
/// says.
pub(crate) fn get_req_string_list(members: &Vec<(String, JsonVal)>, key: &str) -> (r: Result<
    Vec<String>,
    String,
>)
    ensures
        r matches Ok(v) ==> req_string_list(json_obj_view(members@), key@) == Some(
            v@.map_values(|s: String| s@),
        ),
        r is Ok <==> req_string_list(json_obj_view(members@), key@) is Some,
{
    match obj_get(members, key) {
        None => Err("a required string-set claim is missing".to_owned()),
        Some(v) => match v {
            JsonVal::Arr(items) => strings_from_array(items),
            _ => Err("a string-set claim is not an array".to_owned()),
        },
    }
}

/// Reads the strings of a JSON array, exactly as [`strings_of_json`]
/// says.
fn strings_from_array(items: &Vec<JsonVal>) -> (r: Result<Vec<String>, String>)
    ensures
        r matches Ok(v) ==> strings_of_json(crate::json::json_seq_view(items@)) == Some(
            v@.map_values(|s: String| s@),
        ),
        r is Ok <==> strings_of_json(crate::json::json_seq_view(items@)) is Some,
{
    let ghost itemsv = crate::json::json_seq_view(items@);
    proof {
        crate::json::lemma_json_seq_view(items@);
    }
    let mut out: Vec<String> = Vec::new();
    let mut idx: usize = 0;
    while idx < items.len()
        invariant
            idx <= items.len(),
            itemsv == crate::json::json_seq_view(items@),
            itemsv.len() == items@.len(),
            forall|i: int| 0 <= i < items@.len() ==> itemsv[i] == json_view(items@[i]),
            strings_of_json(itemsv.take(idx as int)) == Some(out@.map_values(|s: String| s@)),
        decreases items.len() - idx,
    {
        let ghost prefix = itemsv.take(idx as int);
        match &items[idx] {
            JsonVal::Str(s) => {
                out.push(s.clone());
            },
            _ => {
                proof {
                    assert(!(itemsv[idx as int] is Str));
                    lemma_strings_of_json_single(itemsv[idx as int]);
                    assert(itemsv =~= itemsv.take(idx + 1) + itemsv.skip(idx + 1));
                    assert(itemsv.take(idx + 1) =~= prefix + seq![itemsv[idx as int]]);
                    lemma_strings_of_json_concat(prefix, seq![itemsv[idx as int]]);
                    assert(strings_of_json(itemsv.take(idx + 1)) is None);
                    lemma_strings_of_json_concat(itemsv.take(idx + 1), itemsv.skip(idx + 1));
                    assert(strings_of_json(itemsv) is None);
                }
                return Err("a string-set claim has a non-string element".to_owned());
            },
        }
        idx += 1;
        proof {
            assert(itemsv.take(idx as int) =~= prefix + seq![itemsv[idx - 1]]);
            lemma_strings_of_json_concat(prefix, seq![itemsv[idx - 1]]);
            lemma_strings_of_json_single(itemsv[idx - 1]);
            assert(out@.map_values(|s: String| s@) =~= strings_of_json(prefix)->Some_0
                + seq![itemsv[idx - 1]->Str_0]);
        }
    }
    proof {
        assert(itemsv.take(items@.len() as int) =~= itemsv);
    }
    Ok(out)
}

/// The claims of a decoded id token.
#[derive(Debug, PartialEq, Eq)]
pub struct IdToken {
    pub jti: String,
    pub iss: String,
    pub aud: String,
    pub sub: String,
    pub iat: i64,
    pub exp: i64,
    pub acr: Option<String>,
    pub azp: Option<String>,
    /// Authentication methods; the engine treats the attribute built
    /// from this as a set, so order and repetition carry no meaning.
    pub amr: Vec<String>,
    /// Every claim the schema does not model, in source order.
    pub extra: Vec<(String, JsonVal)>,
}

/// The mathematical view of an [`IdToken`].
pub struct IdTokenV {
    pub jti: Seq<char>,
    pub iss: Seq<char>,
    pub aud: Seq<char>,
    pub sub: Seq<char>,
    pub iat: int,
    pub exp: int,
    pub acr: Option<Seq<char>>,
    pub azp: Option<Seq<char>>,
    pub amr: Seq<Seq<char>>,
    pub extra: Seq<(Seq<char>, JsonValV)>,
}

impl View for IdToken {
    type V = IdTokenV;

    open spec fn view(&self) -> IdTokenV {
        IdTokenV {
            jti: self.jti@,
            iss: self.iss@,
            aud: self.aud@,
            sub: self.sub@,
            iat: self.iat as int,
            exp: self.exp as int,
            acr: match self.acr {
                Some(s) => Some(s@),
                None => None,
            },
            azp: match self.azp {
                Some(s) => Some(s@),
                None => None,
            },
            amr: self.amr@.map_values(|s: String| s@),
            extra: json_obj_view(self.extra@),
        }
    }
}

/// The claim names the id-token schema models.
pub open spec fn id_keys() -> Seq<Seq<char>> {
    seq!["jti"@, "iss"@, "aud"@, "sub"@, "iat"@, "exp"@, "acr"@, "azp"@, "amr"@]
}

/// The id-token schema: the claim record a payload denotes, if it
/// matches.
pub open spec fn id_token_of_json(v: JsonValV) -> Option<IdTokenV> {
    match v {
        JsonValV::Obj(ms) => match (
            req_string(ms, "jti"@),
            req_string(ms, "iss"@),
            req_string(ms, "aud"@),
            req_string(ms, "sub"@),
            req_long(ms, "iat"@),
            req_long(ms, "exp"@),
            opt_string(ms, "acr"@),
            opt_string(ms, "azp"@),
            string_list(ms, "amr"@),
        ) {
            (
                Some(jti),
                Some(iss),
                Some(aud),
                Some(sub),
                Some(iat),
                Some(exp),
                Some(acr),
                Some(azp),
                Some(amr),
            ) => Some(
                IdTokenV { jti, iss, aud, sub, iat, exp, acr, azp, amr, extra: extra_of(ms, id_keys()) },
            ),
            _ => None,
        },
        _ => None,
    }
}

/// Whether a claim name is one the id-token schema models.
fn is_id_key(k: &str) -> (r: bool)
    ensures
        r == id_keys().contains(k@),
{
    let r = str_eq(k, "jti") || str_eq(k, "iss") || str_eq(k, "aud") || str_eq(k, "sub")
        || str_eq(k, "iat") || str_eq(k, "exp") || str_eq(k, "acr") || str_eq(k, "azp")
        || str_eq(k, "amr");
    proof {
        assert(id_keys()[0] == "jti"@);
        assert(id_keys()[1] == "iss"@);
        assert(id_keys()[2] == "aud"@);
        assert(id_keys()[3] == "sub"@);
        assert(id_keys()[4] == "iat"@);
        assert(id_keys()[5] == "exp"@);
        assert(id_keys()[6] == "acr"@);
        assert(id_keys()[7] == "azp"@);
        assert(id_keys()[8] == "amr"@);
    }
    r
}

impl IdToken {
    /// Reads the id-token claim record out of a decoded payload; fails
    /// exactly when the payload does not match the schema, as
    /// [`id_token_of_json`] says.
    pub fn from_json(v: &JsonVal) -> (r: Result<IdToken, String>)
        ensures
            r matches Ok(t) ==> id_token_of_json(json_view(*v)) == Some(t@),
            r is Ok <==> id_token_of_json(json_view(*v)) is Some,
    {
        match v {
            JsonVal::Obj(members) => Self::from_members(members),
            _ => Err("a claims payload is not a JSON object".to_owned()),
        }
    }

    fn from_members(members: &Vec<(String, JsonVal)>) -> (r: Result<IdToken, String>)
        ensures
            r matches Ok(t) ==> id_token_of_json(JsonValV::Obj(json_obj_view(members@)))
                == Some(t@),
            r is Ok <==> id_token_of_json(JsonValV::Obj(json_obj_view(members@))) is Some,
    {
        let ghost msv = json_obj_view(members@);
        let jti = get_req_string(members, "jti")?;
        let iss = get_req_string(members, "iss")?;
        let aud = get_req_string(members, "aud")?;
        let sub = get_req_string(members, "sub")?;
        let iat = get_req_long(members, "iat")?;
        let exp = get_req_long(members, "exp")?;
        let acr = get_opt_string(members, "acr")?;
        let azp = get_opt_string(members, "azp")?;
        let amr = get_string_list(members, "amr")?;
        let mut extra: Vec<(String, JsonVal)> = Vec::new();
        let mut idx: usize = 0;
        proof {
            crate::json::lemma_json_obj_view(members@);
            assert(json_obj_view(extra@) =~= extra_of(msv.take(0), id_keys()));
        }
        while idx < members.len()
            invariant
                idx <= members.len(),
                msv == json_obj_view(members@),
                msv.len() == members@.len(),
                forall|i: int|
                    0 <= i < members@.len()
                        ==> msv[i] == (members@[i].0@, json_view(members@[i].1)),
                json_obj_view(extra@) == extra_of(msv.take(idx as int), id_keys()),
            decreases members.len() - idx,
        {
            let ghost prefix = msv.take(idx as int);
            if !is_id_key(members[idx].0.as_str()) {
                let k = members[idx].0.clone();
                let d = members[idx].1.duplicate();
                proof {
                    crate::json::lemma_json_obj_view_push(extra@, (k, d));
                }
                extra.push((k, d));
            }
            proof {
                assert(msv.take(idx + 1) =~= prefix + seq![msv[idx as int]]);
                lemma_extra_of_concat(prefix, seq![msv[idx as int]], id_keys());
                lemma_extra_of_single(msv[idx as int], id_keys());
            }
            idx += 1;
        }
        proof {
            assert(msv.take(members@.len() as int) =~= msv);
        }
        let t = IdToken { jti, iss, aud, sub, iat, exp, acr, azp, amr, extra };
        Ok(t)
    }
}

/// The claims of a decoded userinfo token.
#[derive(Debug, PartialEq, Eq)]
pub struct UserInfoToken {
    pub jti: String,
    pub iss: String,
    pub sub: String,
    pub aud: String,
    /// The user id: the identity of the principal entity.
    pub inum: String,
    /// Every claim the schema does not model, in source order; these
    /// become attributes of the principal through the generic claim
    /// conversion.
    pub extra: Vec<(String, JsonVal)>,
}

/// The mathematical view of a [`UserInfoToken`].
pub struct UserInfoTokenV {
    pub jti: Seq<char>,
    pub iss: Seq<char>,
    pub sub: Seq<char>,
    pub aud: Seq<char>,
    pub inum: Seq<char>,
    pub extra: Seq<(Seq<char>, JsonValV)>,
}

impl View for UserInfoToken {
    type V = UserInfoTokenV;

    open spec fn view(&self) -> UserInfoTokenV {
        UserInfoTokenV {
            jti: self.jti@,
            iss: self.iss@,
            sub: self.sub@,
            aud: self.aud@,
            inum: self.inum@,
            extra: json_obj_view(self.extra@),
        }
    }
}

/// The claim names the userinfo-token schema models.
pub open spec fn userinfo_keys() -> Seq<Seq<char>> {
    seq!["jti"@, "iss"@, "sub"@, "aud"@, "inum"@]
}

/// The userinfo-token schema: the claim record a payload denotes, if it
/// matches.
pub open spec fn userinfo_token_of_json(v: JsonValV) -> Option<UserInfoTokenV> {
    match v {
        JsonValV::Obj(ms) => match (
            req_string(ms, "jti"@),
            req_string(ms, "iss"@),
            req_string(ms, "sub"@),
            req_string(ms, "aud"@),
            req_string(ms, "inum"@),
        ) {
            (Some(jti), Some(iss), Some(sub), Some(aud), Some(inum)) => Some(
                UserInfoTokenV { jti, iss, sub, aud, inum, extra: extra_of(ms, userinfo_keys()) },
            ),
            _ => None,
        },
        _ => None,
    }
}

/// Whether a claim name is one the userinfo-token schema models.
fn is_userinfo_key(k: &str) -> (r: bool)
    ensures
        r == userinfo_keys().contains(k@),
{
    let r = str_eq(k, "jti") || str_eq(k, "iss") || str_eq(k, "sub") || str_eq(k, "aud")
        || str_eq(k, "inum");
    proof {
        assert(userinfo_keys()[0] == "jti"@);
        assert(userinfo_keys()[1] == "iss"@);
        assert(userinfo_keys()[2] == "sub"@);
        assert(userinfo_keys()[3] == "aud"@);
        assert(userinfo_keys()[4] == "inum"@);
    }
    r
}

impl UserInfoToken {
    /// Reads the userinfo-token claim record out of a decoded payload;
    /// fails exactly when the payload does not match the schema, as
    /// [`userinfo_token_of_json`] says.
    pub fn from_json(v: &JsonVal) -> (r: Result<UserInfoToken, String>)
        ensures
            r matches Ok(t) ==> userinfo_token_of_json(json_view(*v)) == Some(t@),
            r is Ok <==> userinfo_token_of_json(json_view(*v)) is Some,
    {
        match v {
            JsonVal::Obj(members) => Self::from_members(members),
            _ => Err("a claims payload is not a JSON object".to_owned()),
        }
    }

    fn from_members(members: &Vec<(String, JsonVal)>) -> (r: Result<UserInfoToken, String>)
        ensures
            r matches Ok(t) ==> userinfo_token_of_json(JsonValV::Obj(json_obj_view(members@)))
                == Some(t@),
            r is Ok <==> userinfo_token_of_json(JsonValV::Obj(json_obj_view(members@))) is Some,
    {
        let ghost msv = json_obj_view(members@);
        let jti = get_req_string(members, "jti")?;
        let iss = get_req_string(members, "iss")?;
        let sub = get_req_string(members, "sub")?;
        let aud = get_req_string(members, "aud")?;
        let inum = get_req_string(members, "inum")?;
        let mut extra: Vec<(String, JsonVal)> = Vec::new();
        let mut idx: usize = 0;
        proof {
            crate::json::lemma_json_obj_view(members@);
            assert(json_obj_view(extra@) =~= extra_of(msv.take(0), userinfo_keys()));
        }
        while idx < members.len()
            invariant
                idx <= members.len(),
                msv == json_obj_view(members@),
                msv.len() == members@.len(),
                forall|i: int|
                    0 <= i < members@.len()
                        ==> msv[i] == (members@[i].0@, json_view(members@[i].1)),
                json_obj_view(extra@) == extra_of(msv.take(idx as int), userinfo_keys()),
            decreases members.len() - idx,
        {
            let ghost prefix = msv.take(idx as int);
            if !is_userinfo_key(members[idx].0.as_str()) {
                let k = members[idx].0.clone();
                let d = members[idx].1.duplicate();
                proof {
                    crate::json::lemma_json_obj_view_push(extra@, (k, d));
                }
                extra.push((k, d));
            }
            proof {
                assert(msv.take(idx + 1) =~= prefix + seq![msv[idx as int]]);
                lemma_extra_of_concat(prefix, seq![msv[idx as int]], userinfo_keys());
                lemma_extra_of_single(msv[idx as int], userinfo_keys());
            }
            idx += 1;
        }
        proof {
            assert(msv.take(members@.len() as int) =~= msv);
        }
        Ok(UserInfoToken { jti, iss, sub, aud, inum, extra })
    }
}

/// The claims of a decoded access token.
#[derive(Debug, PartialEq, Eq)]
pub struct AccessToken {
    pub jti: String,
    pub iss: String,
    pub aud: String,
    /// Granted scopes; the schema reads them as a set of strings.
    pub scope: Vec<String>,
    pub client_id: String,
    pub exp: i64,
    pub iat: i64,
    /// Every claim the schema does not model, in source order.
    pub extra: Vec<(String, JsonVal)>,
}

/// The mathematical view of an [`AccessToken`].
pub struct AccessTokenV {
    pub jti: Seq<char>,
    pub iss: Seq<char>,
    pub aud: Seq<char>,
    pub scope: Seq<Seq<char>>,
    pub client_id: Seq<char>,
    pub exp: int,
    pub iat: int,
    pub extra: Seq<(Seq<char>, JsonValV)>,
}

impl View for AccessToken {
    type V = AccessTokenV;

    open spec fn view(&self) -> AccessTokenV {
        AccessTokenV {
            jti: self.jti@,
            iss: self.iss@,
            aud: self.aud@,
            scope: self.scope@.map_values(|s: String| s@),
            client_id: self.client_id@,
            exp: self.exp as int,
            iat: self.iat as int,
            extra: json_obj_view(self.extra@),
        }
    }
}

/// The claim names the access-token schema models.
pub open spec fn access_keys() -> Seq<Seq<char>> {
    seq!["jti"@, "iss"@, "aud"@, "scope"@, "client_id"@, "exp"@, "iat"@]
}

/// The access-token schema: the claim record a payload denotes, if it
/// matches.
pub open spec fn access_token_of_json(v: JsonValV) -> Option<AccessTokenV> {
    match v {
        JsonValV::Obj(ms) => match (
            req_string(ms, "jti"@),
            req_string(ms, "iss"@),
            req_string(ms, "aud"@),
            req_string_list(ms, "scope"@),
            req_string(ms, "client_id"@),
            req_long(ms, "exp"@),
            req_long(ms, "iat"@),
        ) {
            (Some(jti), Some(iss), Some(aud), Some(scope), Some(client_id), Some(exp), Some(iat))
                => Some(
                AccessTokenV {
                    jti,
                    iss,
                    aud,
                    scope,
                    client_id,
                    exp,
                    iat,
                    extra: extra_of(ms, access_keys()),
                },
            ),
            _ => None,
        },
        _ => None,
    }
}

/// Whether a claim name is one the access-token schema models.
fn is_access_key(k: &str) -> (r: bool)
    ensures
        r == access_keys().contains(k@),
{
    let r = str_eq(k, "jti") || str_eq(k, "iss") || str_eq(k, "aud") || str_eq(k, "scope")
        || str_eq(k, "client_id") || str_eq(k, "exp") || str_eq(k, "iat");
    proof {
        assert(access_keys()[0] == "jti"@);
        assert(access_keys()[1] == "iss"@);
        assert(access_keys()[2] == "aud"@);
        assert(access_keys()[3] == "scope"@);
        assert(access_keys()[4] == "client_id"@);
        assert(access_keys()[5] == "exp"@);
        assert(access_keys()[6] == "iat"@);
    }
    r
}

impl AccessToken {
    /// Reads the access-token claim record out of a decoded payload;
    /// fails exactly when the payload does not match the schema, as
    /// [`access_token_of_json`] says.
    pub fn from_json(v: &JsonVal) -> (r: Result<AccessToken, String>)
        ensures
            r matches Ok(t) ==> access_token_of_json(json_view(*v)) == Some(t@),
            r is Ok <==> access_token_of_json(json_view(*v)) is Some,
    {
        match v {
            JsonVal::Obj(members) => Self::from_members(members),
            _ => Err("a claims payload is not a JSON object".to_owned()),
        }
    }

    fn from_members(members: &Vec<(String, JsonVal)>) -> (r: Result<AccessToken, String>)
        ensures
            r matches Ok(t) ==> access_token_of_json(JsonValV::Obj(json_obj_view(members@)))
                == Some(t@),
            r is Ok <==> access_token_of_json(JsonValV::Obj(json_obj_view(members@))) is Some,
    {
        let ghost msv = json_obj_view(members@);
        let jti = get_req_string(members, "jti")?;
        let iss = get_req_string(members, "iss")?;
        let aud = get_req_string(members, "aud")?;
        let scope = get_req_string_list(members, "scope")?;
        let client_id = get_req_string(members, "client_id")?;
        let exp = get_req_long(members, "exp")?;
        let iat = get_req_long(members, "iat")?;
        let mut extra: Vec<(String, JsonVal)> = Vec::new();
        let mut idx: usize = 0;
        proof {
            crate::json::lemma_json_obj_view(members@);
            assert(json_obj_view(extra@) =~= extra_of(msv.take(0), access_keys()));
        }
        while idx < members.len()
            invariant
                idx <= members.len(),
                msv == json_obj_view(members@),
                msv.len() == members@.len(),
                forall|i: int|
                    0 <= i < members@.len()
                        ==> msv[i] == (members@[i].0@, json_view(members@[i].1)),
                json_obj_view(extra@) == extra_of(msv.take(idx as int), access_keys()),
            decreases members.len() - idx,
        {
            let ghost prefix = msv.take(idx as int);
            if !is_access_key(members[idx].0.as_str()) {
                let k = members[idx].0.clone();
                let d = members[idx].1.duplicate();
                proof {
                    crate::json::lemma_json_obj_view_push(extra@, (k, d));
                }
                extra.push((k, d));
            }
            proof {
                assert(msv.take(idx + 1) =~= prefix + seq![msv[idx as int]]);
                lemma_extra_of_concat(prefix, seq![msv[idx as int]], access_keys());
                lemma_extra_of_single(msv[idx as int], access_keys());
            }
            idx += 1;
        }
        proof {
            assert(msv.take(members@.len() as int) =~= msv);
        }
        Ok(AccessToken { jti, iss, aud, scope, client_id, exp, iat, extra })
    }
}

/// Why an entity could not be created from claim data.
#[derive(Debug)]
pub enum EntityCreatingError {
    /// The entity's identity could not be constructed.
    CreateFromJson(String),
    /// The entity could not be built from its attribute values.
    NewEntity(String),
}

/// Sorts a boundary failure into the creation error taxonomy: a
/// rejected identity is a creation-from-data failure, everything else a
/// construction failure.
fn creating_error(err: BuildEntityError) -> (r: EntityCreatingError)
    ensures
        r is CreateFromJson <==> err is BadUid,
{
    match err {
        BuildEntityError::BadUid(s) => EntityCreatingError::CreateFromJson(s),
        BuildEntityError::BadValue(s) => EntityCreatingError::NewEntity(s),
    }
}

/// The attribute value holding a set of strings.
pub open spec fn strings_attr(ss: Seq<Seq<char>>) -> AttrValueV {
    AttrValueV::SetVal(ss.map_values(|s: Seq<char>| AttrValueV::StrVal(s)))
}

/// Builds the attribute value holding a set of strings.
pub(crate) fn strings_attr_value(ss: &Vec<String>) -> (r: AttrValue)
    ensures
        r@ == strings_attr(ss@.map_values(|s: String| s@)),
{
    let mut items: Vec<AttrValue> = Vec::new();
    let mut idx: usize = 0;
    while idx < ss.len()
        invariant
            idx <= ss.len(),
            items@.len() == idx,
            forall|i: int| 0 <= i < idx ==> attr_view(items@[i]) == AttrValueV::StrVal(ss@[i]@),
        decreases ss.len() - idx,
    {
        items.push(AttrValue::StrVal(ss[idx].clone()));
        idx += 1;
    }
    proof {
        lemma_attr_seq_view(items@);
        assert(attr_seq_view(items@) =~= ss@.map_values(|s: String| s@).map_values(
            |s: Seq<char>| AttrValueV::StrVal(s),
        ));
    }
    AttrValue::SetVal(items)
}

/// The entity synthesized from an id token: identity `(IdToken,
/// token id)`, the modeled claims as attributes with the optional ones
/// present only when the claim is, and no parents.
pub open spec fn id_token_entity_v(t: IdTokenV) -> EntityV {
    EntityV {
        uid: EntityIdentV { etype: "IdToken"@, eid: t.jti },
        attrs: {
            let base = seq![
                ("jti"@, AttrValueV::StrVal(t.jti)),
                ("aud"@, AttrValueV::StrVal(t.aud)),
                ("sub"@, AttrValueV::StrVal(t.sub)),
                ("iat"@, AttrValueV::LongVal(t.iat)),
                ("exp"@, AttrValueV::LongVal(t.exp)),
                ("amr"@, strings_attr(t.amr)),
            ];
            let with_azp = match t.azp {
                Some(z) => base.push(("azp"@, AttrValueV::StrVal(z))),
                None => base,
            };
            match t.acr {
                Some(a) => with_azp.push(("acr"@, AttrValueV::StrVal(a))),
                None => with_azp,
            }
        },
        parents: Seq::empty(),
    }
}

impl IdToken {
    /// Synthesizes the id-token entity, exactly as
    /// [`id_token_entity_v`] says, paired with the engine's form of it;
    /// fails exactly when the entity cannot be handed to the engine.
    pub fn get_token_entity(self) -> (r: Result<BuiltEntity, EntityCreatingError>)
        ensures
            r matches Ok(b) ==> b.model_view() == id_token_entity_v(self@),
            r is Ok <==> entity_convertible(id_token_entity_v(self@)),
    {
        let uid = EntityIdent::of("IdToken", self.jti.as_str());
        let mut attrs: Vec<(String, AttrValue)> = Vec::new();
        attrs.push(("jti".to_owned(), AttrValue::StrVal(self.jti.clone())));
        attrs.push(("aud".to_owned(), AttrValue::StrVal(self.aud.clone())));
        attrs.push(("sub".to_owned(), AttrValue::StrVal(self.sub.clone())));
        attrs.push(("iat".to_owned(), AttrValue::LongVal(self.iat)));
        attrs.push(("exp".to_owned(), AttrValue::LongVal(self.exp)));
        attrs.push(("amr".to_owned(), strings_attr_value(&self.amr)));
        match &self.azp {
            Some(z) => attrs.push(("azp".to_owned(), AttrValue::StrVal(z.clone()))),
            None => (),
        }
        match &self.acr {
            Some(a) => attrs.push(("acr".to_owned(), AttrValue::StrVal(a.clone()))),
            None => (),
        }
        let ent = Entity { uid, attrs, parents: Vec::new() };
        proof {
            lemma_attr_map_view(ent.attrs@);
            assert(ent@.attrs =~= id_token_entity_v(self@).attrs);
            assert(ent@.parents =~= Seq::<EntityIdentV>::empty());
        }
        match build_entity(ent) {
            Ok(b) => Ok(b),
            Err(e) => Err(creating_error(e)),
        }
    }
}

/// The claim conversion applied to the unmodeled members of a claim
/// record: each member whose value converts becomes an attribute, the
/// others are dropped.
pub open spec fn extra_attrs(ms: Seq<(Seq<char>, JsonValV)>) -> Seq<(Seq<char>, AttrValueV)>
    decreases ms,
{
    if ms.len() == 0 {
        Seq::empty()
    } else {
        match attr_of_json(ms[0].1) {
            Some(a) => seq![(ms[0].0, a)] + extra_attrs(ms.drop_first()),
            None => extra_attrs(ms.drop_first()),
        }
    }
}

pub proof fn lemma_extra_attrs_concat(a: Seq<(Seq<char>, JsonValV)>, b: Seq<(Seq<char>, JsonValV)>)
    ensures
        extra_attrs(a + b) == extra_attrs(a) + extra_attrs(b),
    decreases a,
{
    if a.len() == 0 {
        assert(a + b =~= b);
        assert(extra_attrs(a) + extra_attrs(b) =~= extra_attrs(b));
    } else {
        assert((a + b).drop_first() =~= a.drop_first() + b);
        lemma_extra_attrs_concat(a.drop_first(), b);
        assert((a + b)[0] == a[0]);
        match attr_of_json(a[0].1) {
            Some(x) => {
                assert(seq![(a[0].0, x)] + (extra_attrs(a.drop_first()) + extra_attrs(b))
                    =~= (seq![(a[0].0, x)] + extra_attrs(a.drop_first())) + extra_attrs(b));
            },
            None => {},
        }
    }
}

pub proof fn lemma_extra_attrs_single(m: (Seq<char>, JsonValV))
    ensures
        attr_of_json(m.1) matches Some(a) ==> extra_attrs(seq![m]) == seq![(m.0, a)],
        attr_of_json(m.1) is None ==> extra_attrs(seq![m]) == Seq::<(Seq<char>, AttrValueV)>::empty(),
{
    reveal_with_fuel(extra_attrs, 2);
    assert(seq![m].drop_first() =~= Seq::<(Seq<char>, JsonValV)>::empty());
    assert(seq![m][0] == m);
    match attr_of_json(m.1) {
        Some(a) => {
            assert(extra_attrs(seq![m]) =~= seq![(m.0, a)]);
        },
        None => {},
    }
}

/// The principal entity synthesized from a userinfo token: identity
/// `(User, user id)`, the subject plus every convertible unmodeled
/// claim as attributes, and the given roles as parents.
pub open spec fn user_entity_v(t: UserInfoTokenV, roles: Seq<EntityIdentV>) -> EntityV {
    EntityV {
        uid: EntityIdentV { etype: "User"@, eid: t.inum },
        attrs: seq![("sub"@, AttrValueV::StrVal(t.sub))] + extra_attrs(t.extra),
        parents: roles,
    }
}

impl UserInfoToken {
    /// Synthesizes the principal entity, exactly as [`user_entity_v`]
    /// says, paired with the engine's form of it; fails exactly when
    /// the entity cannot be handed to the engine.
    pub fn get_user_entity(self, roles: &Vec<EntityIdent>) -> (r: Result<
        BuiltEntity,
        EntityCreatingError,
    >)
        ensures
            r matches Ok(b) ==> b.model_view() == user_entity_v(
                self@,
                roles@.map_values(|p: EntityIdent| p@),
            ),
            r is Ok <==> entity_convertible(
                user_entity_v(self@, roles@.map_values(|p: EntityIdent| p@)),
            ),
    {
        let ghost rolesv = roles@.map_values(|p: EntityIdent| p@);
        let uid = EntityIdent::of("User", self.inum.as_str());
        let mut attrs: Vec<(String, AttrValue)> = Vec::new();
        attrs.push(("sub".to_owned(), AttrValue::StrVal(self.sub.clone())));
        let ghost extrav = json_obj_view(self.extra@);
        proof {
            crate::json::lemma_json_obj_view(self.extra@);
            lemma_attr_map_view(attrs@);
            assert(attr_map_view(attrs@) =~= seq![("sub"@, AttrValueV::StrVal(self.sub@))]
                + extra_attrs(extrav.take(0)));
        }
        let mut idx: usize = 0;
        while idx < self.extra.len()
            invariant
                idx <= self.extra.len(),
                extrav == json_obj_view(self.extra@),
                extrav.len() == self.extra@.len(),
                forall|i: int|
                    0 <= i < self.extra@.len()
                        ==> extrav[i] == (self.extra@[i].0@, json_view(self.extra@[i].1)),
                attr_map_view(attrs@) == seq![("sub"@, AttrValueV::StrVal(self.sub@))]
                    + extra_attrs(extrav.take(idx as int)),
            decreases self.extra.len() - idx,
        {
            let ghost prefix = extrav.take(idx as int);
            match attr_from_json(&self.extra[idx].1) {
                Some(a) => {
                    let k = self.extra[idx].0.clone();
                    proof {
                        lemma_attr_map_view_push(attrs@, (k, a));
                    }
                    attrs.push((k, a));
                },
                None => (),
            }
            proof {
                assert(extrav.take(idx + 1) =~= prefix + seq![extrav[idx as int]]);
                lemma_extra_attrs_concat(prefix, seq![extrav[idx as int]]);
                lemma_extra_attrs_single(extrav[idx as int]);
            }
            idx += 1;
        }
        proof {
            assert(extrav.take(self.extra@.len() as int) =~= extrav);
        }
        let mut parents: Vec<EntityIdent> = Vec::new();
        let mut k: usize = 0;
        while k < roles.len()
            invariant
                k <= roles.len(),
                parents@.len() == k,
                forall|i: int| 0 <= i < k ==> parents@[i]@ == roles@[i]@,
            decreases roles.len() - k,
        {
            let p = roles[k].duplicate();
            parents.push(p);
            k += 1;
        }
        let ent = Entity { uid, attrs, parents };
        proof {
            assert(ent@.parents =~= rolesv);
            assert(ent@ == user_entity_v(self@, rolesv));
        }
        match build_entity(ent) {
            Ok(b) => Ok(b),
            Err(e) => Err(creating_error(e)),
        }
    }
}

/// The client entity synthesized from an access token: identity
/// `(Client, audience)`, the client id and issuer as attributes, and no
/// parents.
pub open spec fn client_entity_v(t: AccessTokenV) -> EntityV {
    EntityV {
        uid: EntityIdentV { etype: "Client"@, eid: t.aud },
        attrs: seq![
            ("client_id"@, AttrValueV::StrVal(t.client_id)),
            ("iss"@, AttrValueV::StrVal(t.iss)),
        ],
        parents: Seq::empty(),
    }
}

/// The application entity synthesized from an access token when an
/// application name is configured: identity `(Application, audience)`,
/// the configured name and a reference to the client entity as
/// attributes, and no parents.
pub open spec fn application_entity_v(
    t: AccessTokenV,
    name: Seq<char>,
    client: EntityIdentV,
) -> EntityV {
    EntityV {
        uid: EntityIdentV { etype: "Application"@, eid: t.aud },
        attrs: seq![
            ("name"@, AttrValueV::StrVal(name)),
            ("client"@, AttrValueV::EntityRef(client)),
        ],
        parents: Seq::empty(),
    }
}

impl AccessToken {
    /// Synthesizes the client entity, exactly as [`client_entity_v`]
    /// says, paired with the engine's form of it; fails exactly when
    /// the entity cannot be handed to the engine.
    pub fn get_client_entity(&self) -> (r: Result<BuiltEntity, EntityCreatingError>)
        ensures
            r matches Ok(b) ==> b.model_view() == client_entity_v(self@),
            r is Ok <==> entity_convertible(client_entity_v(self@)),
    {
        let uid = EntityIdent::of("Client", self.aud.as_str());
        let mut attrs: Vec<(String, AttrValue)> = Vec::new();
        attrs.push(("client_id".to_owned(), AttrValue::StrVal(self.client_id.clone())));
        attrs.push(("iss".to_owned(), AttrValue::StrVal(self.iss.clone())));
        let ent = Entity { uid, attrs, parents: Vec::new() };
        proof {
            lemma_attr_map_view(ent.attrs@);
            assert(ent@.attrs =~= client_entity_v(self@).attrs);
            assert(ent@.parents =~= Seq::<EntityIdentV>::empty());
        }
        match build_entity(ent) {
            Ok(b) => Ok(b),
            Err(e) => Err(creating_error(e)),
        }
    }

    /// Synthesizes the application entity, exactly as
    /// [`application_entity_v`] says, paired with the engine's form of
    /// it; fails exactly when the entity cannot be handed to the
    /// engine.
    pub fn get_application_entity(&self, application_name: &str, client_uid: EntityIdent) -> (r:
        Result<BuiltEntity, EntityCreatingError>)
        ensures
            r matches Ok(b) ==> b.model_view() == application_entity_v(
                self@,
                application_name@,
                client_uid@,
            ),
            r is Ok <==> entity_convertible(
                application_entity_v(self@, application_name@, client_uid@),
            ),
    {
        let uid = EntityIdent::of("Application", self.aud.as_str());
        let mut attrs: Vec<(String, AttrValue)> = Vec::new();
        attrs.push(("name".to_owned(), AttrValue::StrVal(application_name.to_owned())));
        attrs.push(("client".to_owned(), AttrValue::EntityRef(client_uid)));
        let ent = Entity { uid, attrs, parents: Vec::new() };
        proof {
            lemma_attr_map_view(ent.attrs@);
            assert(ent@.attrs =~= application_entity_v(
                self@,
                application_name@,
                client_uid@,
            ).attrs);
            assert(ent@.parents =~= Seq::<EntityIdentV>::empty());
        }
        match build_entity(ent) {
            Ok(b) => Ok(b),
            Err(e) => Err(creating_error(e)),
        }
    }
}

/// Entity identity determinism, part one: the identity of each
/// synthesized entity is a function of one claim of its token alone —
/// the id-token entity is named by the token id, the principal by the
/// user id, and the client and application by the audience.
pub proof fn lemma_entity_identities(
    idt: IdTokenV,
    uit: UserInfoTokenV,
    att: AccessTokenV,
    roles: Seq<EntityIdentV>,
    name: Seq<char>,
    client: EntityIdentV,
)
    ensures
        id_token_entity_v(idt).uid == (EntityIdentV { etype: "IdToken"@, eid: idt.jti }),
        user_entity_v(uit, roles).uid == (EntityIdentV { etype: "User"@, eid: uit.inum }),
        client_entity_v(att).uid == (EntityIdentV { etype: "Client"@, eid: att.aud }),
        application_entity_v(att, name, client).uid == (EntityIdentV {
            etype: "Application"@,
            eid: att.aud,
        }),
{
}

/// Entity identity determinism, part two: two syntheses from identical
/// claim values produce identical entities — the same identities and
/// the same attribute sets.
pub proof fn lemma_synthesis_deterministic(
    idt1: IdTokenV,
    uit1: UserInfoTokenV,
    att1: AccessTokenV,
    idt2: IdTokenV,
    uit2: UserInfoTokenV,
    att2: AccessTokenV,
    roles: Seq<EntityIdentV>,
    name: Seq<char>,
    client: EntityIdentV,
)
    requires
        idt1 == idt2,
        uit1 == uit2,
        att1 == att2,
    ensures
        id_token_entity_v(idt1) == id_token_entity_v(idt2),
        user_entity_v(uit1, roles) == user_entity_v(uit2, roles),
        client_entity_v(att1) == client_entity_v(att2),
        application_entity_v(att1, name, client) == application_entity_v(att2, name, client),
{
}

} // verus!
