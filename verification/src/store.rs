//! Loading the baseline entity graph.
//!
//! The baseline is given as a JSON document: an array of entities, each
//! an object with a required `uid`, an optional `attrs` object, and an
//! optional `parents` array.  An identity is written as an object with
//! exactly a `type` and an `id` string.  An attribute value is a
//! boolean, an integral number, a string, a non-integral number (a
//! fixed-point decimal the engine must accept), an array (a set), an
//! object with exactly a `__entity` member (an entity reference), or
//! any other object (a record); `null` is rejected, and so is any
//! object holding the engine's `__extn` escape key — extension values
//! other than decimals are not part of this dialect.  Members of an
//! entity object other than `uid`, `attrs` and `parents` are ignored.
//! Identities in the baseline must be pairwise distinct and their
//! parent hierarchy acyclic.

use vstd::prelude::*;
use crate::cedar::{
    build_entity, built_models, entity_convertible, graph_dag_ok, models_convertible, Baseline,
    BuiltEntity,
};
use crate::entities::{
    attr_map_view, attr_seq_view, ents_view, lemma_attr_map_view, uids_distinct, AttrValue,
    AttrValueV, Entity, EntityIdent, EntityIdentV, EntityV,
};
use crate::json::{
    json_obj_view, json_seq_view, json_view, obj_get, obj_lookup, JsonVal, JsonValV,
};
use crate::tokens::req_string;

verus! {

/// The identity an identity object denotes, if well formed: an object
/// with exactly a `type` and an `id` string.
pub open spec fn uid_of_json(v: JsonValV) -> Option<EntityIdentV> {
    match v {
        JsonValV::Obj(ms) => match (req_string(ms, "type"@), req_string(ms, "id"@)) {
            (Some(t), Some(i)) => if ms.len() == 2 {
                Some(EntityIdentV { etype: t, eid: i })
            } else {
                None
            },
            _ => None,
        },
        _ => None,
    }
}

/// The attribute value a baseline JSON value denotes, if representable.
pub open spec fn battr_of_json(v: JsonValV) -> Option<AttrValueV>
    decreases v, 1int,
{
    match v {
        JsonValV::Null => None,
        JsonValV::Bool(b) => Some(AttrValueV::BoolVal(b)),
        JsonValV::Int(i) => Some(AttrValueV::LongVal(i)),
        JsonValV::Dec(s) => Some(AttrValueV::DecimalVal(s)),
        JsonValV::Str(s) => Some(AttrValueV::StrVal(s)),
        JsonValV::Arr(items) => match battrs_of_json(items) {
            Some(xs) => Some(AttrValueV::SetVal(xs)),
            None => None,
        },
        JsonValV::Obj(ms) => if obj_lookup(ms, "__extn"@) is Some {
            None
        } else {
            match obj_lookup(ms, "__entity"@) {
                Some(u) => if ms.len() == 1 {
                    match uid_of_json(u) {
                        Some(uid) => Some(AttrValueV::EntityRef(uid)),
                        None => None,
                    }
                } else {
                    None
                },
                None => match bmembers_of_json(ms) {
                    Some(fields) => Some(AttrValueV::RecordVal(fields)),
                    None => None,
                },
            }
        },
    }
}

/// The baseline attribute conversion applied to every element of an
/// array; unlike the claim conversion it is strict: one bad element
/// rejects the whole array.
pub open spec fn battrs_of_json(items: Seq<JsonValV>) -> Option<Seq<AttrValueV>>
    decreases items, 0int,
{
    if items.len() == 0 {
        Some(Seq::empty())
    } else {
        match (battr_of_json(items[0]), battrs_of_json(items.drop_first())) {
            (Some(x), Some(rest)) => Some(seq![x] + rest),
            _ => None,
        }
    }
}

/// The baseline attribute conversion applied to every member of an
/// object, strictly.
pub open spec fn bmembers_of_json(ms: Seq<(Seq<char>, JsonValV)>) -> Option<
    Seq<(Seq<char>, AttrValueV)>,
>
    decreases ms, 0int,
{
    if ms.len() == 0 {
        Some(Seq::empty())
    } else {
        match (battr_of_json(ms[0].1), bmembers_of_json(ms.drop_first())) {
            (Some(x), Some(rest)) => Some(seq![(ms[0].0, x)] + rest),
            _ => None,
        }
    }
}

/// The identities an array of identity objects denotes, strictly.
pub open spec fn uids_of_json(items: Seq<JsonValV>) -> Option<Seq<EntityIdentV>>
    decreases items,
{
    if items.len() == 0 {
        Some(Seq::empty())
    } else {
        match (uid_of_json(items[0]), uids_of_json(items.drop_first())) {
            (Some(u), Some(rest)) => Some(seq![u] + rest),
            _ => None,
        }
    }
}

/// The entity an entity object denotes, if well formed.
pub open spec fn entity_of_json(v: JsonValV) -> Option<EntityV> {
    match v {
        JsonValV::Obj(ms) => match obj_lookup(ms, "uid"@) {
            Some(u) => match uid_of_json(u) {
                Some(uid) => {
                    let attrs = match obj_lookup(ms, "attrs"@) {
                        None => Some(Seq::<(Seq<char>, AttrValueV)>::empty()),
                        Some(JsonValV::Obj(ams)) => bmembers_of_json(ams),
                        Some(_) => None,
                    };
                    let parents = match obj_lookup(ms, "parents"@) {
                        None => Some(Seq::<EntityIdentV>::empty()),
                        Some(JsonValV::Arr(ps)) => uids_of_json(ps),
                        Some(_) => None,
                    };
                    match (attrs, parents) {
                        (Some(a), Some(p)) => Some(EntityV { uid, attrs: a, parents: p }),
                        _ => None,
                    }
                },
                None => None,
            },
            None => None,
        },
        _ => None,
    }
}

/// The entity graph a baseline document denotes, if well formed: an
/// array of entity objects.
pub open spec fn graph_of_json(v: JsonValV) -> Option<Seq<EntityV>>
    decreases v,
{
    match v {
        JsonValV::Arr(items) => entities_of_json(items),
        _ => None,
    }
}

/// The entities an array of entity objects denotes, strictly.
pub open spec fn entities_of_json(items: Seq<JsonValV>) -> Option<Seq<EntityV>>
    decreases items,
{
    if items.len() == 0 {
        Some(Seq::empty())
    } else {
        match (entity_of_json(items[0]), entities_of_json(items.drop_first())) {
            (Some(e), Some(rest)) => Some(seq![e] + rest),
            _ => None,
        }
    }
}

/// Reads an identity object, exactly as [`uid_of_json`] says.
pub(crate) fn uid_from_json(v: &JsonVal) -> (r: Result<EntityIdent, String>)
    ensures
        r matches Ok(u) ==> uid_of_json(json_view(*v)) == Some(u@),
        r is Ok <==> uid_of_json(json_view(*v)) is Some,
{
    match v {
        JsonVal::Obj(members) => {
            let t = match obj_get(members, "type") {
                Some(x) => match x {
                    JsonVal::Str(s) => s.clone(),
                    _ => {
                        return Err("an identity's type is not a string".to_owned());
                    },
                },
                None => {
                    return Err("an identity has no type".to_owned());
                },
            };
            let i = match obj_get(members, "id") {
                Some(x) => match x {
                    JsonVal::Str(s) => s.clone(),
                    _ => {
                        return Err("an identity's id is not a string".to_owned());
                    },
                },
                None => {
                    return Err("an identity has no id".to_owned());
                },
            };
            if members.len() != 2 {
                proof {
                    crate::json::lemma_json_obj_view(members@);
                }
                return Err("an identity object has members besides type and id".to_owned());
            }
            proof {
                crate::json::lemma_json_obj_view(members@);
            }
            Ok(EntityIdent { etype: t, eid: i })
        },
        _ => Err("an identity is not a JSON object".to_owned()),
    }
}

proof fn lemma_battrs_concat(a: Seq<JsonValV>, b: Seq<JsonValV>)
    ensures
        battrs_of_json(a + b) == match (battrs_of_json(a), battrs_of_json(b)) {
            (Some(x), Some(y)) => Some::<Seq<AttrValueV>>(x + y),
            _ => None::<Seq<AttrValueV>>,
        },
    decreases a,
{
    if a.len() == 0 {
        assert(a + b =~= b);
        if battrs_of_json(b) is Some {
            assert(Seq::<AttrValueV>::empty() + battrs_of_json(b)->Some_0
                =~= battrs_of_json(b)->Some_0);
        }
    } else {
        assert((a + b).drop_first() =~= a.drop_first() + b);
        lemma_battrs_concat(a.drop_first(), b);
        assert((a + b)[0] == a[0]);
        match (battr_of_json(a[0]), battrs_of_json(a.drop_first()), battrs_of_json(b)) {
            (Some(x), Some(y), Some(z)) => {
                assert(seq![x] + (y + z) =~= (seq![x] + y) + z);
            },
            _ => {},
        }
    }
}

proof fn lemma_battrs_single(x: JsonValV)
    ensures
        battr_of_json(x) matches Some(a) ==> battrs_of_json(seq![x]) == Some(seq![a]),
        battr_of_json(x) is None ==> battrs_of_json(seq![x]) is None,
{
    reveal_with_fuel(battrs_of_json, 2);
    assert(seq![x].drop_first() =~= Seq::<JsonValV>::empty());
    assert(seq![x][0] == x);
    match battr_of_json(x) {
        Some(a) => {
            assert(battrs_of_json(seq![x])->Some_0 =~= seq![a]);
        },
        None => {},
    }
}

proof fn lemma_bmembers_concat(a: Seq<(Seq<char>, JsonValV)>, b: Seq<(Seq<char>, JsonValV)>)
    ensures
        bmembers_of_json(a + b) == match (bmembers_of_json(a), bmembers_of_json(b)) {
            (Some(x), Some(y)) => Some::<Seq<(Seq<char>, AttrValueV)>>(x + y),
            _ => None::<Seq<(Seq<char>, AttrValueV)>>,
        },
    decreases a,
{
    if a.len() == 0 {
        assert(a + b =~= b);
        if bmembers_of_json(b) is Some {
            assert(Seq::<(Seq<char>, AttrValueV)>::empty() + bmembers_of_json(b)->Some_0
                =~= bmembers_of_json(b)->Some_0);
        }
    } else {
        assert((a + b).drop_first() =~= a.drop_first() + b);
        lemma_bmembers_concat(a.drop_first(), b);
        assert((a + b)[0] == a[0]);
        match (battr_of_json(a[0].1), bmembers_of_json(a.drop_first()), bmembers_of_json(b)) {
            (Some(x), Some(y), Some(z)) => {
                assert(seq![(a[0].0, x)] + (y + z) =~= (seq![(a[0].0, x)] + y) + z);
            },
            _ => {},
        }
    }
}

proof fn lemma_bmembers_single(m: (Seq<char>, JsonValV))
    ensures
        battr_of_json(m.1) matches Some(a) ==> bmembers_of_json(seq![m]) == Some(
            seq![(m.0, a)],
        ),
        battr_of_json(m.1) is None ==> bmembers_of_json(seq![m]) is None,
{
    reveal_with_fuel(bmembers_of_json, 2);
    assert(seq![m].drop_first() =~= Seq::<(Seq<char>, JsonValV)>::empty());
    assert(seq![m][0] == m);
    match battr_of_json(m.1) {
        Some(a) => {
            assert(bmembers_of_json(seq![m])->Some_0 =~= seq![(m.0, a)]);
        },
        None => {},
    }
}

proof fn lemma_uids_concat(a: Seq<JsonValV>, b: Seq<JsonValV>)
    ensures
        uids_of_json(a + b) == match (uids_of_json(a), uids_of_json(b)) {
            (Some(x), Some(y)) => Some::<Seq<EntityIdentV>>(x + y),
            _ => None::<Seq<EntityIdentV>>,
        },
    decreases a,
{
    if a.len() == 0 {
        assert(a + b =~= b);
        if uids_of_json(b) is Some {
            assert(Seq::<EntityIdentV>::empty() + uids_of_json(b)->Some_0
                =~= uids_of_json(b)->Some_0);
        }
    } else {
        assert((a + b).drop_first() =~= a.drop_first() + b);
        lemma_uids_concat(a.drop_first(), b);
        assert((a + b)[0] == a[0]);
        match (uid_of_json(a[0]), uids_of_json(a.drop_first()), uids_of_json(b)) {
            (Some(x), Some(y), Some(z)) => {
                assert(seq![x] + (y + z) =~= (seq![x] + y) + z);
            },
            _ => {},
        }
    }
}

proof fn lemma_uids_single(x: JsonValV)
    ensures
        uid_of_json(x) matches Some(u) ==> uids_of_json(seq![x]) == Some(seq![u]),
        uid_of_json(x) is None ==> uids_of_json(seq![x]) is None,
{
    reveal_with_fuel(uids_of_json, 2);
    assert(seq![x].drop_first() =~= Seq::<JsonValV>::empty());
    assert(seq![x][0] == x);
    match uid_of_json(x) {
        Some(u) => {
            assert(uids_of_json(seq![x])->Some_0 =~= seq![u]);
        },
        None => {},
    }
}

proof fn lemma_entities_concat(a: Seq<JsonValV>, b: Seq<JsonValV>)
    ensures
        entities_of_json(a + b) == match (entities_of_json(a), entities_of_json(b)) {
            (Some(x), Some(y)) => Some::<Seq<EntityV>>(x + y),
            _ => None::<Seq<EntityV>>,
        },
    decreases a,
{
    if a.len() == 0 {
        assert(a + b =~= b);
        if entities_of_json(b) is Some {
            assert(Seq::<EntityV>::empty() + entities_of_json(b)->Some_0
                =~= entities_of_json(b)->Some_0);
        }
    } else {
        assert((a + b).drop_first() =~= a.drop_first() + b);
        lemma_entities_concat(a.drop_first(), b);
        assert((a + b)[0] == a[0]);
        match (entity_of_json(a[0]), entities_of_json(a.drop_first()), entities_of_json(b)) {
            (Some(x), Some(y), Some(z)) => {
                assert(seq![x] + (y + z) =~= (seq![x] + y) + z);
            },
            _ => {},
        }
    }
}

proof fn lemma_entities_single(x: JsonValV)
    ensures
        entity_of_json(x) matches Some(e) ==> entities_of_json(seq![x]) == Some(seq![e]),
        entity_of_json(x) is None ==> entities_of_json(seq![x]) is None,
{
    reveal_with_fuel(entities_of_json, 2);
    assert(seq![x].drop_first() =~= Seq::<JsonValV>::empty());
    assert(seq![x][0] == x);
    match entity_of_json(x) {
        Some(e) => {
            assert(entities_of_json(seq![x])->Some_0 =~= seq![e]);
        },
        None => {},
    }
}

/// Reads a baseline attribute value, exactly as [`battr_of_json`] says.
fn battr_from_json(v: &JsonVal) -> (r: Result<AttrValue, String>)
    ensures
        r matches Ok(a) ==> battr_of_json(json_view(*v)) == Some(a@),
        r is Ok <==> battr_of_json(json_view(*v)) is Some,
    decreases *v,
{
    match v {
        JsonVal::Null => Err("null is not a baseline attribute value".to_owned()),
        JsonVal::Bool(b) => Ok(AttrValue::BoolVal(*b)),
        JsonVal::Int(i) => Ok(AttrValue::LongVal(*i)),
        JsonVal::Dec(s) => Ok(AttrValue::DecimalVal(s.clone())),
        JsonVal::Str(s) => Ok(AttrValue::StrVal(s.clone())),
        JsonVal::Arr(items) => {
            let ghost itemsv = json_seq_view(items@);
            proof {
                crate::json::lemma_json_seq_view(items@);
            }
            let mut out: Vec<AttrValue> = Vec::new();
            let mut idx: usize = 0;
            while idx < items.len()
                invariant
                    *v == JsonVal::Arr(*items),
                    idx <= items.len(),
                    itemsv == json_seq_view(items@),
                    itemsv.len() == items@.len(),
                    forall|i: int| 0 <= i < items@.len() ==> itemsv[i] == json_view(items@[i]),
                    battrs_of_json(itemsv.take(idx as int)) == Some(attr_seq_view(out@)),
                decreases items.len() - idx,
            {
                let ghost prefix = itemsv.take(idx as int);
                proof {
                    assert(decreases_to!(*v => items@[idx as int])) by {
                        assert(decreases_to!(*v => v->Arr_0));
                        assert(decreases_to!(*items => items@));
                        assert(decreases_to!(items@ => items@[idx as int]));
                    }
                }
                match battr_from_json(&items[idx]) {
                    Ok(a) => {
                        proof {
                            crate::entities::lemma_attr_seq_view_push(out@, a);
                        }
                        out.push(a);
                    },
                    Err(e) => {
                        proof {
                            lemma_battrs_single(itemsv[idx as int]);
                            assert(itemsv =~= itemsv.take(idx + 1) + itemsv.skip(idx + 1));
                            assert(itemsv.take(idx + 1) =~= prefix + seq![itemsv[idx as int]]);
                            lemma_battrs_concat(prefix, seq![itemsv[idx as int]]);
                            lemma_battrs_concat(itemsv.take(idx + 1), itemsv.skip(idx + 1));
                        }
                        return Err(e);
                    },
                }
                idx += 1;
                proof {
                    assert(itemsv.take(idx as int) =~= prefix + seq![itemsv[idx - 1]]);
                    lemma_battrs_concat(prefix, seq![itemsv[idx - 1]]);
                    lemma_battrs_single(itemsv[idx - 1]);
                }
            }
            proof {
                assert(itemsv.take(items@.len() as int) =~= itemsv);
            }
            Ok(AttrValue::SetVal(out))
        },
        JsonVal::Obj(members) => {
            let ghost msv = json_obj_view(members@);
            proof {
                crate::json::lemma_json_obj_view(members@);
            }
            match obj_get(members, "__extn") {
                Some(_) => {
                    return Err(
                        "an extension escape is not a baseline attribute value".to_owned(),
                    );
                },
                None => (),
            }
            match obj_get(members, "__entity") {
                Some(u) => {
                    if members.len() != 1 {
                        return Err(
                            "an entity reference has members besides __entity".to_owned(),
                        );
                    }
                    match uid_from_json(u) {
                        Ok(uid) => Ok(AttrValue::EntityRef(uid)),
                        Err(e) => Err(e),
                    }
                },
                None => {
                    proof {
                        assert(decreases_to!(*v => *members)) by {
                            assert(decreases_to!(*v => v->Obj_0));
                        }
                    }
                    match bmembers_from_json(members) {
                        Ok(fields) => Ok(AttrValue::RecordVal(fields)),
                        Err(e) => Err(e),
                    }
                },
            }
        },
    }
}

/// Reads an object's members as baseline attribute values, exactly as
/// [`bmembers_of_json`] says.
fn bmembers_from_json(members: &Vec<(String, JsonVal)>) -> (r: Result<
    Vec<(String, AttrValue)>,
    String,
>)
    ensures
        r matches Ok(fields) ==> bmembers_of_json(json_obj_view(members@)) == Some(
            attr_map_view(fields@),
        ),
        r is Ok <==> bmembers_of_json(json_obj_view(members@)) is Some,
    decreases *members,
{
    let ghost msv = json_obj_view(members@);
    proof {
        crate::json::lemma_json_obj_view(members@);
    }
    let mut fields: Vec<(String, AttrValue)> = Vec::new();
    let mut idx: usize = 0;
    proof {
        lemma_attr_map_view(fields@);
        assert(bmembers_of_json(msv.take(0)) == Some(attr_map_view(fields@)));
    }
    while idx < members.len()
        invariant
            idx <= members.len(),
            msv == json_obj_view(members@),
            msv.len() == members@.len(),
            forall|i: int|
                0 <= i < members@.len() ==> msv[i] == (members@[i].0@, json_view(members@[i].1)),
            bmembers_of_json(msv.take(idx as int)) == Some(attr_map_view(fields@)),
        decreases members.len() - idx,
    {
        let ghost prefix = msv.take(idx as int);
        proof {
            assert(decreases_to!(*members => members@[idx as int].1)) by {
                assert(decreases_to!(*members => members@));
                assert(decreases_to!(members@ => members@[idx as int]));
            }
        }
        let k = members[idx].0.clone();
        match battr_from_json(&members[idx].1) {
            Ok(a) => {
                proof {
                    crate::entities::lemma_attr_map_view_push(fields@, (k, a));
                }
                fields.push((k, a));
            },
            Err(e) => {
                proof {
                    lemma_bmembers_single(msv[idx as int]);
                    assert(msv =~= msv.take(idx + 1) + msv.skip(idx + 1));
                    assert(msv.take(idx + 1) =~= prefix + seq![msv[idx as int]]);
                    lemma_bmembers_concat(prefix, seq![msv[idx as int]]);
                    lemma_bmembers_concat(msv.take(idx + 1), msv.skip(idx + 1));
                }
                return Err(e);
            },
        }
        idx += 1;
        proof {
            assert(msv.take(idx as int) =~= prefix + seq![msv[idx - 1]]);
            lemma_bmembers_concat(prefix, seq![msv[idx - 1]]);
            lemma_bmembers_single(msv[idx - 1]);
        }
    }
    proof {
        assert(msv.take(members@.len() as int) =~= msv);
    }
    Ok(fields)
}

/// Reads an entity object, exactly as [`entity_of_json`] says.
fn entity_from_json(v: &JsonVal) -> (r: Result<Entity, String>)
    ensures
        r matches Ok(e) ==> entity_of_json(json_view(*v)) == Some(e@),
        r is Ok <==> entity_of_json(json_view(*v)) is Some,
{
    match v {
        JsonVal::Obj(members) => {
            let ghost msv = json_obj_view(members@);
            let uid = match obj_get(members, "uid") {
                Some(u) => uid_from_json(u)?,
                None => {
                    return Err("an entity has no uid".to_owned());
                },
            };
            let attrs: Vec<(String, AttrValue)> = match obj_get(members, "attrs") {
                None => Vec::new(),
                Some(a) => match a {
                    JsonVal::Obj(ams) => match bmembers_from_json(ams) {
                        Ok(fields) => fields,
                        Err(e) => {
                            return Err(e);
                        },
                    },
                    _ => {
                        return Err("an entity's attrs are not an object".to_owned());
                    },
                },
            };
            let parents: Vec<EntityIdent> = match obj_get(members, "parents") {
                None => Vec::new(),
                Some(p) => match p {
                    JsonVal::Arr(ps) => {
                        let ghost psv = json_seq_view(ps@);
                        proof {
                            crate::json::lemma_json_seq_view(ps@);
                        }
                        let mut out: Vec<EntityIdent> = Vec::new();
                        let mut idx: usize = 0;
                        while idx < ps.len()
                            invariant
                                idx <= ps.len(),
                                *v == JsonVal::Obj(*members),
                                msv == json_obj_view(members@),
                                obj_lookup(msv, "parents"@) == Some(JsonValV::Arr(psv)),
                                psv == json_seq_view(ps@),
                                psv.len() == ps@.len(),
                                forall|i: int|
                                    0 <= i < ps@.len() ==> psv[i] == json_view(ps@[i]),
                                uids_of_json(psv.take(idx as int)) == Some(
                                    out@.map_values(|u: EntityIdent| u@),
                                ),
                            decreases ps.len() - idx,
                        {
                            let ghost prefix = psv.take(idx as int);
                            match uid_from_json(&ps[idx]) {
                                Ok(u) => out.push(u),
                                Err(e) => {
                                    proof {
                                        lemma_uids_single(psv[idx as int]);
                                        assert(psv =~= psv.take(idx + 1) + psv.skip(idx + 1));
                                        assert(psv.take(idx + 1) =~= prefix + seq![psv[
                                            idx as int]]);
                                        lemma_uids_concat(prefix, seq![psv[idx as int]]);
                                        lemma_uids_concat(psv.take(idx + 1), psv.skip(idx + 1));
                                    }
                                    return Err(e);
                                },
                            }
                            idx += 1;
                            proof {
                                assert(psv.take(idx as int) =~= prefix + seq![psv[idx - 1]]);
                                lemma_uids_concat(prefix, seq![psv[idx - 1]]);
                                lemma_uids_single(psv[idx - 1]);
                                assert(out@.map_values(|u: EntityIdent| u@)
                                    =~= uids_of_json(prefix)->Some_0 + seq![uid_of_json(
                                    psv[idx - 1],
                                )->Some_0]);
                            }
                        }
                        proof {
                            assert(psv.take(ps@.len() as int) =~= psv);
                        }
                        out
                    },
                    _ => {
                        return Err("an entity's parents are not an array".to_owned());
                    },
                },
            };
            let e = Entity { uid, attrs, parents };
            proof {
                if (obj_lookup(msv, "attrs"@) is None) {
                    assert(e@.attrs =~= Seq::<(Seq<char>, AttrValueV)>::empty());
                }
                if (obj_lookup(msv, "parents"@) is None) {
                    assert(e@.parents =~= Seq::<EntityIdentV>::empty());
                }
                assert(entity_of_json(json_view(*v)) == Some(e@));
            }
            Ok(e)
        },
        _ => Err("an entity is not a JSON object".to_owned()),
    }
}

/// Reads a baseline document, exactly as [`graph_of_json`] says.
fn graph_from_json(v: &JsonVal) -> (r: Result<Vec<Entity>, String>)
    ensures
        r matches Ok(es) ==> graph_of_json(json_view(*v)) == Some(ents_view(es@)),
        r is Ok <==> graph_of_json(json_view(*v)) is Some,
{
    match v {
        JsonVal::Arr(items) => {
            let ghost itemsv = json_seq_view(items@);
            proof {
                crate::json::lemma_json_seq_view(items@);
            }
            let mut out: Vec<Entity> = Vec::new();
            let mut idx: usize = 0;
            while idx < items.len()
                invariant
                    idx <= items.len(),
                    *v == JsonVal::Arr(*items),
                    itemsv == json_seq_view(items@),
                    itemsv.len() == items@.len(),
                    forall|i: int| 0 <= i < items@.len() ==> itemsv[i] == json_view(items@[i]),
                    entities_of_json(itemsv.take(idx as int)) == Some(ents_view(out@)),
                decreases items.len() - idx,
            {
                let ghost prefix = itemsv.take(idx as int);
                match entity_from_json(&items[idx]) {
                    Ok(e) => {
                        let ghost pre = out@;
                        out.push(e);
                        proof {
                            assert(ents_view(out@) =~= ents_view(pre).push(e@));
                        }
                    },
                    Err(e) => {
                        proof {
                            lemma_entities_single(itemsv[idx as int]);
                            assert(itemsv =~= itemsv.take(idx + 1) + itemsv.skip(idx + 1));
                            assert(itemsv.take(idx + 1) =~= prefix + seq![itemsv[idx as int]]);
                            lemma_entities_concat(prefix, seq![itemsv[idx as int]]);
                            lemma_entities_concat(itemsv.take(idx + 1), itemsv.skip(idx + 1));
                        }
                        return Err(e);
                    },
                }
                idx += 1;
                proof {
                    assert(itemsv.take(idx as int) =~= prefix + seq![itemsv[idx - 1]]);
                    lemma_entities_concat(prefix, seq![itemsv[idx - 1]]);
                    lemma_entities_single(itemsv[idx - 1]);
                    assert(ents_view(out@) =~= entities_of_json(prefix)->Some_0
                        + seq![entity_of_json(itemsv[idx - 1])->Some_0]);
                }
            }
            proof {
                assert(itemsv.take(items@.len() as int) =~= itemsv);
            }
            Ok(out)
        },
        _ => Err("a baseline document is not a JSON array".to_owned()),
    }
}

/// Whether the identities of the listed entities are pairwise distinct.
fn check_distinct(es: &Vec<Entity>) -> (r: bool)
    ensures
        r == uids_distinct(ents_view(es@)),
{
    let mut k: usize = 0;
    while k < es.len()
        invariant
            k <= es.len(),
            forall|i: int, j: int|
                0 <= i < j < k ==> ents_view(es@)[i].uid != ents_view(es@)[j].uid,
        decreases es.len() - k,
    {
        let mut i: usize = 0;
        while i < k
            invariant
                i <= k < es@.len() as usize,
                forall|i2: int| 0 <= i2 < i ==> ents_view(es@)[i2].uid != ents_view(
                    es@,
                )[k as int].uid,
            decreases k - i,
        {
            if es[i].uid.same_as(&es[k].uid) {
                assert(ents_view(es@)[i as int].uid == ents_view(es@)[k as int].uid);
                return false;
            }
            i += 1;
        }
        k += 1;
    }
    true
}

/// Whether a baseline document is accepted: its text is JSON, the
/// document denotes an entity graph, the identities are pairwise
/// distinct, every entity can be handed to the engine, and the engine
/// accepts the parent hierarchy as acyclic.
pub open spec fn baseline_ok(s: Seq<char>) -> bool {
    &&& crate::json::json_of(s) matches Some(doc)
    &&& graph_of_json(crate::json::json_of(s)->Some_0) matches Some(g)
    &&& uids_distinct(graph_of_json(crate::json::json_of(s)->Some_0)->Some_0)
    &&& models_convertible(graph_of_json(crate::json::json_of(s)->Some_0)->Some_0)
    &&& graph_dag_ok(graph_of_json(crate::json::json_of(s)->Some_0)->Some_0)
}

/// Loads the baseline entity set from its JSON text; fails exactly when
/// [`baseline_ok`] says the document is not accepted: the text is not
/// JSON, the document denotes no entity graph, two entities share an
/// identity, an entity cannot be handed to the engine, or the parent
/// hierarchy has a cycle.
pub(crate) fn load_baseline(entities_json: &str) -> (r: Result<Baseline, String>)
    ensures
        r is Ok <==> baseline_ok(entities_json@),
        r matches Ok(b) ==> (crate::json::json_of(entities_json@) matches Some(doc)
            && graph_of_json(doc) matches Some(g) && b.graph_view() == g && uids_distinct(
            b.graph_view(),
        )),
{
    let cs = crate::jwt::chars_vec(entities_json);
    let doc = match crate::json::parse_json(&cs) {
        Ok(d) => d,
        Err(e) => {
            return Err(e);
        },
    };
    let ents = graph_from_json(&doc)?;
    let ghost g = ents_view(ents@);
    if !check_distinct(&ents) {
        return Err("two baseline entities share an identity".to_owned());
    }
    let mut built: Vec<BuiltEntity> = Vec::new();
    let mut idx: usize = 0;
    while idx < ents.len()
        invariant
            crate::json::json_of(entities_json@) is Some,
            graph_of_json(crate::json::json_of(entities_json@)->Some_0) == Some(g),
            uids_distinct(g),
            g == ents_view(ents@),
            g.len() == ents@.len(),
            idx <= ents.len(),
            built@.len() == idx,
            forall|i: int| 0 <= i < idx ==> built@[i].model_view() == g[i],
            forall|i: int| 0 <= i < idx ==> entity_convertible(#[trigger] g[i]),
        decreases ents.len() - idx,
    {
        let m = ents[idx].duplicate();
        match build_entity(m) {
            Ok(b) => built.push(b),
            Err(err) => {
                proof {
                    assert(!entity_convertible(g[idx as int]));
                    assert(!models_convertible(g));
                }
                return Err(
                    match err {
                        crate::cedar::BuildEntityError::BadUid(s) => s,
                        crate::cedar::BuildEntityError::BadValue(s) => s,
                    },
                );
            },
        }
        idx += 1;
    }
    proof {
        assert(built_models(built@) =~= g);
    }
    match Baseline::from_built(built) {
        Ok(b) => Ok(b),
        Err(m) => Err(m),
    }
}

} // verus!
