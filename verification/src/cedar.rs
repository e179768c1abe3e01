//! The boundary to the external ABAC engine.
//!
//! Everything the engine computes — identifier parsing, policy parsing,
//! expression evaluation, and the evaluation of requests — is reached
//! through the trusted items in this module.  The verified conversions
//! below them turn this crate's entity model into the engine's values.
//!
//! Three crate types carry the boundary's invariants: an [`EngineExpr`]
//! always holds an expression the engine can evaluate, a [`BuiltEntity`]
//! pairs an entity of the model with the engine's form built from it,
//! and a [`Baseline`] pairs a whole model graph with its engine form.
//! Their fields are private, so every value comes from the constructors
//! that establish the pairing.

use vstd::prelude::*;
use std::str::FromStr;
use cedar_policy::Entity as CedarEntity;
use crate::entities::{
    attr_map_view, attr_seq_view, attr_view, ents_view, lemma_attr_map_view,
    lemma_attr_seq_view, merge_collision, uids_distinct, AttrValue, AttrValueV, Entity,
    EntityGraph, EntityIdent, EntityV,
};
use crate::json::{json_obj_view, json_seq_view, json_view, str_eq, JsonVal, JsonValV};

verus! {

#[verifier::external_type_specification]
#[verifier::external_body]
pub struct ExEntityUid(cedar_policy::EntityUid);

#[verifier::external_type_specification]
#[verifier::external_body]
pub struct ExCedarEntity(CedarEntity);

#[verifier::external_type_specification]
#[verifier::external_body]
pub struct ExEntities(cedar_policy::Entities);

#[verifier::external_type_specification]
#[verifier::external_body]
pub struct ExRestrictedExpression(cedar_policy::RestrictedExpression);

#[verifier::external_type_specification]
#[verifier::external_body]
pub struct ExPolicySet(cedar_policy::PolicySet);

#[verifier::external_type_specification]
#[verifier::external_body]
pub struct ExContext(cedar_policy::Context);

#[verifier::external_type_specification]
#[verifier::external_body]
pub struct ExRequest(cedar_policy::Request);

#[verifier::external_type_specification]
#[verifier::external_body]
pub struct ExResponse(cedar_policy::Response);

/// Whether `cedar_policy::EntityUid::from_str` accepts a given text as
/// a normalized `Type::"id"` identity literal of the engine's grammar.
pub uninterp spec fn uid_literal_ok(s: Seq<char>) -> bool;

/// Whether `cedar_policy::EntityTypeName::from_str` accepts a given
/// text as a normalized entity type name.
pub uninterp spec fn type_name_ok(t: Seq<char>) -> bool;

/// Whether `cedar_policy::PolicySet::from_str` accepts a given text as
/// a policy set.
pub uninterp spec fn policies_wf(s: Seq<char>) -> bool;

/// Whether the engine's fixed-point decimal constructor accepts a given
/// text when it evaluates a decimal call.
pub uninterp spec fn decimal_ok(s: Seq<char>) -> bool;

/// Whether the engine's transitive-closure computation accepts the
/// parent hierarchy of entities with these models: a hierarchy whose
/// parent edges form a cycle is rejected.
pub uninterp spec fn graph_dag_ok(g: Seq<EntityV>) -> bool;

/// Whether none of the entity models carries a parent.
pub open spec fn parentless(g: Seq<EntityV>) -> bool {
    forall|i: int| 0 <= i < g.len() ==> (#[trigger] g[i].parents).len() == 0
}

/// Relies on `cedar_policy::EntityUid::from_str`: it accepts exactly
/// the normalized identity literals, which `uid_literal_ok` names.
#[verifier::external_body]
pub(crate) fn parse_uid_literal(s: &str) -> (r: Result<cedar_policy::EntityUid, String>)
    ensures
        r is Ok <==> uid_literal_ok(s@),
{
    cedar_policy::EntityUid::from_str(s).map_err(|e| format!("{e}"))
}

/// Relies on `cedar_policy::EntityTypeName::from_str` (accepts exactly
/// the normalized type names, which `type_name_ok` names),
/// `cedar_policy::EntityId::new` (accepts any string), and
/// `cedar_policy::EntityUid::from_type_name_and_id` (total).
#[verifier::external_body]
pub(crate) fn cedar_uid(u: &EntityIdent) -> (r: Result<cedar_policy::EntityUid, String>)
    ensures
        r is Ok <==> type_name_ok(u@.etype),
{
    match cedar_policy::EntityTypeName::from_str(&u.etype) {
        Ok(tn) => Ok(cedar_policy::EntityUid::from_type_name_and_id(
            tn,
            cedar_policy::EntityId::new(&u.eid),
        )),
        Err(e) => Err(format!("{e}")),
    }
}

/// One of the engine's restricted expressions.  Every value of this
/// type comes from the constructors below, which only build expressions
/// the engine can evaluate: literals, entity references, sets and
/// records of such expressions, and decimal calls whose text the engine
/// has already accepted.
pub struct EngineExpr {
    expr: cedar_policy::RestrictedExpression,
}

/// Relies on `cedar_policy::RestrictedExpression::new_bool` (total).
#[verifier::external_body]
pub(crate) fn expr_bool(b: bool) -> EngineExpr {
    EngineExpr { expr: cedar_policy::RestrictedExpression::new_bool(b) }
}

/// Relies on `cedar_policy::RestrictedExpression::new_long` (total).
#[verifier::external_body]
pub(crate) fn expr_long(i: i64) -> EngineExpr {
    EngineExpr { expr: cedar_policy::RestrictedExpression::new_long(i) }
}

/// Relies on `cedar_policy::RestrictedExpression::new_string` (total).
#[verifier::external_body]
pub(crate) fn expr_string(s: &str) -> EngineExpr {
    EngineExpr { expr: cedar_policy::RestrictedExpression::new_string(s.to_owned()) }
}

/// Relies on `cedar_policy::RestrictedExpression::new_decimal` and
/// `cedar_policy::Context::from_pairs`: the constructor does not check
/// the text, but building a context evaluates the call, and whether the
/// engine's decimal constructor accepts the text — which `decimal_ok`
/// names — is a function of the text alone.
#[verifier::external_body]
pub(crate) fn expr_decimal(s: &str) -> (r: Result<EngineExpr, String>)
    ensures
        r is Ok <==> decimal_ok(s@),
{
    let probe = cedar_policy::RestrictedExpression::new_decimal(s);
    match cedar_policy::Context::from_pairs([("d".to_owned(), probe)]) {
        Ok(_) => Ok(EngineExpr { expr: cedar_policy::RestrictedExpression::new_decimal(s) }),
        Err(e) => Err(format!("{e}")),
    }
}

/// Relies on `cedar_policy::RestrictedExpression::new_entity_uid` (total).
#[verifier::external_body]
pub(crate) fn expr_uid(u: cedar_policy::EntityUid) -> EngineExpr {
    EngineExpr { expr: cedar_policy::RestrictedExpression::new_entity_uid(u) }
}

/// Relies on `cedar_policy::RestrictedExpression::new_set` (total).
#[verifier::external_body]
pub(crate) fn expr_set(items: Vec<EngineExpr>) -> EngineExpr {
    EngineExpr {
        expr: cedar_policy::RestrictedExpression::new_set(items.into_iter().map(|e| e.expr)),
    }
}

/// Relies on `cedar_policy::RestrictedExpression::new_record`: it fails
/// exactly when a key appears two or more times in the fields.
#[verifier::external_body]
pub(crate) fn expr_record(fields: Vec<(String, EngineExpr)>) -> (r: Result<EngineExpr, String>)
    ensures
        r is Ok <==> (forall|i: int, j: int|
            0 <= i < j < fields@.len() ==> fields@[i].0@ != fields@[j].0@),
{
    cedar_policy::RestrictedExpression::new_record(fields.into_iter().map(|(k, e)| (k, e.expr)))
        .map(|x| EngineExpr { expr: x })
        .map_err(|e| format!("{e}"))
}

/// Relies on `cedar_policy::Entity::new_with_tags`: it fails only when
/// evaluating an attribute expression fails, and every [`EngineExpr`]
/// holds an expression the engine evaluates, so with these attributes
/// it always succeeds.
#[verifier::external_body]
pub(crate) fn entity_new(
    uid: cedar_policy::EntityUid,
    attrs: Vec<(String, EngineExpr)>,
    parents: Vec<cedar_policy::EntityUid>,
) -> (r: Result<CedarEntity, String>)
    ensures
        r is Ok,
{
    cedar_policy::Entity::new_with_tags(
        uid,
        attrs.into_iter().map(|(k, e)| (k, e.expr)),
        parents,
        Vec::<(String, cedar_policy::RestrictedExpression)>::new(),
    )
    .map_err(|e| format!("{e}"))
}

/// Relies on `cedar_policy::PolicySet::from_str`: it accepts exactly the
/// texts of the engine's policy grammar, which `policies_wf` names.
#[verifier::external_body]
pub(crate) fn policy_set_from_str(s: &str) -> (r: Result<cedar_policy::PolicySet, String>)
    ensures
        r is Ok <==> policies_wf(s@),
{
    cedar_policy::PolicySet::from_str(s).map_err(|e| format!("{e}"))
}

/// Relies on `cedar_policy::Context::from_pairs`: it first builds a
/// record from the pairs, failing exactly when a key repeats, and then
/// evaluates it, which succeeds because every [`EngineExpr`] holds an
/// expression the engine evaluates.
#[verifier::external_body]
pub(crate) fn context_from_pairs(pairs: Vec<(String, EngineExpr)>) -> (r: Result<
    cedar_policy::Context,
    String,
>)
    ensures
        r is Ok <==> (forall|i: int, j: int|
            0 <= i < j < pairs@.len() ==> pairs@[i].0@ != pairs@[j].0@),
{
    cedar_policy::Context::from_pairs(pairs.into_iter().map(|(k, e)| (k, e.expr)))
        .map_err(|e| format!("{e}"))
}

/// Relies on `cedar_policy::Request::new`: with no schema to validate
/// against it always succeeds.
#[verifier::external_body]
pub(crate) fn request_new(
    principal: cedar_policy::EntityUid,
    action: cedar_policy::EntityUid,
    resource: cedar_policy::EntityUid,
    context: cedar_policy::Context,
) -> (r: Result<cedar_policy::Request, String>)
    ensures
        r is Ok,
{
    cedar_policy::Request::new(principal, action, resource, context, None)
        .map_err(|e| format!("{e}"))
}

/// Relies on `cedar_policy::Authorizer::new` and
/// `cedar_policy::Authorizer::is_authorized`: evaluation is total for
/// well-formed inputs and returns a response.
#[verifier::external_body]
pub(crate) fn authorize(
    request: &cedar_policy::Request,
    policies: &cedar_policy::PolicySet,
    entities: &cedar_policy::Entities,
) -> cedar_policy::Response {
    cedar_policy::Authorizer::new().is_authorized(request, policies, entities)
}

/// Relies on `cedar_policy::Response::decision`: whether the decision is
/// `Allow`.
#[verifier::external_body]
pub(crate) fn response_allowed(resp: &cedar_policy::Response) -> bool {
    resp.decision() == cedar_policy::Decision::Allow
}

/// Relies on `cedar_policy::Response::diagnostics` and
/// `cedar_policy::Diagnostics::reason`: the ids of the policies that
/// contributed to the decision, in no promised order.
#[verifier::external_body]
pub(crate) fn response_reasons(resp: &cedar_policy::Response) -> Vec<String> {
    resp.diagnostics().reason().map(|p| p.to_string()).collect()
}

/// Whether every value in a sequence can be handed to the engine.
pub open spec fn attrs_convertible(items: Seq<AttrValueV>) -> bool
    decreases items,
{
    items.len() == 0 || (attr_convertible(items[0]) && attrs_convertible(items.drop_first()))
}

/// Whether every value of a record can be handed to the engine.
pub open spec fn members_convertible(ms: Seq<(Seq<char>, AttrValueV)>) -> bool
    decreases ms,
{
    ms.len() == 0 || (attr_convertible(ms[0].1) && members_convertible(ms.drop_first()))
}

/// Whether the keys of a record are pairwise distinct.
pub open spec fn distinct_keys(ms: Seq<(Seq<char>, AttrValueV)>) -> bool {
    forall|i: int, j: int| 0 <= i < j < ms.len() ==> ms[i].0 != ms[j].0
}

/// Whether an attribute value can be handed to the engine as a
/// restricted expression: entity references must carry a well-formed
/// type name, records must have pairwise distinct keys, and the engine
/// must accept a decimal's text.
pub open spec fn attr_convertible(a: AttrValueV) -> bool
    decreases a,
{
    match a {
        AttrValueV::BoolVal(_) => true,
        AttrValueV::LongVal(_) => true,
        AttrValueV::StrVal(_) => true,
        AttrValueV::DecimalVal(s) => decimal_ok(s),
        AttrValueV::EntityRef(u) => type_name_ok(u.etype),
        AttrValueV::SetVal(items) => attrs_convertible(items),
        AttrValueV::RecordVal(ms) => distinct_keys(ms) && members_convertible(ms),
    }
}

pub proof fn lemma_attrs_convertible(items: Seq<AttrValueV>)
    ensures
        attrs_convertible(items) <==> (forall|i: int|
            0 <= i < items.len() ==> attr_convertible(#[trigger] items[i])),
    decreases items,
{
    if items.len() > 0 {
        lemma_attrs_convertible(items.drop_first());
        assert(forall|i: int|
            1 <= i < items.len() ==> #[trigger] items[i] == items.drop_first()[i - 1]);
    }
}

pub proof fn lemma_members_convertible(ms: Seq<(Seq<char>, AttrValueV)>)
    ensures
        members_convertible(ms) <==> (forall|i: int|
            0 <= i < ms.len() ==> attr_convertible(#[trigger] ms[i].1)),
    decreases ms,
{
    if ms.len() > 0 {
        lemma_members_convertible(ms.drop_first());
        assert(forall|i: int| 1 <= i < ms.len() ==> #[trigger] ms[i] == ms.drop_first()[i - 1]);
    }
}

/// Turns an attribute value into one of the engine's restricted
/// expressions; fails exactly when [`attr_convertible`] says it cannot
/// be done.
pub(crate) fn attr_to_expr(a: &AttrValue) -> (r: Result<EngineExpr, String>)
    ensures
        r is Ok <==> attr_convertible(a@),
    decreases *a,
{
    match a {
        AttrValue::BoolVal(b) => Ok(expr_bool(*b)),
        AttrValue::LongVal(i) => Ok(expr_long(*i)),
        AttrValue::StrVal(s) => Ok(expr_string(s.as_str())),
        AttrValue::DecimalVal(s) => expr_decimal(s.as_str()),
        AttrValue::EntityRef(u) => {
            match cedar_uid(u) {
                Ok(cu) => Ok(expr_uid(cu)),
                Err(e) => Err(e),
            }
        },
        AttrValue::SetVal(items) => {
            let ghost itemsv = attr_seq_view(items@);
            proof {
                lemma_attr_seq_view(items@);
                lemma_attrs_convertible(itemsv);
            }
            let mut parts: Vec<EngineExpr> = Vec::new();
            let mut idx: usize = 0;
            while idx < items.len()
                invariant
                    *a == AttrValue::SetVal(*items),
                    idx <= items.len(),
                    itemsv == attr_seq_view(items@),
                    itemsv.len() == items@.len(),
                    forall|i: int| 0 <= i < items@.len() ==> itemsv[i] == attr_view(items@[i]),
                    forall|i: int| 0 <= i < idx ==> attr_convertible(#[trigger] itemsv[i]),
                decreases items.len() - idx,
            {
                proof {
                    assert(decreases_to!(*a => items@[idx as int])) by {
                        assert(decreases_to!(*a => a->SetVal_0));
                        assert(decreases_to!(*items => items@));
                        assert(decreases_to!(items@ => items@[idx as int]));
                    }
                }
                match attr_to_expr(&items[idx]) {
                    Ok(x) => parts.push(x),
                    Err(e) => {
                        proof {
                            assert(!attr_convertible(itemsv[idx as int]));
                            lemma_attrs_convertible(itemsv);
                        }
                        return Err(e);
                    },
                }
                idx += 1;
            }
            proof {
                lemma_attrs_convertible(itemsv);
            }
            Ok(expr_set(parts))
        },
        AttrValue::RecordVal(members) => {
            let ghost msv = attr_map_view(members@);
            proof {
                lemma_attr_map_view(members@);
                lemma_members_convertible(msv);
            }
            let mut fields: Vec<(String, EngineExpr)> = Vec::new();
            let mut idx: usize = 0;
            while idx < members.len()
                invariant
                    *a == AttrValue::RecordVal(*members),
                    idx <= members.len(),
                    msv == attr_map_view(members@),
                    msv.len() == members@.len(),
                    forall|i: int|
                        0 <= i < members@.len()
                            ==> msv[i] == (members@[i].0@, attr_view(members@[i].1)),
                    fields@.len() == idx,
                    forall|i: int| 0 <= i < idx ==> fields@[i].0@ == msv[i].0,
                    forall|i: int| 0 <= i < idx ==> attr_convertible(#[trigger] msv[i].1),
                decreases members.len() - idx,
            {
                proof {
                    assert(decreases_to!(*a => members@[idx as int].1)) by {
                        assert(decreases_to!(*a => a->RecordVal_0));
                        assert(decreases_to!(*members => members@));
                        assert(decreases_to!(members@ => members@[idx as int]));
                    }
                }
                let k = members[idx].0.clone();
                match attr_to_expr(&members[idx].1) {
                    Ok(x) => fields.push((k, x)),
                    Err(e) => {
                        proof {
                            assert(!attr_convertible(msv[idx as int].1));
                            lemma_members_convertible(msv);
                        }
                        return Err(e);
                    },
                }
                idx += 1;
            }
            proof {
                lemma_members_convertible(msv);
            }
            match expr_record(fields) {
                Ok(x) => {
                    proof {
                        assert(distinct_keys(msv)) by {
                            assert(forall|i: int|
                                0 <= i < msv.len() ==> fields@[i].0@ == #[trigger] msv[i].0);
                        }
                    }
                    Ok(x)
                },
                Err(e) => {
                    proof {
                        assert(!distinct_keys(msv)) by {
                            let (i, j) = choose|i: int, j: int|
                                0 <= i < j < fields@.len() && fields@[i].0@ == fields@[j].0@;
                            assert(msv[i].0 == msv[j].0);
                        }
                    }
                    Err(e)
                },
            }
        },
    }
}

/// Whether every element of a JSON array is usable as a context value.
pub open spec fn ctx_values_convertible(items: Seq<JsonValV>) -> bool
    decreases items,
{
    items.len() == 0 || (context_value_convertible(items[0]) && ctx_values_convertible(
        items.drop_first(),
    ))
}

/// Whether every member value of a JSON object is usable as a context
/// value.
pub open spec fn ctx_members_convertible(ms: Seq<(Seq<char>, JsonValV)>) -> bool
    decreases ms,
{
    ms.len() == 0 || (context_value_convertible(ms[0].1) && ctx_members_convertible(
        ms.drop_first(),
    ))
}

/// Whether the keys of a JSON object are pairwise distinct.
pub open spec fn ctx_distinct_keys(ms: Seq<(Seq<char>, JsonValV)>) -> bool {
    forall|i: int, j: int| 0 <= i < j < ms.len() ==> ms[i].0 != ms[j].0
}

/// Whether none of an object's member keys is one of the engine's
/// reserved JSON escape keys (`__entity`, `__extn`).
pub open spec fn ctx_no_escape_keys(ms: Seq<(Seq<char>, JsonValV)>) -> bool {
    forall|i: int|
        0 <= i < ms.len() ==> (#[trigger] ms[i].0) != "__entity"@ && ms[i].0 != "__extn"@
}

/// Whether a JSON value is usable in a request context.  Booleans,
/// integral numbers, and strings are; arrays become sets and objects
/// become records of usable values, an object needing pairwise
/// distinct keys, none of them a reserved escape key; `null` and
/// non-integral numbers are not representable in the engine's context
/// model, and an object using one of the engine's JSON escape keys is
/// rejected rather than silently rebuilt as a plain record.
pub open spec fn context_value_convertible(v: JsonValV) -> bool
    decreases v,
{
    match v {
        JsonValV::Null => false,
        JsonValV::Bool(_) => true,
        JsonValV::Int(_) => true,
        JsonValV::Dec(_) => false,
        JsonValV::Str(_) => true,
        JsonValV::Arr(items) => ctx_values_convertible(items),
        JsonValV::Obj(ms) => ctx_no_escape_keys(ms) && ctx_distinct_keys(ms)
            && ctx_members_convertible(ms),
    }
}

/// Whether a JSON value names a request context: it must be an object
/// with pairwise distinct, non-escape keys whose member values are all
/// usable.
pub open spec fn context_ok(v: JsonValV) -> bool {
    match v {
        JsonValV::Obj(ms) => ctx_no_escape_keys(ms) && ctx_distinct_keys(ms)
            && ctx_members_convertible(ms),
        _ => false,
    }
}

pub proof fn lemma_ctx_values_convertible(items: Seq<JsonValV>)
    ensures
        ctx_values_convertible(items) <==> (forall|i: int|
            0 <= i < items.len() ==> context_value_convertible(#[trigger] items[i])),
    decreases items,
{
    if items.len() > 0 {
        lemma_ctx_values_convertible(items.drop_first());
        assert(forall|i: int|
            1 <= i < items.len() ==> #[trigger] items[i] == items.drop_first()[i - 1]);
    }
}

pub proof fn lemma_ctx_members_convertible(ms: Seq<(Seq<char>, JsonValV)>)
    ensures
        ctx_members_convertible(ms) <==> (forall|i: int|
            0 <= i < ms.len() ==> context_value_convertible(#[trigger] ms[i].1)),
    decreases ms,
{
    if ms.len() > 0 {
        lemma_ctx_members_convertible(ms.drop_first());
        assert(forall|i: int| 1 <= i < ms.len() ==> #[trigger] ms[i] == ms.drop_first()[i - 1]);
    }
}

/// Turns a JSON value into one of the engine's restricted expressions
/// by the context rules; fails exactly when
/// [`context_value_convertible`] says the value is not representable.
pub(crate) fn context_expr(v: &JsonVal) -> (r: Result<EngineExpr, String>)
    ensures
        r is Ok <==> context_value_convertible(json_view(*v)),
    decreases *v,
{
    match v {
        JsonVal::Null => Err("null is not usable in a context".to_owned()),
        JsonVal::Bool(b) => Ok(expr_bool(*b)),
        JsonVal::Int(i) => Ok(expr_long(*i)),
        JsonVal::Dec(_) => Err("a non-integral number is not usable in a context".to_owned()),
        JsonVal::Str(s) => Ok(expr_string(s.as_str())),
        JsonVal::Arr(items) => {
            let ghost itemsv = json_seq_view(items@);
            proof {
                crate::json::lemma_json_seq_view(items@);
            }
            let mut parts: Vec<EngineExpr> = Vec::new();
            let mut idx: usize = 0;
            while idx < items.len()
                invariant
                    *v == JsonVal::Arr(*items),
                    idx <= items.len(),
                    itemsv == json_seq_view(items@),
                    itemsv.len() == items@.len(),
                    forall|i: int| 0 <= i < items@.len() ==> itemsv[i] == json_view(items@[i]),
                    forall|i: int|
                        0 <= i < idx ==> context_value_convertible(#[trigger] itemsv[i]),
                decreases items.len() - idx,
            {
                proof {
                    assert(decreases_to!(*v => items@[idx as int])) by {
                        assert(decreases_to!(*v => v->Arr_0));
                        assert(decreases_to!(*items => items@));
                        assert(decreases_to!(items@ => items@[idx as int]));
                    }
                }
                match context_expr(&items[idx]) {
                    Ok(x) => parts.push(x),
                    Err(e) => {
                        proof {
                            assert(!context_value_convertible(itemsv[idx as int]));
                            lemma_ctx_values_convertible(itemsv);
                        }
                        return Err(e);
                    },
                }
                idx += 1;
            }
            proof {
                lemma_ctx_values_convertible(itemsv);
            }
            Ok(expr_set(parts))
        },
        JsonVal::Obj(members) => {
            let ghost msv = json_obj_view(members@);
            proof {
                crate::json::lemma_json_obj_view(members@);
            }
            let mut fields: Vec<(String, EngineExpr)> = Vec::new();
            let mut idx: usize = 0;
            while idx < members.len()
                invariant
                    *v == JsonVal::Obj(*members),
                    idx <= members.len(),
                    msv == json_obj_view(members@),
                    msv.len() == members@.len(),
                    forall|i: int|
                        0 <= i < members@.len()
                            ==> msv[i] == (members@[i].0@, json_view(members@[i].1)),
                    fields@.len() == idx,
                    forall|i: int| 0 <= i < idx ==> fields@[i].0@ == msv[i].0,
                    forall|i: int|
                        0 <= i < idx ==> (#[trigger] msv[i].0) != "__entity"@ && msv[i].0
                            != "__extn"@,
                    forall|i: int|
                        0 <= i < idx ==> context_value_convertible(#[trigger] msv[i].1),
                decreases members.len() - idx,
            {
                proof {
                    assert(decreases_to!(*v => members@[idx as int].1)) by {
                        assert(decreases_to!(*v => v->Obj_0));
                        assert(decreases_to!(*members => members@));
                        assert(decreases_to!(members@ => members@[idx as int]));
                    }
                }
                if str_eq(members[idx].0.as_str(), "__entity") || str_eq(
                    members[idx].0.as_str(),
                    "__extn",
                ) {
                    proof {
                        assert(msv[idx as int].0 == members@[idx as int].0@);
                        assert(msv[idx as int].0 == "__entity"@ || msv[idx as int].0
                            == "__extn"@);
                        assert(!ctx_no_escape_keys(msv));
                    }
                    return Err("a context object uses a reserved escape key".to_owned());
                }
                let k = members[idx].0.clone();
                match context_expr(&members[idx].1) {
                    Ok(x) => fields.push((k, x)),
                    Err(e) => {
                        proof {
                            assert(!context_value_convertible(msv[idx as int].1));
                            lemma_ctx_members_convertible(msv);
                        }
                        return Err(e);
                    },
                }
                idx += 1;
            }
            proof {
                lemma_ctx_members_convertible(msv);
            }
            match expr_record(fields) {
                Ok(x) => {
                    proof {
                        assert(ctx_distinct_keys(msv)) by {
                            assert(forall|i: int|
                                0 <= i < msv.len() ==> fields@[i].0@ == #[trigger] msv[i].0);
                        }
                    }
                    Ok(x)
                },
                Err(e) => {
                    proof {
                        assert(!ctx_distinct_keys(msv)) by {
                            let (i, j) = choose|i: int, j: int|
                                0 <= i < j < fields@.len() && fields@[i].0@ == fields@[j].0@;
                            assert(msv[i].0 == msv[j].0);
                        }
                    }
                    Err(e)
                },
            }
        },
    }
}

/// Builds the engine's context from a JSON value; fails exactly when
/// [`context_ok`] says the value names no context.
pub(crate) fn build_context(v: &JsonVal) -> (r: Result<cedar_policy::Context, String>)
    ensures
        r is Ok <==> context_ok(json_view(*v)),
{
    match v {
        JsonVal::Obj(members) => {
            let ghost msv = json_obj_view(members@);
            proof {
                crate::json::lemma_json_obj_view(members@);
            }
            let mut pairs: Vec<(String, EngineExpr)> = Vec::new();
            let mut idx: usize = 0;
            while idx < members.len()
                invariant
                    *v == JsonVal::Obj(*members),
                    idx <= members.len(),
                    msv == json_obj_view(members@),
                    msv.len() == members@.len(),
                    forall|i: int|
                        0 <= i < members@.len()
                            ==> msv[i] == (members@[i].0@, json_view(members@[i].1)),
                    pairs@.len() == idx,
                    forall|i: int| 0 <= i < idx ==> pairs@[i].0@ == msv[i].0,
                    forall|i: int|
                        0 <= i < idx ==> (#[trigger] msv[i].0) != "__entity"@ && msv[i].0
                            != "__extn"@,
                    forall|i: int|
                        0 <= i < idx ==> context_value_convertible(#[trigger] msv[i].1),
                decreases members.len() - idx,
            {
                if str_eq(members[idx].0.as_str(), "__entity") || str_eq(
                    members[idx].0.as_str(),
                    "__extn",
                ) {
                    proof {
                        assert(msv[idx as int].0 == members@[idx as int].0@);
                        assert(msv[idx as int].0 == "__entity"@ || msv[idx as int].0
                            == "__extn"@);
                        assert(!ctx_no_escape_keys(msv));
                    }
                    return Err("a context object uses a reserved escape key".to_owned());
                }
                let k = members[idx].0.clone();
                match context_expr(&members[idx].1) {
                    Ok(x) => pairs.push((k, x)),
                    Err(e) => {
                        proof {
                            assert(!context_value_convertible(msv[idx as int].1));
                            lemma_ctx_members_convertible(msv);
                        }
                        return Err(e);
                    },
                }
                idx += 1;
            }
            proof {
                lemma_ctx_members_convertible(msv);
            }
            match context_from_pairs(pairs) {
                Ok(c) => {
                    proof {
                        assert(ctx_distinct_keys(msv)) by {
                            assert(forall|i: int|
                                0 <= i < msv.len() ==> pairs@[i].0@ == #[trigger] msv[i].0);
                        }
                    }
                    Ok(c)
                },
                Err(e) => {
                    proof {
                        assert(!ctx_distinct_keys(msv)) by {
                            let (i, j) = choose|i: int, j: int|
                                0 <= i < j < pairs@.len() && pairs@[i].0@ == pairs@[j].0@;
                            assert(msv[i].0 == msv[j].0);
                        }
                    }
                    Err(e)
                },
            }
        },
        _ => Err("context is not a JSON object".to_owned()),
    }
}

/// Whether an entity of the model can be handed to the engine: its own
/// type name and those of its parents must be well formed, and each of
/// its attribute values must be convertible.
pub open spec fn entity_convertible(ev: EntityV) -> bool {
    &&& type_name_ok(ev.uid.etype)
    &&& forall|i: int| 0 <= i < ev.parents.len() ==> type_name_ok(#[trigger] ev.parents[i].etype)
    &&& forall|i: int| 0 <= i < ev.attrs.len() ==> attr_convertible(#[trigger] ev.attrs[i].1)
}

/// Whether every one of the entity models can be handed to the engine.
pub open spec fn models_convertible(s: Seq<EntityV>) -> bool {
    forall|i: int| 0 <= i < s.len() ==> entity_convertible(#[trigger] s[i])
}

/// Why an entity of the model could not be handed to the engine.
#[derive(Debug)]
pub enum BuildEntityError {
    /// The entity's own identity was rejected: its type name is not
    /// well formed.
    BadUid(String),
    /// An attribute value or a parent identity was rejected.
    BadValue(String),
}

/// An entity of the model paired with the engine's form built from it;
/// every value comes from [`build_entity`].
pub struct BuiltEntity {
    model: Entity,
    engine: CedarEntity,
}

impl BuiltEntity {
    /// The model half of the pair.
    pub closed spec fn model_view(&self) -> EntityV {
        self.model@
    }

    /// The entity as this crate models it.
    pub fn model(&self) -> (r: &Entity)
        ensures
            r@ == self.model_view(),
    {
        &self.model
    }
}

/// The models of a sequence of built entities, element by element.
pub open spec fn built_models(s: Seq<BuiltEntity>) -> Seq<EntityV> {
    s.map_values(|b: BuiltEntity| b.model_view())
}

/// Copies the models out of a list of built entities.
pub(crate) fn built_models_vec(es: &Vec<BuiltEntity>) -> (r: Vec<Entity>)
    ensures
        ents_view(r@) == built_models(es@),
{
    let mut out: Vec<Entity> = Vec::new();
    let mut idx: usize = 0;
    while idx < es.len()
        invariant
            idx <= es.len(),
            out@.len() == idx,
            forall|i: int| 0 <= i < idx ==> out@[i]@ == es@[i].model_view(),
        decreases es.len() - idx,
    {
        let m = es[idx].model().duplicate();
        out.push(m);
        idx += 1;
    }
    proof {
        assert(ents_view(out@) =~= built_models(es@));
    }
    out
}

/// Builds the engine's form of an entity and pairs it with the model;
/// fails exactly when [`entity_convertible`] says the model cannot be
/// handed to the engine.
pub(crate) fn build_entity(e: Entity) -> (r: Result<BuiltEntity, BuildEntityError>)
    ensures
        r matches Ok(b) ==> b.model_view() == e@,
        r is Ok <==> entity_convertible(e@),
        r matches Err(err) ==> (err is BadUid <==> !type_name_ok(e@.uid.etype)),
{
    match entity_to_cedar(&e) {
        Ok(engine) => Ok(BuiltEntity { model: e, engine }),
        Err(err) => Err(err),
    }
}

/// Builds the engine's form of an entity; fails exactly when
/// [`entity_convertible`] says the model cannot be handed to the
/// engine, with a `BadUid` exactly when the entity's own type name is
/// ill formed.
pub(crate) fn entity_to_cedar(e: &Entity) -> (r: Result<CedarEntity, BuildEntityError>)
    ensures
        r is Ok <==> entity_convertible(e@),
        r matches Err(err) ==> (err is BadUid <==> !type_name_ok(e@.uid.etype)),
{
    let uid = match cedar_uid(&e.uid) {
        Ok(u) => u,
        Err(err) => {
            return Err(BuildEntityError::BadUid(err));
        },
    };
    let ghost msv = attr_map_view(e.attrs@);
    proof {
        lemma_attr_map_view(e.attrs@);
    }
    let mut fields: Vec<(String, EngineExpr)> = Vec::new();
    let mut idx: usize = 0;
    while idx < e.attrs.len()
        invariant
            type_name_ok(e@.uid.etype),
            idx <= e.attrs.len(),
            msv == attr_map_view(e.attrs@),
            msv.len() == e.attrs@.len(),
            forall|i: int|
                0 <= i < e.attrs@.len() ==> msv[i] == (e.attrs@[i].0@, attr_view(e.attrs@[i].1)),
            forall|i: int| 0 <= i < idx ==> attr_convertible(#[trigger] msv[i].1),
        decreases e.attrs.len() - idx,
    {
        let k = e.attrs[idx].0.clone();
        match attr_to_expr(&e.attrs[idx].1) {
            Ok(x) => fields.push((k, x)),
            Err(err) => {
                proof {
                    assert(e@.attrs[idx as int] == msv[idx as int]);
                    assert(!attr_convertible(e@.attrs[idx as int].1));
                    assert(!entity_convertible(e@));
                }
                return Err(BuildEntityError::BadValue(err));
            },
        }
        idx += 1;
    }
    let mut parents: Vec<cedar_policy::EntityUid> = Vec::new();
    let mut k: usize = 0;
    while k < e.parents.len()
        invariant
            type_name_ok(e@.uid.etype),
            k <= e.parents.len(),
            forall|i: int| 0 <= i < k ==> type_name_ok(#[trigger] e.parents@[i]@.etype),
        decreases e.parents.len() - k,
    {
        match cedar_uid(&e.parents[k]) {
            Ok(u) => parents.push(u),
            Err(err) => {
                proof {
                    assert(e@.parents[k as int] == e.parents@[k as int]@);
                    assert(!type_name_ok(e@.parents[k as int].etype));
                    assert(!entity_convertible(e@));
                }
                return Err(BuildEntityError::BadValue(err));
            },
        }
        k += 1;
    }
    proof {
        assert(forall|i: int| 0 <= i < e@.parents.len() ==> e@.parents[i] == e.parents@[i]@);
    }
    match entity_new(uid, fields, parents) {
        Ok(ce) => Ok(ce),
        Err(_) => vstd::pervasive::unreached(),
    }
}

/// The baseline entity set: a model graph with pairwise distinct
/// identities, paired with the engine's form of it; every value comes
/// from [`Baseline::from_built`].
pub struct Baseline {
    graph: EntityGraph,
    engine: cedar_policy::Entities,
}

impl Baseline {
    /// The model graph of the baseline.
    pub closed spec fn graph_view(&self) -> Seq<EntityV> {
        self.graph@
    }

    /// The baseline graph as this crate models it.
    pub(crate) fn graph(&self) -> (r: &EntityGraph)
        ensures
            r@ == self.graph_view(),
    {
        &self.graph
    }

    /// The engine's form of the baseline graph.
    pub(crate) fn engine(&self) -> &cedar_policy::Entities {
        &self.engine
    }

    /// Assembles the baseline from built entities: the engine's graph
    /// from their engine forms, the model graph from their models.
    /// With pairwise distinct identities it succeeds exactly when the
    /// engine accepts the parent hierarchy as acyclic.
    pub(crate) fn from_built(es: Vec<BuiltEntity>) -> (r: Result<Baseline, String>)
        ensures
            uids_distinct(built_models(es@)) ==> (r is Ok <==> graph_dag_ok(built_models(es@))),
            r matches Ok(b) ==> b.graph_view() == built_models(es@),
    {
        let engine = match entities_from_built(&es) {
            Ok(e) => e,
            Err(m) => {
                return Err(m);
            },
        };
        let models = built_models_vec(&es);
        Ok(Baseline { graph: EntityGraph { entities: models }, engine })
    }
}

/// Relies on `cedar_policy::Entities::from_entities` (no schema): it
/// fails only on a pair of non-identical entities sharing an identity
/// or on a parent hierarchy its transitive-closure computation
/// rejects, which `graph_dag_ok` names.  A [`BuiltEntity`] pairs its
/// engine form with its model, and distinct model identities give
/// distinct engine identities, because the engine accepts only
/// normalized type-name texts, which parse injectively; the engine
/// hierarchy likewise mirrors the models' parents.  So with pairwise
/// distinct model identities the call succeeds exactly when the
/// hierarchy is accepted.
#[verifier::external_body]
pub(crate) fn entities_from_built(es: &Vec<BuiltEntity>) -> (r: Result<
    cedar_policy::Entities,
    String,
>)
    ensures
        uids_distinct(built_models(es@)) ==> (r is Ok <==> graph_dag_ok(built_models(es@))),
{
    cedar_policy::Entities::from_entities(es.iter().map(|b| b.engine.clone()), None)
        .map_err(|e| format!("{e}"))
}

/// Relies on `cedar_policy::Entities::clone` and
/// `cedar_policy::Entities::add_entities` (no schema): add_entities
/// fails only when two non-identical entities share an identity or
/// when repairing the transitive closure finds a cycle.  A [`Baseline`]
/// pairs its engine graph with its model graph and a [`BuiltEntity`]
/// its engine form with its model, and distinct model identities give
/// distinct engine identities (normalized type-name texts parse
/// injectively).  The engine graph of any `Entities` value is already
/// closed and acyclic, and additions that carry no parents add no
/// outgoing edges, so when on top of that the model identities collide
/// nowhere, the union succeeds.
#[verifier::external_body]
pub(crate) fn baseline_add_built(base: &Baseline, add: &Vec<BuiltEntity>) -> (r: Result<
    cedar_policy::Entities,
    String,
>)
    ensures
        (!merge_collision(base.graph_view(), built_models(add@)) && parentless(
            built_models(add@),
        )) ==> r is Ok,
{
    base.engine
        .clone()
        .add_entities(add.iter().map(|b| b.engine.clone()), None)
        .map_err(|e| format!("{e}"))
}

} // verus!
