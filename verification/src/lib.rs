//! Authorization input pipeline for an external ABAC engine.
//!
//! The crate turns a bundle of identity/access tokens plus an
//! authorization query (action, resource, context) into a fully formed
//! request for the engine: token decoding, claim normalization, entity
//! synthesis, entity graph merge, request assembly, engine invocation,
//! and decision mapping.  [`Authz`] is the service built once at
//! startup; [`check`] answers a single query from raw literals.

use vstd::prelude::*;

pub mod authz;
pub mod cedar;
pub mod entities;
pub mod json;
pub mod jwt;
pub mod jwt_tokens;
pub mod store;
pub mod tokens;

pub use authz::{
    Authz, AuthzConfig, AuthzInput, AuthzInputEntitiesError, AuthzInputRaw, AuthzNewError,
    AuthzResponse, CedarParams, Decision, DecodeTokensError, HandleError, JWTData,
    JWTDataEntities,
};

use crate::cedar::{
    authorize, build_context, context_ok, parse_uid_literal, policies_wf, policy_set_from_str,
    request_new, response_allowed, response_reasons, uid_literal_ok,
};
use crate::json::{json_of, parse_json};
use crate::jwt::chars_vec;
use crate::store::{baseline_ok, load_baseline};

verus! {

/// Why a raw check failed; one variant per failing step.
#[derive(Debug)]
pub enum CheckError {
    /// The principal is not a well-formed identity literal.
    Principal(String),
    /// The action is not a well-formed identity literal.
    Action(String),
    /// The resource is not a well-formed identity literal.
    Resource(String),
    /// The context text is not valid JSON.
    ContextJsonParse(String),
    /// The context is not an object of representable values.
    Context(String),
    /// The request could not be constructed; the engine validates a
    /// request only against a schema, which a raw check does not use,
    /// so this error does not arise here.
    Request(String),
    /// The policy set text did not parse.
    PolicySet(String),
    /// The entities document was rejected.
    Entities(String),
}

/// The parameters of one raw check: the principal, action and resource
/// identity literals, the context as JSON text, the policy set text,
/// and the entities document.
pub struct CheckParams<'a> {
    pub principal_str: &'a str,
    pub action_str: &'a str,
    pub resource_str: &'a str,
    pub context_json_str: &'a str,
    pub policies_str: &'a str,
    pub entities_json_str: &'a str,
}

/// Whether the front literals of a raw check are all accepted: the
/// three identity literals parse, and the context text is JSON naming
/// a context.
pub open spec fn check_front_ok(
    principal: Seq<char>,
    action: Seq<char>,
    resource: Seq<char>,
    context: Seq<char>,
) -> bool {
    &&& uid_literal_ok(principal)
    &&& uid_literal_ok(action)
    &&& uid_literal_ok(resource)
    &&& json_of(context) is Some
    &&& context_ok(json_of(context)->Some_0)
}

/// Answers one authorization query from raw literals: parses the
/// principal, action, resource, context, policy set, and entities, in
/// that order and failing fast, then invokes the engine.  The call
/// succeeds exactly when every step accepts its input, and the error
/// names the first step that does not.
pub fn check(params: CheckParams) -> (r: Result<AuthzResponse, CheckError>)
    ensures
        (r matches Err(e) && e is Principal) <==> !uid_literal_ok(params.principal_str@),
        (r matches Err(e) && e is Action) <==> (uid_literal_ok(params.principal_str@)
            && !uid_literal_ok(params.action_str@)),
        (r matches Err(e) && e is Resource) <==> (uid_literal_ok(params.principal_str@)
            && uid_literal_ok(params.action_str@) && !uid_literal_ok(params.resource_str@)),
        (r matches Err(e) && e is ContextJsonParse) <==> (uid_literal_ok(params.principal_str@)
            && uid_literal_ok(params.action_str@) && uid_literal_ok(params.resource_str@)
            && json_of(params.context_json_str@) is None),
        (r matches Err(e) && e is Context) <==> (uid_literal_ok(params.principal_str@)
            && uid_literal_ok(params.action_str@) && uid_literal_ok(params.resource_str@)
            && json_of(params.context_json_str@) is Some && !context_ok(
            json_of(params.context_json_str@)->Some_0,
        )),
        (r matches Err(e) && e is PolicySet) <==> (check_front_ok(
            params.principal_str@,
            params.action_str@,
            params.resource_str@,
            params.context_json_str@,
        ) && !policies_wf(params.policies_str@)),
        (r matches Err(e) && e is Entities) <==> (check_front_ok(
            params.principal_str@,
            params.action_str@,
            params.resource_str@,
            params.context_json_str@,
        ) && policies_wf(params.policies_str@) && !baseline_ok(params.entities_json_str@)),
        r is Ok <==> {
            &&& check_front_ok(
                params.principal_str@,
                params.action_str@,
                params.resource_str@,
                params.context_json_str@,
            )
            &&& policies_wf(params.policies_str@)
            &&& baseline_ok(params.entities_json_str@)
        },
        r matches Err(e) ==> !(e is Request),
{
    let principal = match parse_uid_literal(params.principal_str) {
        Ok(u) => u,
        Err(e) => {
            return Err(CheckError::Principal(e));
        },
    };
    let action = match parse_uid_literal(params.action_str) {
        Ok(u) => u,
        Err(e) => {
            return Err(CheckError::Action(e));
        },
    };
    let resource = match parse_uid_literal(params.resource_str) {
        Ok(u) => u,
        Err(e) => {
            return Err(CheckError::Resource(e));
        },
    };
    let cs = chars_vec(params.context_json_str);
    let context_val = match parse_json(&cs) {
        Ok(v) => v,
        Err(e) => {
            return Err(CheckError::ContextJsonParse(e));
        },
    };
    let context = match build_context(&context_val) {
        Ok(c) => c,
        Err(e) => {
            return Err(CheckError::Context(e));
        },
    };
    let request = match request_new(principal, action, resource, context) {
        Ok(q) => q,
        Err(_) => vstd::pervasive::unreached(),
    };
    let policy_set = match policy_set_from_str(params.policies_str) {
        Ok(p) => p,
        Err(e) => {
            return Err(CheckError::PolicySet(e));
        },
    };
    let baseline = match load_baseline(params.entities_json_str) {
        Ok(b) => b,
        Err(e) => {
            return Err(CheckError::Entities(e));
        },
    };
    let resp = authorize(&request, &policy_set, baseline.engine());
    let allowed = response_allowed(&resp);
    let reasons = response_reasons(&resp);
    Ok(
        AuthzResponse {
            decision: if allowed {
                Decision::Allow
            } else {
                Decision::Deny
            },
            reasons,
        },
    )
}

} // verus!
