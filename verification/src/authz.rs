//! The authorization input pipeline: raw input to decision.
//!
//! A call decodes the three tokens, synthesizes entities from their
//! claims, merges them into a copy of the baseline graph, assembles the
//! request, and invokes the engine.  Every stage is fallible, the first
//! failing stage aborts the call, and each error names its stage.

use vstd::prelude::*;
use crate::cedar::{
    authorize, baseline_add_built, build_context, built_models, built_models_vec, cedar_uid,
    context_ok, entity_convertible, models_convertible, parse_uid_literal, policies_wf,
    policy_set_from_str, request_new, response_allowed, response_reasons, type_name_ok,
    uid_literal_ok, Baseline, BuiltEntity,
};
use crate::entities::{
    has_uid, merge_collision, uids_distinct, EntitiesMergeError, EntityIdent, EntityIdentV,
    EntityV,
};
use crate::json::{json_of, json_tree, json_view, obj_get, obj_lookup, parse_json, JsonVal, JsonValV};
use crate::jwt::{chars_vec, has_dot, second_segment, DecodeError, JWTDecoder};
use crate::store::{baseline_ok, graph_of_json, load_baseline, uid_from_json, uid_of_json};
use crate::tokens::{
    access_token_of_json, application_entity_v, client_entity_v, id_token_entity_v,
    get_req_string, id_token_of_json, req_string, user_entity_v, userinfo_token_of_json,
    AccessToken, AccessTokenV, EntityCreatingError, IdToken, IdTokenV, UserInfoToken,
    UserInfoTokenV,
};

verus! {

/// The raw input of one authorization call: three compact token
/// strings and the query parameters.
pub struct AuthzInputRaw {
    pub id_token: String,
    pub userinfo_token: String,
    pub access_token: String,
    pub extra: CedarParams,
}

/// The query parameters of one call: the action literal, and the
/// resource and context as parsed JSON values.
pub struct CedarParams {
    pub action: String,
    pub resource: serde_json::Value,
    pub context: serde_json::Value,
}

/// Which token could not be decoded, and why.
#[derive(Debug)]
pub enum DecodeTokensError {
    IdToken(DecodeError),
    UserInfoToken(DecodeError),
    AccessToken(DecodeError),
}

/// The three decoded claim records.
pub struct JWTData {
    pub id_token: IdToken,
    pub userinfo_token: UserInfoToken,
    pub access_token: AccessToken,
}

/// The decoded form of [`AuthzInputRaw`].
pub struct AuthzInput {
    pub jwt: JWTData,
    pub chedar_params: CedarParams,
}

/// The claim record the id token denotes, if it decodes: the token must
/// have a second segment, the segment must be JSON, and the JSON must
/// match the schema.
pub open spec fn id_claims_of_token(s: Seq<char>) -> Option<IdTokenV> {
    if has_dot(s) {
        match json_of(second_segment(s)) {
            Some(p) => id_token_of_json(p),
            None => None,
        }
    } else {
        None
    }
}

/// The claim record the userinfo token denotes, if it decodes.
pub open spec fn userinfo_claims_of_token(s: Seq<char>) -> Option<UserInfoTokenV> {
    if has_dot(s) {
        match json_of(second_segment(s)) {
            Some(p) => userinfo_token_of_json(p),
            None => None,
        }
    } else {
        None
    }
}

/// The claim record the access token denotes, if it decodes.
pub open spec fn access_claims_of_token(s: Seq<char>) -> Option<AccessTokenV> {
    if has_dot(s) {
        match json_of(second_segment(s)) {
            Some(p) => access_token_of_json(p),
            None => None,
        }
    } else {
        None
    }
}

/// Whether all three tokens decode.
pub open spec fn claims_ok(id: Seq<char>, ui: Seq<char>, at: Seq<char>) -> bool {
    id_claims_of_token(id) is Some && userinfo_claims_of_token(ui) is Some
        && access_claims_of_token(at) is Some
}

/// Decodes one token and matches its payload against a schema reader,
/// reporting the stage's failure.
fn decode_id_token(decoder: &JWTDecoder, s: &str) -> (r: Result<IdToken, DecodeError>)
    requires
        decoder is WithoutValidation,
    ensures
        r matches Ok(t) ==> id_claims_of_token(s@) == Some(t@),
        r is Ok <==> id_claims_of_token(s@) is Some,
        r matches Err(e) ==> (e is MalformedJWT <==> !has_dot(s@)),
{
    let payload = decoder.decode(s)?;
    match IdToken::from_json(&payload) {
        Ok(t) => Ok(t),
        Err(m) => Err(DecodeError::UnableToParseBase64AsJson(m)),
    }
}

/// Decodes the userinfo token, as [`decode_id_token`] does for its kind.
fn decode_userinfo_token(decoder: &JWTDecoder, s: &str) -> (r: Result<UserInfoToken, DecodeError>)
    requires
        decoder is WithoutValidation,
    ensures
        r matches Ok(t) ==> userinfo_claims_of_token(s@) == Some(t@),
        r is Ok <==> userinfo_claims_of_token(s@) is Some,
        r matches Err(e) ==> (e is MalformedJWT <==> !has_dot(s@)),
{
    let payload = decoder.decode(s)?;
    match UserInfoToken::from_json(&payload) {
        Ok(t) => Ok(t),
        Err(m) => Err(DecodeError::UnableToParseBase64AsJson(m)),
    }
}

/// Decodes the access token, as [`decode_id_token`] does for its kind.
fn decode_access_token(decoder: &JWTDecoder, s: &str) -> (r: Result<AccessToken, DecodeError>)
    requires
        decoder is WithoutValidation,
    ensures
        r matches Ok(t) ==> access_claims_of_token(s@) == Some(t@),
        r is Ok <==> access_claims_of_token(s@) is Some,
        r matches Err(e) ==> (e is MalformedJWT <==> !has_dot(s@)),
{
    let payload = decoder.decode(s)?;
    match AccessToken::from_json(&payload) {
        Ok(t) => Ok(t),
        Err(m) => Err(DecodeError::UnableToParseBase64AsJson(m)),
    }
}

impl AuthzInputRaw {
    /// Decodes the three tokens, failing fast: the error names the
    /// first token that does not decode, so an access-token failure is
    /// distinguishable from an id-token or userinfo-token failure.
    pub fn decode_tokens(self, decoder: &JWTDecoder) -> (r: Result<AuthzInput, DecodeTokensError>)
        requires
            decoder is WithoutValidation,
        ensures
            r matches Ok(out) ==> {
                &&& id_claims_of_token(self.id_token@) == Some(out.jwt.id_token@)
                &&& userinfo_claims_of_token(self.userinfo_token@) == Some(
                    out.jwt.userinfo_token@,
                )
                &&& access_claims_of_token(self.access_token@) == Some(out.jwt.access_token@)
                &&& out.chedar_params == self.extra
            },
            r is Ok <==> claims_ok(self.id_token@, self.userinfo_token@, self.access_token@),
            r matches Err(e) ==> {
                &&& e is IdToken <==> id_claims_of_token(self.id_token@) is None
                &&& e is UserInfoToken <==> (id_claims_of_token(self.id_token@) is Some
                    && userinfo_claims_of_token(self.userinfo_token@) is None)
                &&& e is AccessToken <==> (id_claims_of_token(self.id_token@) is Some
                    && userinfo_claims_of_token(self.userinfo_token@) is Some
                    && access_claims_of_token(self.access_token@) is None)
            },
            r matches Err(DecodeTokensError::IdToken(inner)) ==> (inner is MalformedJWT <==> !has_dot(
                self.id_token@,
            )),
            r matches Err(DecodeTokensError::UserInfoToken(inner)) ==> (inner is MalformedJWT
                <==> !has_dot(self.userinfo_token@)),
            r matches Err(DecodeTokensError::AccessToken(inner)) ==> (inner is MalformedJWT
                <==> !has_dot(self.access_token@)),
    {
        let id_token = match decode_id_token(decoder, self.id_token.as_str()) {
            Ok(t) => t,
            Err(e) => {
                return Err(DecodeTokensError::IdToken(e));
            },
        };
        let userinfo_token = match decode_userinfo_token(decoder, self.userinfo_token.as_str()) {
            Ok(t) => t,
            Err(e) => {
                return Err(DecodeTokensError::UserInfoToken(e));
            },
        };
        let access_token = match decode_access_token(decoder, self.access_token.as_str()) {
            Ok(t) => t,
            Err(e) => {
                return Err(DecodeTokensError::AccessToken(e));
            },
        };
        Ok(AuthzInput {
            jwt: JWTData { id_token, userinfo_token, access_token },
            chedar_params: self.extra,
        })
    }
}

/// Which entity synthesis failed, and why; an access-token failure is
/// distinguishable from an id-token or userinfo-token failure.
#[derive(Debug)]
pub enum AuthzInputEntitiesError {
    IdTokenEntity(EntityCreatingError),
    UserEntity(EntityCreatingError),
    AccessTokenEntity(EntityCreatingError),
    ApplicationEntity(EntityCreatingError),
}

/// The entities synthesized from one decoded input, and the identity of
/// the principal among them.
pub struct JWTDataEntities {
    /// The synthesized entities, each paired with the engine's form of
    /// it.
    pub entities: Vec<BuiltEntity>,
    /// The identity of the principal: the user entity, never the
    /// client.
    pub user_entity_uid: EntityIdent,
}

/// The view of an optional string.
pub open spec fn opt_view(o: Option<String>) -> Option<Seq<char>> {
    match o {
        Some(s) => Some(s@),
        None => None,
    }
}

/// The models of the entities one decoded input synthesizes: the
/// id-token entity, the principal (with no roles), the client, and,
/// when an application name is configured, the application.
pub open spec fn synthesized_models(
    idv: IdTokenV,
    uiv: UserInfoTokenV,
    atv: AccessTokenV,
    app: Option<Seq<char>>,
) -> Seq<EntityV> {
    let id_e = id_token_entity_v(idv);
    let user_e = user_entity_v(uiv, Seq::empty());
    let client_e = client_entity_v(atv);
    match app {
        Some(n) => seq![id_e, user_e, client_e, application_entity_v(atv, n, client_e.uid)],
        None => seq![id_e, user_e, client_e],
    }
}

impl JWTData {
    /// Synthesizes the entities of the decoded input: the id-token
    /// entity, the principal, the client, and, when an application name
    /// is configured, the application.  The first synthesis that fails
    /// aborts the call and the error names it, so the call succeeds
    /// exactly when every synthesized entity can be handed to the
    /// engine.
    pub fn entities(self, application_name: Option<&str>) -> (r: Result<
        JWTDataEntities,
        AuthzInputEntitiesError,
    >)
        ensures
            r matches Ok(out) ==> {
                &&& built_models(out.entities@) == synthesized_models(
                    self.id_token@,
                    self.userinfo_token@,
                    self.access_token@,
                    match application_name {
                        Some(n) => Some(n@),
                        None => None,
                    },
                )
                &&& out.user_entity_uid@ == (EntityIdentV {
                    etype: "User"@,
                    eid: self.userinfo_token@.inum,
                })
            },
            r is Ok <==> models_convertible(
                synthesized_models(
                    self.id_token@,
                    self.userinfo_token@,
                    self.access_token@,
                    match application_name {
                        Some(n) => Some(n@),
                        None => None,
                    },
                ),
            ),
            (r matches Err(e) && e is IdTokenEntity) <==> !entity_convertible(
                id_token_entity_v(self.id_token@),
            ),
            (r matches Err(e) && e is UserEntity) <==> (entity_convertible(
                id_token_entity_v(self.id_token@),
            ) && !entity_convertible(user_entity_v(self.userinfo_token@, Seq::empty()))),
            (r matches Err(e) && e is AccessTokenEntity) <==> (entity_convertible(
                id_token_entity_v(self.id_token@),
            ) && entity_convertible(user_entity_v(self.userinfo_token@, Seq::empty()))
                && !entity_convertible(client_entity_v(self.access_token@))),
            (r matches Err(e) && e is ApplicationEntity) <==> (entity_convertible(
                id_token_entity_v(self.id_token@),
            ) && entity_convertible(user_entity_v(self.userinfo_token@, Seq::empty()))
                && entity_convertible(client_entity_v(self.access_token@))
                && application_name is Some && !entity_convertible(
                application_entity_v(
                    self.access_token@,
                    application_name->0@,
                    client_entity_v(self.access_token@).uid,
                ),
            )),
    {
        let ghost appv: Option<Seq<char>> = match application_name {
            Some(n) => Some(n@),
            None => None,
        };
        let ghost expected = synthesized_models(
            self.id_token@,
            self.userinfo_token@,
            self.access_token@,
            appv,
        );
        proof {
            assert(expected[0] == id_token_entity_v(self.id_token@));
            assert(expected[1] == user_entity_v(self.userinfo_token@, Seq::empty()));
            assert(expected[2] == client_entity_v(self.access_token@));
            if appv is Some {
                assert(expected[3] == application_entity_v(
                    self.access_token@,
                    appv->0,
                    client_entity_v(self.access_token@).uid,
                ));
            }
        }
        let id_built = match self.id_token.get_token_entity() {
            Ok(b) => b,
            Err(e) => {
                proof {
                    assert(!models_convertible(expected));
                }
                return Err(AuthzInputEntitiesError::IdTokenEntity(e));
            },
        };
        let empty_roles: Vec<EntityIdent> = Vec::new();
        proof {
            assert(empty_roles@.map_values(|p: EntityIdent| p@) =~= Seq::<EntityIdentV>::empty());
        }
        let user_built = match self.userinfo_token.get_user_entity(&empty_roles) {
            Ok(b) => b,
            Err(e) => {
                proof {
                    assert(!models_convertible(expected));
                }
                return Err(AuthzInputEntitiesError::UserEntity(e));
            },
        };
        let user_entity_uid = user_built.model().uid.duplicate();
        let client_built = match self.access_token.get_client_entity() {
            Ok(b) => b,
            Err(e) => {
                proof {
                    assert(!models_convertible(expected));
                }
                return Err(AuthzInputEntitiesError::AccessTokenEntity(e));
            },
        };
        let client_uid = client_built.model().uid.duplicate();
        let mut entities: Vec<BuiltEntity> = Vec::new();
        entities.push(id_built);
        entities.push(user_built);
        entities.push(client_built);
        match application_name {
            Some(name) => {
                let app_built = match self.access_token.get_application_entity(name, client_uid) {
                    Ok(b) => b,
                    Err(e) => {
                        proof {
                            assert(!models_convertible(expected));
                        }
                        return Err(AuthzInputEntitiesError::ApplicationEntity(e));
                    },
                };
                entities.push(app_built);
            },
            None => (),
        }
        proof {
            assert(built_models(entities@) =~= expected);
            assert(models_convertible(expected)) by {
                assert(forall|i: int|
                    0 <= i < expected.len() ==> entity_convertible(#[trigger] expected[i])) by {
                    assert(expected[0] == id_token_entity_v(self.id_token@));
                    assert(expected[1] == user_entity_v(self.userinfo_token@, Seq::empty()));
                    assert(expected[2] == client_entity_v(self.access_token@));
                    if appv is Some {
                        assert(expected[3] == application_entity_v(
                            self.access_token@,
                            appv->0,
                            client_entity_v(self.access_token@).uid,
                        ));
                    }
                }
            }
        }
        Ok(JWTDataEntities { entities, user_entity_uid })
    }
}

/// The parts of an input document.
pub struct InputV {
    pub id_token: Seq<char>,
    pub userinfo_token: Seq<char>,
    pub access_token: Seq<char>,
    pub action: Seq<char>,
    pub resource: JsonValV,
    pub context: JsonValV,
}

/// The parts an input document denotes, if it is a JSON object with
/// the three token strings, an action string, a resource, and a
/// context; other members are ignored.
pub open spec fn input_of_json(v: JsonValV) -> Option<InputV> {
    match v {
        JsonValV::Obj(ms) => match (
            req_string(ms, "id_token"@),
            req_string(ms, "userinfo_token"@),
            req_string(ms, "access_token"@),
            req_string(ms, "action"@),
            obj_lookup(ms, "resource"@),
            obj_lookup(ms, "context"@),
        ) {
            (Some(idt), Some(uit), Some(att), Some(act), Some(res), Some(ctx)) => Some(
                InputV {
                    id_token: idt,
                    userinfo_token: uit,
                    access_token: att,
                    action: act,
                    resource: res,
                    context: ctx,
                },
            ),
            _ => None,
        },
        _ => None,
    }
}

/// Determinism of the input pipeline: everything a call computes
/// before the engine is invoked — the parts read from the input
/// document, the claim records the tokens denote, and the entity
/// models synthesized from them — is a function of the input text
/// alone, so two identical input documents denote identical values and
/// place identical requests before the engine.
pub proof fn lemma_pipeline_deterministic(d1: Seq<char>, d2: Seq<char>, app: Option<Seq<char>>)
    requires
        d1 == d2,
    ensures
        json_of(d1) == json_of(d2),
        json_of(d1) matches Some(doc1) ==> input_of_json(doc1) == input_of_json(
            json_of(d2)->Some_0,
        ),
        json_of(d1) matches Some(doc1) ==> input_of_json(doc1) matches Some(inp) ==> {
            &&& id_claims_of_token(inp.id_token) == id_claims_of_token(
                input_of_json(json_of(d2)->Some_0)->Some_0.id_token,
            )
            &&& claims_ok(inp.id_token, inp.userinfo_token, inp.access_token) ==> synthesized_models(
                id_claims_of_token(inp.id_token)->Some_0,
                userinfo_claims_of_token(inp.userinfo_token)->Some_0,
                access_claims_of_token(inp.access_token)->Some_0,
                app,
            ) == synthesized_models(
                id_claims_of_token(input_of_json(json_of(d2)->Some_0)->Some_0.id_token)->Some_0,
                userinfo_claims_of_token(
                    input_of_json(json_of(d2)->Some_0)->Some_0.userinfo_token,
                )->Some_0,
                access_claims_of_token(
                    input_of_json(json_of(d2)->Some_0)->Some_0.access_token,
                )->Some_0,
                app,
            )
        },
{
}

/// Why the service could not be constructed.
#[derive(Debug)]
pub enum AuthzNewError {
    /// The policy set text did not parse.
    PolicySet(String),
    /// The baseline entities document was rejected.
    Entities(String),
}

/// The configuration of the service: an optional application name, the
/// token-decoding strategy, the policy set text, and the baseline
/// entities document.
pub struct AuthzConfig {
    pub app_name: Option<String>,
    pub decoder: JWTDecoder,
    pub policies: String,
    pub default_entities_json: String,
}

/// The authorization decision.
#[derive(Clone, Copy, Debug, PartialEq, Eq, Structural)]
pub enum Decision {
    Allow,
    Deny,
}

/// The outcome of one authorization call: the decision and the ids of
/// the policies that contributed to it, in no promised order.
#[derive(Debug)]
pub struct AuthzResponse {
    pub decision: Decision,
    pub reasons: Vec<String>,
}

impl AuthzResponse {
    /// The decision.
    pub fn decision(&self) -> (r: Decision)
        ensures
            r == self.decision,
    {
        self.decision
    }

    /// The ids of the policies that contributed to the decision.
    pub fn diagnostics(&self) -> (r: &Vec<String>)
        ensures
            r == &self.reasons,
    {
        &self.reasons
    }
}

/// Why one authorization call failed; one variant per pipeline stage.
#[derive(Debug)]
pub enum HandleError {
    /// The input document is not valid JSON or lacks a required field.
    InputJsonParse(String),
    /// A token could not be decoded.
    DecodeTokens(DecodeTokensError),
    /// The action is not a well-formed identity literal.
    Action(String),
    /// The resource is neither an identity literal nor a well-formed
    /// type/id object.
    Resource(String),
    /// An entity could not be synthesized from the claims.
    AuthzInputEntities(AuthzInputEntitiesError),
    /// The synthesized entities could not be unioned into the baseline.
    AddEntities(EntitiesMergeError),
    /// The context is not an object of representable values.
    Context(String),
    /// The request could not be constructed; the engine validates a
    /// request only against a schema, which this service does not use,
    /// so this error does not arise here.
    Request(String),
}

/// Whether a JSON value names a resource: an identity literal string,
/// or a type/id object whose type name is well formed.
pub open spec fn resource_ok(v: JsonValV) -> bool {
    match v {
        JsonValV::Str(s) => uid_literal_ok(s),
        JsonValV::Obj(_) => match uid_of_json(v) {
            Some(u) => type_name_ok(u.etype),
            None => false,
        },
        _ => false,
    }
}

/// Resolves the resource reference, in its two accepted shapes, to one
/// of the engine's identities; fails exactly when [`resource_ok`] says
/// the value names no resource.
fn resource_uid(v: &JsonVal) -> (r: Result<cedar_policy::EntityUid, String>)
    ensures
        r is Ok <==> resource_ok(json_view(*v)),
{
    match v {
        JsonVal::Str(s) => parse_uid_literal(s.as_str()),
        JsonVal::Obj(_) => {
            let ident = match uid_from_json(v) {
                Ok(u) => u,
                Err(e) => {
                    return Err(e);
                },
            };
            cedar_uid(&ident)
        },
        _ => Err("a resource must be an identity literal or a type/id object".to_owned()),
    }
}

/// The authorization service: the configured application name and
/// decoder, the compiled policy set, and the baseline entity set, all
/// fixed at construction.
pub struct Authz {
    app_name: Option<String>,
    jwt_dec: JWTDecoder,
    policy: cedar_policy::PolicySet,
    baseline: Baseline,
}

impl Authz {
    /// Whether the service is usable: the decoder is the implemented
    /// unvalidated strategy, and the baseline identities are pairwise
    /// distinct.
    pub closed spec fn wf(&self) -> bool {
        &&& self.jwt_dec is WithoutValidation
        &&& uids_distinct(self.baseline.graph_view())
    }

    /// The baseline entity graph the service was built with.
    pub closed spec fn baseline_view(&self) -> Seq<EntityV> {
        self.baseline.graph_view()
    }

    /// The configured application name.
    pub closed spec fn app_name_view(&self) -> Option<Seq<char>> {
        opt_view(self.app_name)
    }

    /// Builds the service: parses the policy set, then loads the
    /// baseline entity set, failing fast in that order.  Construction
    /// succeeds exactly when both are accepted; both are fixed for the
    /// service's lifetime, and each call clones-then-extends the
    /// baseline rather than mutating it.
    pub fn new(config: AuthzConfig) -> (r: Result<Authz, AuthzNewError>)
        ensures
            r is Ok <==> policies_wf(config.policies@) && baseline_ok(
                config.default_entities_json@,
            ),
            (r matches Err(e) && e is PolicySet) <==> !policies_wf(config.policies@),
            (r matches Err(e) && e is Entities) <==> (policies_wf(config.policies@)
                && !baseline_ok(config.default_entities_json@)),
            r matches Ok(a) ==> {
                &&& (config.decoder is WithoutValidation ==> a.wf())
                &&& a.app_name_view() == opt_view(config.app_name)
                &&& a.baseline_view() == graph_of_json(
                    json_of(config.default_entities_json@)->Some_0,
                )->Some_0
            },
    {
        let policy = match policy_set_from_str(config.policies.as_str()) {
            Ok(p) => p,
            Err(e) => {
                return Err(AuthzNewError::PolicySet(e));
            },
        };
        let baseline = match load_baseline(config.default_entities_json.as_str()) {
            Ok(b) => b,
            Err(e) => {
                return Err(AuthzNewError::Entities(e));
            },
        };
        Ok(Authz { app_name: config.app_name, jwt_dec: config.decoder, policy, baseline })
    }

    /// The models of the entities the given tokens would synthesize
    /// under this service's configuration.
    pub open spec fn synth_models(&self, id: Seq<char>, ui: Seq<char>, at: Seq<char>) -> Seq<
        EntityV,
    >
        recommends
            claims_ok(id, ui, at),
    {
        synthesized_models(
            id_claims_of_token(id)->Some_0,
            userinfo_claims_of_token(ui)->Some_0,
            access_claims_of_token(at)->Some_0,
            self.app_name_view(),
        )
    }

    /// Runs the pipeline on the parts of one authorization call: the
    /// three token strings, the action literal, and the resource and
    /// context values.  Strictly fail-fast: the first failing stage
    /// aborts the call and names itself in the error.
    pub fn handle_parts(
        &self,
        id_token: &str,
        userinfo_token: &str,
        access_token: &str,
        action: &str,
        resource: &JsonVal,
        context: &JsonVal,
    ) -> (r: Result<AuthzResponse, HandleError>)
        requires
            self.wf(),
        ensures
            (r matches Err(e) && e is DecodeTokens) <==> !claims_ok(
                id_token@,
                userinfo_token@,
                access_token@,
            ),
            (r matches Err(e) && e is Action) <==> (claims_ok(
                id_token@,
                userinfo_token@,
                access_token@,
            ) && !uid_literal_ok(action@)),
            (r matches Err(e) && e is Resource) <==> (claims_ok(
                id_token@,
                userinfo_token@,
                access_token@,
            ) && uid_literal_ok(action@) && !resource_ok(json_view(*resource))),
            (r matches Err(e) && e is AuthzInputEntities) <==> (claims_ok(
                id_token@,
                userinfo_token@,
                access_token@,
            ) && uid_literal_ok(action@) && resource_ok(json_view(*resource))
                && !models_convertible(
                self.synth_models(id_token@, userinfo_token@, access_token@),
            )),
            (r matches Err(e) && e is AddEntities) <==> (claims_ok(
                id_token@,
                userinfo_token@,
                access_token@,
            ) && uid_literal_ok(action@) && resource_ok(json_view(*resource))
                && models_convertible(
                self.synth_models(id_token@, userinfo_token@, access_token@),
            ) && merge_collision(
                self.baseline_view(),
                self.synth_models(id_token@, userinfo_token@, access_token@),
            )),
            r matches Err(HandleError::AddEntities(me)) ==> has_uid(
                self.baseline_view() + self.synth_models(
                    id_token@,
                    userinfo_token@,
                    access_token@,
                ),
                me.uid@,
            ),
            (r matches Err(e) && e is Context) <==> (claims_ok(
                id_token@,
                userinfo_token@,
                access_token@,
            ) && uid_literal_ok(action@) && resource_ok(json_view(*resource))
                && models_convertible(
                self.synth_models(id_token@, userinfo_token@, access_token@),
            ) && !merge_collision(
                self.baseline_view(),
                self.synth_models(id_token@, userinfo_token@, access_token@),
            ) && !context_ok(json_view(*context))),
            r is Ok <==> {
                &&& claims_ok(id_token@, userinfo_token@, access_token@)
                &&& uid_literal_ok(action@)
                &&& resource_ok(json_view(*resource))
                &&& models_convertible(
                    self.synth_models(id_token@, userinfo_token@, access_token@),
                )
                &&& !merge_collision(
                    self.baseline_view(),
                    self.synth_models(id_token@, userinfo_token@, access_token@),
                )
                &&& context_ok(json_view(*context))
            },
            r matches Err(e) ==> !(e is InputJsonParse) && !(e is Request),
    {
        let id_tok = match decode_id_token(&self.jwt_dec, id_token) {
            Ok(t) => t,
            Err(e) => {
                return Err(HandleError::DecodeTokens(DecodeTokensError::IdToken(e)));
            },
        };
        let ui_tok = match decode_userinfo_token(&self.jwt_dec, userinfo_token) {
            Ok(t) => t,
            Err(e) => {
                return Err(HandleError::DecodeTokens(DecodeTokensError::UserInfoToken(e)));
            },
        };
        let at_tok = match decode_access_token(&self.jwt_dec, access_token) {
            Ok(t) => t,
            Err(e) => {
                return Err(HandleError::DecodeTokens(DecodeTokensError::AccessToken(e)));
            },
        };
        let action_uid = match parse_uid_literal(action) {
            Ok(u) => u,
            Err(e) => {
                return Err(HandleError::Action(e));
            },
        };
        let resource_c = match resource_uid(resource) {
            Ok(u) => u,
            Err(e) => {
                return Err(HandleError::Resource(e));
            },
        };
        let jwt = JWTData { id_token: id_tok, userinfo_token: ui_tok, access_token: at_tok };
        let app_ref: Option<&str> = match &self.app_name {
            Some(s) => Some(s.as_str()),
            None => None,
        };
        let ents = match jwt.entities(app_ref) {
            Ok(o) => o,
            Err(e) => {
                return Err(HandleError::AuthzInputEntities(e));
            },
        };
        let models = built_models_vec(&ents.entities);
        match self.baseline.graph().merge(&models) {
            Ok(_) => (),
            Err(e) => {
                return Err(HandleError::AddEntities(e));
            },
        }
        let engine_entities = match baseline_add_built(&self.baseline, &ents.entities) {
            Ok(es) => es,
            Err(_) => vstd::pervasive::unreached(),
        };
        let ctx = match build_context(context) {
            Ok(c) => c,
            Err(m) => {
                return Err(HandleError::Context(m));
            },
        };
        proof {
            let ghost ms = self.synth_models(id_token@, userinfo_token@, access_token@);
            assert(ms[1] == user_entity_v(
                userinfo_claims_of_token(userinfo_token@)->Some_0,
                Seq::empty(),
            ));
            assert(entity_convertible(ms[1]));
            assert(type_name_ok("User"@));
        }
        let principal = match cedar_uid(&ents.user_entity_uid) {
            Ok(u) => u,
            Err(_) => vstd::pervasive::unreached(),
        };
        let req = match request_new(principal, action_uid, resource_c, ctx) {
            Ok(q) => q,
            Err(_) => vstd::pervasive::unreached(),
        };
        let resp = authorize(&req, &self.policy, &engine_entities);
        let allowed = response_allowed(&resp);
        let reasons = response_reasons(&resp);
        Ok(
            AuthzResponse {
                decision: if allowed {
                    Decision::Allow
                } else {
                    Decision::Deny
                },
                reasons,
            },
        )
    }

    /// Runs the pipeline on a whole input document: a JSON object with
    /// the three token strings, the action literal, and the resource
    /// and context values.
    pub fn handle_raw_input(&self, data: &str) -> (r: Result<AuthzResponse, HandleError>)
        requires
            self.wf(),
        ensures
            (r matches Err(e) && e is InputJsonParse) <==> (json_of(data@) is None
                || input_of_json(json_of(data@)->Some_0) is None),
            json_of(data@) matches Some(doc) ==> input_of_json(doc) matches Some(inp) ==> {
                &&& ((r matches Err(e) && e is DecodeTokens) <==> !claims_ok(
                    inp.id_token,
                    inp.userinfo_token,
                    inp.access_token,
                ))
                &&& ((r matches Err(e) && e is Action) <==> (claims_ok(
                    inp.id_token,
                    inp.userinfo_token,
                    inp.access_token,
                ) && !uid_literal_ok(inp.action)))
                &&& ((r matches Err(e) && e is Resource) <==> (claims_ok(
                    inp.id_token,
                    inp.userinfo_token,
                    inp.access_token,
                ) && uid_literal_ok(inp.action) && !resource_ok(inp.resource)))
                &&& ((r matches Err(e) && e is AuthzInputEntities) <==> (claims_ok(
                    inp.id_token,
                    inp.userinfo_token,
                    inp.access_token,
                ) && uid_literal_ok(inp.action) && resource_ok(inp.resource)
                    && !models_convertible(
                    self.synth_models(inp.id_token, inp.userinfo_token, inp.access_token),
                )))
                &&& ((r matches Err(e) && e is AddEntities) <==> (claims_ok(
                    inp.id_token,
                    inp.userinfo_token,
                    inp.access_token,
                ) && uid_literal_ok(inp.action) && resource_ok(inp.resource)
                    && models_convertible(
                    self.synth_models(inp.id_token, inp.userinfo_token, inp.access_token),
                ) && merge_collision(
                    self.baseline_view(),
                    self.synth_models(inp.id_token, inp.userinfo_token, inp.access_token),
                )))
                &&& ((r matches Err(e) && e is Context) <==> (claims_ok(
                    inp.id_token,
                    inp.userinfo_token,
                    inp.access_token,
                ) && uid_literal_ok(inp.action) && resource_ok(inp.resource)
                    && models_convertible(
                    self.synth_models(inp.id_token, inp.userinfo_token, inp.access_token),
                ) && !merge_collision(
                    self.baseline_view(),
                    self.synth_models(inp.id_token, inp.userinfo_token, inp.access_token),
                ) && !context_ok(inp.context)))
                &&& (r is Ok <==> {
                    &&& claims_ok(inp.id_token, inp.userinfo_token, inp.access_token)
                    &&& uid_literal_ok(inp.action)
                    &&& resource_ok(inp.resource)
                    &&& models_convertible(
                        self.synth_models(inp.id_token, inp.userinfo_token, inp.access_token),
                    )
                    &&& !merge_collision(
                        self.baseline_view(),
                        self.synth_models(inp.id_token, inp.userinfo_token, inp.access_token),
                    )
                    &&& context_ok(inp.context)
                })
                &&& (r matches Err(e) ==> !(e is Request))
            },
    {
        let cs = chars_vec(data);
        let doc = match parse_json(&cs) {
            Ok(d) => d,
            Err(m) => {
                return Err(HandleError::InputJsonParse(m));
            },
        };
        match &doc {
            JsonVal::Obj(members) => {
                let idt = match get_req_string(members, "id_token") {
                    Ok(s) => s,
                    Err(m) => {
                        return Err(HandleError::InputJsonParse(m));
                    },
                };
                let uit = match get_req_string(members, "userinfo_token") {
                    Ok(s) => s,
                    Err(m) => {
                        return Err(HandleError::InputJsonParse(m));
                    },
                };
                let att = match get_req_string(members, "access_token") {
                    Ok(s) => s,
                    Err(m) => {
                        return Err(HandleError::InputJsonParse(m));
                    },
                };
                let act = match get_req_string(members, "action") {
                    Ok(s) => s,
                    Err(m) => {
                        return Err(HandleError::InputJsonParse(m));
                    },
                };
                let res = match obj_get(members, "resource") {
                    Some(v) => v,
                    None => {
                        return Err(
                            HandleError::InputJsonParse("the input has no resource".to_owned()),
                        );
                    },
                };
                let ctx = match obj_get(members, "context") {
                    Some(v) => v,
                    None => {
                        return Err(
                            HandleError::InputJsonParse("the input has no context".to_owned()),
                        );
                    },
                };
                self.handle_parts(
                    idt.as_str(),
                    uit.as_str(),
                    att.as_str(),
                    act.as_str(),
                    res,
                    ctx,
                )
            },
            _ => Err(
                HandleError::InputJsonParse("the input document is not a JSON object".to_owned()),
            ),
        }
    }

    /// Runs the pipeline on a raw input whose resource and context are
    /// already-parsed JSON values of the embedding's JSON library.
    pub fn handle(&self, input: AuthzInputRaw) -> (r: Result<AuthzResponse, HandleError>)
        requires
            self.wf(),
        ensures
            (r matches Err(e) && e is DecodeTokens) <==> !claims_ok(
                input.id_token@,
                input.userinfo_token@,
                input.access_token@,
            ),
            (r matches Err(e) && e is Action) <==> (claims_ok(
                input.id_token@,
                input.userinfo_token@,
                input.access_token@,
            ) && !uid_literal_ok(input.extra.action@)),
            r is Ok ==> claims_ok(input.id_token@, input.userinfo_token@, input.access_token@)
                && uid_literal_ok(input.extra.action@),
            r matches Err(e) ==> !(e is InputJsonParse),
    {
        let AuthzInputRaw { id_token, userinfo_token, access_token, extra } = input;
        let CedarParams { action, resource, context } = extra;
        let resource_val = json_tree(resource);
        let context_val = json_tree(context);
        self.handle_parts(
            id_token.as_str(),
            userinfo_token.as_str(),
            access_token.as_str(),
            action.as_str(),
            &resource_val,
            &context_val,
        )
    }
}

} // verus!
