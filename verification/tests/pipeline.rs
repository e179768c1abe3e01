//! End-to-end tests of the authorization pipeline: construction,
//! decisions, determinism, and each failing stage.

use authz::jwt::JWTDecoder;
use authz::{
    Authz, AuthzConfig, AuthzInputRaw, AuthzNewError, CedarParams, Decision, DecodeTokensError,
    HandleError,
};

const ENTITIES: &str = r#"[
  {"uid": {"type": "Folder", "id": "public_folder_id_uuid"}, "attrs": {"public": true}},
  {"uid": {"type": "Folder", "id": "private_folder_id_uuid"}, "attrs": {"public": false}}
]"#;

const POLICIES: &str =
    r#"permit(principal, action == Action::"view", resource == Folder::"public_folder_id_uuid");"#;

const ID_TOKEN: &str =
    r#"h.{\"jti\":\"t1\",\"iss\":\"iss1\",\"aud\":\"app1\",\"sub\":\"bob\",\"iat\":1,\"exp\":2}.s"#;
const USERINFO_TOKEN: &str =
    r#"h.{\"jti\":\"u1\",\"iss\":\"iss1\",\"sub\":\"bob\",\"aud\":\"app1\",\"inum\":\"Bob_user_id_uuid\"}.s"#;
const ACCESS_TOKEN: &str =
    r#"h.{\"jti\":\"a1\",\"iss\":\"iss1\",\"aud\":\"app1\",\"scope\":[\"openid\"],\"client_id\":\"c1\",\"exp\":2,\"iat\":1}.s"#;

fn service(entities: &str) -> Authz {
    Authz::new(AuthzConfig {
        app_name: Some("Demo_App".to_owned()),
        decoder: JWTDecoder::new_without_validation(),
        policies: POLICIES.to_owned(),
        default_entities_json: entities.to_owned(),
    })
    .unwrap()
}

fn input(action: &str, resource: &str, context: &str) -> String {
    format!(
        "{{\"id_token\":\"{}\",\"userinfo_token\":\"{}\",\"access_token\":\"{}\",\"action\":\"{}\",\"resource\":{},\"context\":{}}}",
        ID_TOKEN, USERINFO_TOKEN, ACCESS_TOKEN, action, resource, context
    )
}

#[test]
fn end_to_end_allow() {
    let authz = service(ENTITIES);
    let data = input(
        "Action::\\\"view\\\"",
        "\"Folder::\\\"public_folder_id_uuid\\\"\"",
        "{}",
    );
    let resp = authz.handle_raw_input(&data).unwrap();
    assert_eq!(resp.decision(), Decision::Allow);
    assert_eq!(resp.diagnostics().as_slice(), ["policy0"]);
}

#[test]
fn end_to_end_deny() {
    let authz = service(ENTITIES);
    let data = input(
        "Action::\\\"view\\\"",
        "\"Folder::\\\"private_folder_id_uuid\\\"\"",
        "{}",
    );
    let resp = authz.handle_raw_input(&data).unwrap();
    assert_eq!(resp.decision(), Decision::Deny);
    assert!(resp.diagnostics().is_empty());
}

#[test]
fn resource_as_type_id_object_is_accepted() {
    let authz = service(ENTITIES);
    let data = input(
        "Action::\\\"view\\\"",
        "{\"type\":\"Folder\",\"id\":\"public_folder_id_uuid\"}",
        "{}",
    );
    let resp = authz.handle_raw_input(&data).unwrap();
    assert_eq!(resp.decision(), Decision::Allow);
}

#[test]
fn identical_inputs_give_identical_decisions() {
    let authz = service(ENTITIES);
    let data = input(
        "Action::\\\"view\\\"",
        "\"Folder::\\\"public_folder_id_uuid\\\"\"",
        "{}",
    );
    let r1 = authz.handle_raw_input(&data).unwrap();
    let r2 = authz.handle_raw_input(&data).unwrap();
    assert_eq!(r1.decision(), r2.decision());
    let mut d1 = r1.diagnostics().clone();
    let mut d2 = r2.diagnostics().clone();
    d1.sort();
    d2.sort();
    assert_eq!(d1, d2);
}

#[test]
fn invalid_action_is_an_action_parse_error() {
    let authz = service(ENTITIES);
    let data = input(
        "InvalidAction",
        "\"Folder::\\\"public_folder_id_uuid\\\"\"",
        "{}",
    );
    let r = authz.handle_raw_input(&data);
    assert!(matches!(r, Err(HandleError::Action(_))));
}

#[test]
fn invalid_resource_is_a_resource_parse_error() {
    let authz = service(ENTITIES);
    let data = input("Action::\\\"view\\\"", "123", "{}");
    assert!(matches!(authz.handle_raw_input(&data), Err(HandleError::Resource(_))));

    let data = input("Action::\\\"view\\\"", "\"InvalidResource\"", "{}");
    assert!(matches!(authz.handle_raw_input(&data), Err(HandleError::Resource(_))));
}

#[test]
fn unrepresentable_context_is_a_context_error() {
    let authz = service(ENTITIES);
    let data = input(
        "Action::\\\"view\\\"",
        "\"Folder::\\\"public_folder_id_uuid\\\"\"",
        "{\"bad\":null}",
    );
    assert!(matches!(authz.handle_raw_input(&data), Err(HandleError::Context(_))));
}

#[test]
fn malformed_access_token_is_blamed_on_the_access_token() {
    let authz = service(ENTITIES);
    let data = format!(
        "{{\"id_token\":\"{}\",\"userinfo_token\":\"{}\",\"access_token\":\"nodelimiter\",\"action\":\"Action::\\\"view\\\"\",\"resource\":\"Folder::\\\"public_folder_id_uuid\\\"\",\"context\":{{}}}}",
        ID_TOKEN, USERINFO_TOKEN
    );
    let r = authz.handle_raw_input(&data);
    assert!(matches!(
        r,
        Err(HandleError::DecodeTokens(DecodeTokensError::AccessToken(_)))
    ));
}

#[test]
fn bad_input_document_is_an_input_parse_error() {
    let authz = service(ENTITIES);
    assert!(matches!(
        authz.handle_raw_input("not json at all"),
        Err(HandleError::InputJsonParse(_))
    ));
    assert!(matches!(
        authz.handle_raw_input("{\"id_token\":\"x.y\"}"),
        Err(HandleError::InputJsonParse(_))
    ));
}

#[test]
fn synthesized_identity_colliding_with_baseline_is_a_merge_error() {
    let with_bob = r#"[
      {"uid": {"type": "Folder", "id": "public_folder_id_uuid"}},
      {"uid": {"type": "User", "id": "Bob_user_id_uuid"}, "attrs": {"sub": "someone else"}}
    ]"#;
    let authz = service(with_bob);
    let data = input(
        "Action::\\\"view\\\"",
        "\"Folder::\\\"public_folder_id_uuid\\\"\"",
        "{}",
    );
    let r = authz.handle_raw_input(&data);
    assert!(matches!(r, Err(HandleError::AddEntities(_))));
}

#[test]
fn unevaluable_extra_claim_is_a_synthesis_error_blamed_on_the_user_entity() {
    // The engine rejects a fixed-point decimal it cannot evaluate; the
    // claim reaches it through the userinfo token's unmodeled claims.
    let authz = service(ENTITIES);
    let userinfo = r#"h.{\"jti\":\"u1\",\"iss\":\"iss1\",\"sub\":\"bob\",\"aud\":\"app1\",\"inum\":\"Bob_user_id_uuid\",\"score\":1e-40}.s"#;
    let data = format!(
        "{{\"id_token\":\"{}\",\"userinfo_token\":\"{}\",\"access_token\":\"{}\",\"action\":\"Action::\\\"view\\\"\",\"resource\":\"Folder::\\\"public_folder_id_uuid\\\"\",\"context\":{{}}}}",
        ID_TOKEN, userinfo, ACCESS_TOKEN
    );
    let r = authz.handle_raw_input(&data);
    assert!(matches!(
        r,
        Err(HandleError::AuthzInputEntities(authz::AuthzInputEntitiesError::UserEntity(_)))
    ));
}

#[test]
fn representable_decimal_claim_is_carried_through() {
    // The claim is written in exponent form so that the token text
    // itself holds no delimiter; it reaches the engine as the decimal
    // text of the number.
    let authz = service(ENTITIES);
    let userinfo = r#"h.{\"jti\":\"u1\",\"iss\":\"iss1\",\"sub\":\"bob\",\"aud\":\"app1\",\"inum\":\"Bob_user_id_uuid\",\"score\":5e-1}.s"#;
    let data = format!(
        "{{\"id_token\":\"{}\",\"userinfo_token\":\"{}\",\"access_token\":\"{}\",\"action\":\"Action::\\\"view\\\"\",\"resource\":\"Folder::\\\"public_folder_id_uuid\\\"\",\"context\":{{}}}}",
        ID_TOKEN, userinfo, ACCESS_TOKEN
    );
    let resp = authz.handle_raw_input(&data).unwrap();
    assert_eq!(resp.decision(), Decision::Allow);
}

#[test]
fn decision_can_depend_on_synthesized_principal_attributes() {
    // The policy reads an attribute that only the synthesized principal
    // entity carries, so the decision shows the synthesized entities
    // really reach the engine.
    let policy = r#"permit(principal, action == Action::"view", resource == Folder::"private_folder_id_uuid") when { principal.sub == "bob" };"#;
    let authz = Authz::new(AuthzConfig {
        app_name: Some("Demo_App".to_owned()),
        decoder: JWTDecoder::new_without_validation(),
        policies: policy.to_owned(),
        default_entities_json: ENTITIES.to_owned(),
    })
    .unwrap();
    let data = input(
        "Action::\\\"view\\\"",
        "\"Folder::\\\"private_folder_id_uuid\\\"\"",
        "{}",
    );
    let resp = authz.handle_raw_input(&data).unwrap();
    assert_eq!(resp.decision(), Decision::Allow);

    // A principal with another subject is denied under the same policy.
    let other_userinfo = r#"h.{\"jti\":\"u2\",\"iss\":\"iss1\",\"sub\":\"anna\",\"aud\":\"app1\",\"inum\":\"Anna_user_id_uuid\"}.s"#;
    let data = format!(
        "{{\"id_token\":\"{}\",\"userinfo_token\":\"{}\",\"access_token\":\"{}\",\"action\":\"Action::\\\"view\\\"\",\"resource\":\"Folder::\\\"private_folder_id_uuid\\\"\",\"context\":{{}}}}",
        ID_TOKEN, other_userinfo, ACCESS_TOKEN
    );
    let resp = authz.handle_raw_input(&data).unwrap();
    assert_eq!(resp.decision(), Decision::Deny);
}

#[test]
fn ill_formed_baseline_type_name_fails_construction() {
    let bad = r#"[{"uid": {"type": "not a type name", "id": "x"}}]"#;
    let r = Authz::new(AuthzConfig {
        app_name: None,
        decoder: JWTDecoder::new_without_validation(),
        policies: POLICIES.to_owned(),
        default_entities_json: bad.to_owned(),
    });
    assert!(matches!(r, Err(AuthzNewError::Entities(_))));
}

#[test]
fn bad_policy_text_fails_construction() {
    let r = Authz::new(AuthzConfig {
        app_name: None,
        decoder: JWTDecoder::new_without_validation(),
        policies: "invalid policy syntax".to_owned(),
        default_entities_json: ENTITIES.to_owned(),
    });
    assert!(matches!(r, Err(AuthzNewError::PolicySet(_))));
}

#[test]
fn cyclic_baseline_hierarchy_fails_construction() {
    // A self-parented entity: the identities are distinct, but the
    // engine rejects the cyclic hierarchy when it computes the
    // transitive closure.
    let cyclic = r#"[{"uid": {"type": "A", "id": "1"}, "parents": [{"type": "A", "id": "1"}]}]"#;
    let r = Authz::new(AuthzConfig {
        app_name: None,
        decoder: JWTDecoder::new_without_validation(),
        policies: POLICIES.to_owned(),
        default_entities_json: cyclic.to_owned(),
    });
    assert!(matches!(r, Err(AuthzNewError::Entities(_))));

    // Two entities that are each other's parents.
    let mutual = r#"[
      {"uid": {"type": "A", "id": "1"}, "parents": [{"type": "A", "id": "2"}]},
      {"uid": {"type": "A", "id": "2"}, "parents": [{"type": "A", "id": "1"}]}
    ]"#;
    let r = Authz::new(AuthzConfig {
        app_name: None,
        decoder: JWTDecoder::new_without_validation(),
        policies: POLICIES.to_owned(),
        default_entities_json: mutual.to_owned(),
    });
    assert!(matches!(r, Err(AuthzNewError::Entities(_))));
}

#[test]
fn baseline_decimal_attribute_is_carried_through() {
    let with_decimal = r#"[
      {"uid": {"type": "Folder", "id": "public_folder_id_uuid"}, "attrs": {"rating": 4.5}}
    ]"#;
    let authz = service(with_decimal);
    let data = input(
        "Action::\\\"view\\\"",
        "\"Folder::\\\"public_folder_id_uuid\\\"\"",
        "{}",
    );
    let resp = authz.handle_raw_input(&data).unwrap();
    assert_eq!(resp.decision(), Decision::Allow);
}

#[test]
fn baseline_extension_escape_is_rejected() {
    let with_extn = r#"[
      {"uid": {"type": "Folder", "id": "f"},
       "attrs": {"ip": {"__extn": {"fn": "ip", "arg": "10.0.0.1"}}}}
    ]"#;
    let r = Authz::new(AuthzConfig {
        app_name: None,
        decoder: JWTDecoder::new_without_validation(),
        policies: POLICIES.to_owned(),
        default_entities_json: with_extn.to_owned(),
    });
    assert!(matches!(r, Err(AuthzNewError::Entities(_))));
}

#[test]
fn context_escape_key_is_rejected() {
    let authz = service(ENTITIES);
    let data = input(
        "Action::\\\"view\\\"",
        "\"Folder::\\\"public_folder_id_uuid\\\"\"",
        r#"{"who": {"__entity": {"type": "User", "id": "bob"}}}"#,
    );
    assert!(matches!(authz.handle_raw_input(&data), Err(HandleError::Context(_))));
}

#[test]
fn bad_baseline_document_fails_construction() {
    let r = Authz::new(AuthzConfig {
        app_name: None,
        decoder: JWTDecoder::new_without_validation(),
        policies: POLICIES.to_owned(),
        default_entities_json: "invalid entities json".to_owned(),
    });
    assert!(matches!(r, Err(AuthzNewError::Entities(_))));
}

#[test]
fn baseline_with_hierarchy_and_references_loads() {
    let rich = r#"[
      {"uid": {"type": "Folder", "id": "public_folder_id_uuid"},
       "attrs": {"public": true, "tags": ["a", "b"],
                 "owner": {"__entity": {"type": "User", "id": "root"}},
                 "meta": {"depth": 1}},
       "parents": [{"type": "Folder", "id": "top"}]},
      {"uid": {"type": "Folder", "id": "top"}},
      {"uid": {"type": "User", "id": "root"}}
    ]"#;
    let authz = service(rich);
    let data = input(
        "Action::\\\"view\\\"",
        "\"Folder::\\\"public_folder_id_uuid\\\"\"",
        "{}",
    );
    let resp = authz.handle_raw_input(&data).unwrap();
    assert_eq!(resp.decision(), Decision::Allow);
}

#[test]
fn handle_accepts_preparsed_query_values() {
    let authz = service(ENTITIES);
    let input = AuthzInputRaw {
        id_token: ID_TOKEN.replace("\\\"", "\""),
        userinfo_token: USERINFO_TOKEN.replace("\\\"", "\""),
        access_token: ACCESS_TOKEN.replace("\\\"", "\""),
        extra: CedarParams {
            action: "Action::\"view\"".to_owned(),
            resource: serde_json::Value::String("Folder::\"public_folder_id_uuid\"".to_owned()),
            context: serde_json::Value::Object(serde_json::Map::new()),
        },
    };
    let resp = authz.handle(input).unwrap();
    assert_eq!(resp.decision(), Decision::Allow);
}
