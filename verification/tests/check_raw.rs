//! Tests of the raw check: decisions and each failing step.

use authz::{check, CheckError, CheckParams, Decision};

const ENTITIES: &str = r#"[
  {"uid": {"type": "Folder", "id": "public_folder_id_uuid"}, "attrs": {"public": true}},
  {"uid": {"type": "Folder", "id": "private_folder_id_uuid"}, "attrs": {"public": false}}
]"#;

const POLICIES: &str =
    r#"permit(principal, action == Action::"view", resource == Folder::"public_folder_id_uuid");"#;

#[test]
fn test_valid_check() {
    let response = check(CheckParams {
        principal_str: "User::\"Bob_user_id_uuid\"",
        action_str: "Action::\"view\"",
        resource_str: "Folder::\"public_folder_id_uuid\"",
        context_json_str: "{}",
        policies_str: POLICIES,
        entities_json_str: ENTITIES,
    });

    assert!(response.is_ok(), "Expected Ok(Response), got Err: {:?}", response);
    if let Ok(response) = response {
        assert_eq!(response.decision(), Decision::Allow);
    }
}

#[test]
fn test_check_forbidden_action() {
    let response = check(CheckParams {
        principal_str: "User::\"Anna_user_id_uuid\"",
        action_str: "Action::\"view\"",
        resource_str: "Folder::\"private_folder_id_uuid\"",
        context_json_str: "{}",
        policies_str: POLICIES,
        entities_json_str: ENTITIES,
    });

    assert!(response.is_ok(), "Expected Ok(Response), got Err: {:?}", response);
    if let Ok(response) = response {
        assert_eq!(response.decision(), Decision::Deny);
    }
}

#[test]
fn test_principal_parse_error() {
    let response = check(CheckParams {
        principal_str: "InvalidPrincipal",
        action_str: "Action::\"view\"",
        resource_str: "Folder::\"public_folder_id_uuid\"",
        context_json_str: "{}",
        policies_str: POLICIES,
        entities_json_str: ENTITIES,
    });

    assert!(matches!(response, Err(CheckError::Principal(_))));
}

#[test]
fn test_action_parse_error() {
    let response = check(CheckParams {
        principal_str: "User::\"Bob_user_id_uuid\"",
        action_str: "InvalidAction",
        resource_str: "Folder::\"public_folder_id_uuid\"",
        context_json_str: "{}",
        policies_str: POLICIES,
        entities_json_str: ENTITIES,
    });

    assert!(matches!(response, Err(CheckError::Action(_))));
}

#[test]
fn test_resource_parse_error() {
    let response = check(CheckParams {
        principal_str: "User::\"Bob_user_id_uuid\"",
        action_str: "Action::\"view\"",
        resource_str: "InvalidResource",
        context_json_str: "{}",
        policies_str: POLICIES,
        entities_json_str: ENTITIES,
    });

    assert!(matches!(response, Err(CheckError::Resource(_))));
}

#[test]
fn test_context_json_parse_error() {
    let response = check(CheckParams {
        principal_str: "User::\"Bob_user_id_uuid\"",
        action_str: "Action::\"view\"",
        resource_str: "Folder::\"public_folder_id_uuid\"",
        context_json_str: "{invalid_json}",
        policies_str: POLICIES,
        entities_json_str: ENTITIES,
    });

    assert!(matches!(response, Err(CheckError::ContextJsonParse(_))));
}

#[test]
fn test_policy_set_parse_error() {
    let response = check(CheckParams {
        principal_str: "User::\"Bob_user_id_uuid\"",
        action_str: "Action::\"view\"",
        resource_str: "Folder::\"public_folder_id_uuid\"",
        context_json_str: "{}",
        policies_str: "invalid policy syntax",
        entities_json_str: ENTITIES,
    });

    assert!(matches!(response, Err(CheckError::PolicySet(_))));
}

#[test]
fn test_entities_parse_error() {
    let response = check(CheckParams {
        principal_str: "User::\"Bob_user_id_uuid\"",
        action_str: "Action::\"view\"",
        resource_str: "Folder::\"public_folder_id_uuid\"",
        context_json_str: "{}",
        policies_str: POLICIES,
        entities_json_str: "invalid entities json",
    });

    assert!(matches!(response, Err(CheckError::Entities(_))));
}

#[test]
fn test_context_unrepresentable_value_error() {
    let response = check(CheckParams {
        principal_str: "User::\"Bob_user_id_uuid\"",
        action_str: "Action::\"view\"",
        resource_str: "Folder::\"public_folder_id_uuid\"",
        context_json_str: "{\"key\": null}",
        policies_str: POLICIES,
        entities_json_str: ENTITIES,
    });

    assert!(matches!(response, Err(CheckError::Context(_))));
}

#[test]
fn test_context_not_an_object_error() {
    let response = check(CheckParams {
        principal_str: "User::\"Bob_user_id_uuid\"",
        action_str: "Action::\"view\"",
        resource_str: "Folder::\"public_folder_id_uuid\"",
        context_json_str: "[1, 2]",
        policies_str: POLICIES,
        entities_json_str: ENTITIES,
    });

    assert!(matches!(response, Err(CheckError::Context(_))));
}

#[test]
fn test_duplicate_baseline_identity_error() {
    let dup = r#"[
      {"uid": {"type": "Folder", "id": "public_folder_id_uuid"}},
      {"uid": {"type": "Folder", "id": "public_folder_id_uuid"}}
    ]"#;
    let response = check(CheckParams {
        principal_str: "User::\"Bob_user_id_uuid\"",
        action_str: "Action::\"view\"",
        resource_str: "Folder::\"public_folder_id_uuid\"",
        context_json_str: "{}",
        policies_str: POLICIES,
        entities_json_str: dup,
    });

    assert!(matches!(response, Err(CheckError::Entities(_))));
}

#[test]
fn test_allow_reports_contributing_policy() {
    let response = check(CheckParams {
        principal_str: "User::\"Bob_user_id_uuid\"",
        action_str: "Action::\"view\"",
        resource_str: "Folder::\"public_folder_id_uuid\"",
        context_json_str: "{}",
        policies_str: POLICIES,
        entities_json_str: ENTITIES,
    })
    .unwrap();

    assert_eq!(response.diagnostics().as_slice(), ["policy0"]);
}
