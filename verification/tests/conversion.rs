//! Tests of the generic claim conversion, claim-record extraction,
//! entity synthesis, and the entity-graph merge.

use authz::entities::{attr_from_json, AttrValue, Entity, EntityGraph, EntityIdent, EntitiesMergeError};
use authz::json::JsonVal;
use authz::tokens::{AccessToken, IdToken, UserInfoToken};

fn obj(members: Vec<(&str, JsonVal)>) -> JsonVal {
    JsonVal::Obj(members.into_iter().map(|(k, v)| (k.to_owned(), v)).collect())
}

fn s(t: &str) -> JsonVal {
    JsonVal::Str(t.to_owned())
}

#[test]
fn claim_conversion_keeps_scalars() {
    assert_eq!(attr_from_json(&JsonVal::Bool(true)), Some(AttrValue::BoolVal(true)));
    assert_eq!(attr_from_json(&JsonVal::Int(-7)), Some(AttrValue::LongVal(-7)));
    assert_eq!(attr_from_json(&s("x")), Some(AttrValue::StrVal("x".to_owned())));
    assert_eq!(
        attr_from_json(&JsonVal::Dec("0.5".to_owned())),
        Some(AttrValue::DecimalVal("0.5".to_owned()))
    );
}

#[test]
fn claim_conversion_omits_null_and_objects() {
    assert_eq!(attr_from_json(&JsonVal::Null), None);
    assert_eq!(attr_from_json(&obj(vec![("a", JsonVal::Int(1))])), None);
}

#[test]
fn claim_conversion_drops_unconvertible_set_elements() {
    let v = JsonVal::Arr(vec![
        JsonVal::Int(1),
        JsonVal::Null,
        s("x"),
        obj(vec![("y", JsonVal::Int(2))]),
    ]);
    assert_eq!(
        attr_from_json(&v),
        Some(AttrValue::SetVal(vec![
            AttrValue::LongVal(1),
            AttrValue::StrVal("x".to_owned()),
        ]))
    );
}

fn id_payload() -> JsonVal {
    obj(vec![
        ("jti", s("t1")),
        ("iss", s("iss1")),
        ("aud", s("app1")),
        ("sub", s("bob")),
        ("iat", JsonVal::Int(1)),
        ("exp", JsonVal::Int(2)),
        ("amr", JsonVal::Arr(vec![s("pwd"), s("otp")])),
        ("azp", s("party")),
        ("favorite", s("blue")),
    ])
}

#[test]
fn id_token_extraction_reads_the_schema() {
    let t = IdToken::from_json(&id_payload()).unwrap();
    assert_eq!(t.jti, "t1");
    assert_eq!(t.amr, vec!["pwd".to_owned(), "otp".to_owned()]);
    assert_eq!(t.azp, Some("party".to_owned()));
    assert_eq!(t.acr, None);
    assert_eq!(t.extra, vec![("favorite".to_owned(), s("blue"))]);
}

#[test]
fn id_token_extraction_rejects_a_missing_claim() {
    let v = obj(vec![("jti", s("t1"))]);
    assert!(IdToken::from_json(&v).is_err());
    assert!(IdToken::from_json(&JsonVal::Arr(vec![])).is_err());
}

#[test]
fn id_token_extraction_rejects_a_wrongly_typed_claim() {
    let mut m = id_payload();
    if let JsonVal::Obj(ref mut members) = m {
        for p in members.iter_mut() {
            if p.0 == "iat" {
                p.1 = s("not a number");
            }
        }
    }
    assert!(IdToken::from_json(&m).is_err());
}

#[test]
fn synthesized_entity_identities_come_from_the_claims() {
    let id_t = IdToken::from_json(&id_payload()).unwrap();
    let built = id_t.get_token_entity().unwrap();
    assert_eq!(built.model().uid, EntityIdent { etype: "IdToken".to_owned(), eid: "t1".to_owned() });
    assert!(built.model().parents.is_empty());

    let ui = obj(vec![
        ("jti", s("u1")),
        ("iss", s("iss1")),
        ("sub", s("bob")),
        ("aud", s("app1")),
        ("inum", s("Bob_user_id_uuid")),
        ("age", JsonVal::Int(44)),
        ("office", obj(vec![("floor", JsonVal::Int(2))])),
    ]);
    let ui_t = UserInfoToken::from_json(&ui).unwrap();
    let roles: Vec<EntityIdent> = Vec::new();
    let user = ui_t.get_user_entity(&roles).unwrap();
    assert_eq!(
        user.model().uid,
        EntityIdent { etype: "User".to_owned(), eid: "Bob_user_id_uuid".to_owned() }
    );
    // sub, then the convertible unmodeled claims; the nested object is dropped.
    assert_eq!(
        user.model().attrs,
        vec![
            ("sub".to_owned(), AttrValue::StrVal("bob".to_owned())),
            ("age".to_owned(), AttrValue::LongVal(44)),
        ]
    );

    let at = obj(vec![
        ("jti", s("a1")),
        ("iss", s("iss1")),
        ("aud", s("app1")),
        ("scope", JsonVal::Arr(vec![s("openid")])),
        ("client_id", s("c1")),
        ("exp", JsonVal::Int(2)),
        ("iat", JsonVal::Int(1)),
    ]);
    let at_t = AccessToken::from_json(&at).unwrap();
    let client = at_t.get_client_entity().unwrap();
    assert_eq!(
        client.model().uid,
        EntityIdent { etype: "Client".to_owned(), eid: "app1".to_owned() }
    );
    assert_eq!(
        client.model().attrs,
        vec![
            ("client_id".to_owned(), AttrValue::StrVal("c1".to_owned())),
            ("iss".to_owned(), AttrValue::StrVal("iss1".to_owned())),
        ]
    );

    let app = at_t
        .get_application_entity("Demo_App", client.model().uid.duplicate())
        .unwrap();
    assert_eq!(
        app.model().uid,
        EntityIdent { etype: "Application".to_owned(), eid: "app1".to_owned() }
    );
    assert_eq!(
        app.model().attrs,
        vec![
            ("name".to_owned(), AttrValue::StrVal("Demo_App".to_owned())),
            (
                "client".to_owned(),
                AttrValue::EntityRef(EntityIdent {
                    etype: "Client".to_owned(),
                    eid: "app1".to_owned(),
                })
            ),
        ]
    );
}

#[test]
fn two_syntheses_from_identical_claims_are_identical() {
    let t1 = IdToken::from_json(&id_payload()).unwrap();
    let t2 = IdToken::from_json(&id_payload()).unwrap();
    assert_eq!(t1, t2);
    let b1 = t1.get_token_entity().unwrap();
    let b2 = t2.get_token_entity().unwrap();
    assert_eq!(b1.model(), b2.model());
}

fn plain_entity(etype: &str, eid: &str) -> Entity {
    Entity {
        uid: EntityIdent { etype: etype.to_owned(), eid: eid.to_owned() },
        attrs: Vec::new(),
        parents: Vec::new(),
    }
}

#[test]
fn merge_unions_disjoint_identities() {
    let baseline = EntityGraph { entities: vec![plain_entity("Folder", "f1")] };
    let additions = vec![plain_entity("User", "bob"), plain_entity("Client", "c1")];
    let merged = baseline.merge(&additions).unwrap();
    assert_eq!(merged.entities.len(), 3);
    assert_eq!(merged.entities[0].uid.etype, "Folder");
    assert_eq!(merged.entities[1].uid.eid, "bob");
    // The baseline itself is never mutated.
    assert_eq!(baseline.entities.len(), 1);
}

#[test]
fn merge_rejects_a_baseline_collision() {
    let baseline = EntityGraph { entities: vec![plain_entity("User", "bob")] };
    let mut colliding = plain_entity("User", "bob");
    colliding.attrs.push(("sub".to_owned(), AttrValue::StrVal("b".to_owned())));
    let r = baseline.merge(&vec![colliding]);
    match r {
        Err(EntitiesMergeError { uid }) => {
            assert_eq!(uid, EntityIdent { etype: "User".to_owned(), eid: "bob".to_owned() });
        },
        Ok(other) => panic!("expected a collision, got {:?}", other),
    }
}

#[test]
fn merge_rejects_a_collision_among_additions() {
    let baseline = EntityGraph { entities: Vec::new() };
    let additions = vec![plain_entity("Client", "x"), plain_entity("Client", "x")];
    assert!(matches!(baseline.merge(&additions), Err(EntitiesMergeError { .. })));
}
