//! Tests of the extended id-token variant: schema extraction, the
//! email record, and the issuer entity.

use authz::entities::{AttrValue, EntityIdent};
use authz::json::JsonVal;
use authz::jwt_tokens::{EntityCreatingError, IdToken};

fn payload(email: &str) -> JsonVal {
    let pairs = vec![
        ("acr", "basic"),
        ("aud", "app1"),
        ("birthdate", "1990-01-01"),
        ("email", email),
        ("iss", "iss1"),
        ("jti", "t1"),
        ("name", "Bob"),
        ("phone_number", "555-0100"),
        ("sub", "bob"),
    ];
    let mut members: Vec<(String, JsonVal)> = pairs
        .into_iter()
        .map(|(k, v)| (k.to_owned(), JsonVal::Str(v.to_owned())))
        .collect();
    members.push(("amr".to_owned(), JsonVal::Arr(vec![JsonVal::Str("pwd".to_owned())])));
    members.push(("exp".to_owned(), JsonVal::Int(2)));
    members.push(("iat".to_owned(), JsonVal::Int(1)));
    JsonVal::Obj(members)
}

#[test]
fn extended_extraction_reads_every_claim() {
    let t = IdToken::from_json(&payload("bob@example.test")).unwrap();
    assert_eq!(t.acr, "basic");
    assert_eq!(t.amr, vec!["pwd".to_owned()]);
    assert_eq!(t.email, "bob@example.test");
    assert_eq!(t.phone_number, "555-0100");
    assert_eq!(t.exp, 2);
}

#[test]
fn extended_extraction_requires_every_claim() {
    let mut m = payload("bob@example.test");
    if let JsonVal::Obj(ref mut members) = m {
        members.retain(|p| p.0 != "birthdate");
    }
    assert!(IdToken::from_json(&m).is_err());
}

#[test]
fn token_and_issuer_entities_are_synthesized_together() {
    let t = IdToken::from_json(&payload("bob@example.test")).unwrap();
    let es = t.get_token_entities().unwrap();
    assert_eq!(es.len(), 2);
    assert_eq!(
        es[0].model().uid,
        EntityIdent { etype: "IdToken".to_owned(), eid: "t1".to_owned() }
    );
    assert_eq!(
        es[1].model().uid,
        EntityIdent { etype: "Issuer".to_owned(), eid: "iss1".to_owned() }
    );
    // The token entity references the issuer entity.
    let iss = es[0].model().attrs.iter().find(|p| p.0 == "iss").unwrap();
    assert_eq!(
        iss.1,
        AttrValue::EntityRef(EntityIdent { etype: "Issuer".to_owned(), eid: "iss1".to_owned() })
    );
    // The email claim became a record of local part and domain.
    let email = es[0].model().attrs.iter().find(|p| p.0 == "email").unwrap();
    assert_eq!(
        email.1,
        AttrValue::RecordVal(vec![
            ("id".to_owned(), AttrValue::StrVal("bob".to_owned())),
            ("domain".to_owned(), AttrValue::StrVal("example.test".to_owned())),
        ])
    );
}

#[test]
fn email_without_separator_is_an_email_error() {
    let t = IdToken::from_json(&payload("not-an-email")).unwrap();
    assert!(matches!(t.get_token_entities(), Err(EntityCreatingError::Email(_))));
}
