//! Tests of token decoding: segment splitting, payload parsing, and
//! per-token error attribution.

use authz::json::JsonVal;
use authz::jwt::{decode_jwt_without_validation, DecodeError, JWTDecoder};
use authz::{AuthzInputRaw, CedarParams, DecodeTokensError};

fn params() -> CedarParams {
    CedarParams {
        action: "Action::\"view\"".to_owned(),
        resource: serde_json::Value::String("Folder::\"f\"".to_owned()),
        context: serde_json::Value::Object(serde_json::Map::new()),
    }
}

const ID_TOKEN: &str = "h.{\"jti\":\"t1\",\"iss\":\"iss1\",\"aud\":\"app1\",\"sub\":\"bob\",\"iat\":1,\"exp\":2}.s";
const USERINFO_TOKEN: &str = "h.{\"jti\":\"u1\",\"iss\":\"iss1\",\"sub\":\"bob\",\"aud\":\"app1\",\"inum\":\"Bob_user_id_uuid\"}.s";
const ACCESS_TOKEN: &str = "h.{\"jti\":\"a1\",\"iss\":\"iss1\",\"aud\":\"app1\",\"scope\":[\"openid\"],\"client_id\":\"c1\",\"exp\":2,\"iat\":1}.s";

#[test]
fn fewer_than_two_segments_is_malformed() {
    assert_eq!(decode_jwt_without_validation("nodelimiter"), Err(DecodeError::MalformedJWT));
    assert_eq!(decode_jwt_without_validation(""), Err(DecodeError::MalformedJWT));
}

#[test]
fn non_json_payload_is_a_claim_parse_error() {
    let r = decode_jwt_without_validation("head.notjson");
    assert!(matches!(r, Err(DecodeError::UnableToParseBase64AsJson(_))));
}

#[test]
fn payload_is_taken_between_first_and_second_delimiter() {
    let r = decode_jwt_without_validation("head.{\"k\":true}.sig").unwrap();
    assert_eq!(r, JsonVal::Obj(vec![("k".to_owned(), JsonVal::Bool(true))]));

    // A trailing signature segment is optional.
    let r = decode_jwt_without_validation("head.{\"k\":false}").unwrap();
    assert_eq!(r, JsonVal::Obj(vec![("k".to_owned(), JsonVal::Bool(false))]));
}

#[test]
fn decoder_strategy_decodes_without_validation() {
    let dec = JWTDecoder::new_without_validation();
    let r = dec.decode("x.[1,2]").unwrap();
    assert_eq!(r, JsonVal::Arr(vec![JsonVal::Int(1), JsonVal::Int(2)]));
}

#[test]
fn decode_tokens_reads_all_three_claim_records() {
    let input = AuthzInputRaw {
        id_token: ID_TOKEN.to_owned(),
        userinfo_token: USERINFO_TOKEN.to_owned(),
        access_token: ACCESS_TOKEN.to_owned(),
        extra: params(),
    };
    let dec = JWTDecoder::new_without_validation();
    let out = input.decode_tokens(&dec).unwrap();
    assert_eq!(out.jwt.id_token.jti, "t1");
    assert_eq!(out.jwt.id_token.iat, 1);
    assert_eq!(out.jwt.id_token.acr, None);
    assert!(out.jwt.id_token.amr.is_empty());
    assert_eq!(out.jwt.userinfo_token.inum, "Bob_user_id_uuid");
    assert_eq!(out.jwt.access_token.client_id, "c1");
    assert_eq!(out.jwt.access_token.scope, vec!["openid".to_owned()]);
}

#[test]
fn decode_tokens_blames_the_id_token() {
    let input = AuthzInputRaw {
        id_token: "nodelimiter".to_owned(),
        userinfo_token: USERINFO_TOKEN.to_owned(),
        access_token: ACCESS_TOKEN.to_owned(),
        extra: params(),
    };
    let dec = JWTDecoder::new_without_validation();
    let r = input.decode_tokens(&dec);
    assert!(matches!(r, Err(DecodeTokensError::IdToken(DecodeError::MalformedJWT))));
}

#[test]
fn decode_tokens_blames_the_userinfo_token() {
    // The userinfo payload lacks the required user id claim.
    let input = AuthzInputRaw {
        id_token: ID_TOKEN.to_owned(),
        userinfo_token: "h.{\"jti\":\"u1\",\"iss\":\"i\",\"sub\":\"s\",\"aud\":\"a\"}.s"
            .to_owned(),
        access_token: ACCESS_TOKEN.to_owned(),
        extra: params(),
    };
    let dec = JWTDecoder::new_without_validation();
    let r = input.decode_tokens(&dec);
    assert!(matches!(
        r,
        Err(DecodeTokensError::UserInfoToken(DecodeError::UnableToParseBase64AsJson(_)))
    ));
}

#[test]
fn decode_tokens_blames_the_access_token() {
    // The access payload lacks the required client id claim.
    let input = AuthzInputRaw {
        id_token: ID_TOKEN.to_owned(),
        userinfo_token: USERINFO_TOKEN.to_owned(),
        access_token: "h.{\"jti\":\"a1\",\"iss\":\"i\",\"aud\":\"a\",\"scope\":[],\"exp\":2,\"iat\":1}.s".to_owned(),
        extra: params(),
    };
    let dec = JWTDecoder::new_without_validation();
    let r = input.decode_tokens(&dec);
    assert!(matches!(r, Err(DecodeTokensError::AccessToken(_))));
    assert!(!matches!(r, Err(DecodeTokensError::IdToken(_))));
}
