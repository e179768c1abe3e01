//! The extended id-token variant.
//!
//! Beside the token's own entity, this variant synthesizes an issuer
//! entity named by the issuer claim, and the token entity references it
//! by an entity-reference attribute.  The email claim becomes a record
//! of the local part and the domain, split at the first `@`.  Issuer
//! metadata awaits an explicitly passed trust-store capability, so the
//! issuer entity carries no attributes yet.

use vstd::prelude::*;
use crate::cedar::{build_entity, entity_convertible, BuildEntityError, BuiltEntity};
use crate::entities::{
    lemma_attr_map_view, AttrValue, AttrValueV, Entity, EntityIdent, EntityIdentV, EntityV,
};
use crate::json::{json_view, JsonVal, JsonValV};
use crate::jwt::{chars_string, chars_vec, lemma_sep_index_at, sep_index};
use crate::tokens::{
    get_req_long, get_req_string, get_req_string_list, req_long, req_string, req_string_list,
    strings_attr, strings_attr_value,
};

verus! {

/// The claims of a decoded id token in the extended schema.  Every
/// claim is required; claims outside the schema are ignored.
#[derive(Debug, PartialEq, Eq)]
pub struct IdToken {
    pub acr: String,
    pub amr: Vec<String>,
    pub aud: String,
    pub birthdate: String,
    pub email: String,
    pub exp: i64,
    pub iat: i64,
    pub iss: String,
    pub jti: String,
    pub name: String,
    pub phone_number: String,
    pub sub: String,
}

/// The mathematical view of an extended [`IdToken`].
pub struct IdTokenV {
    pub acr: Seq<char>,
    pub amr: Seq<Seq<char>>,
    pub aud: Seq<char>,
    pub birthdate: Seq<char>,
    pub email: Seq<char>,
    pub exp: int,
    pub iat: int,
    pub iss: Seq<char>,
    pub jti: Seq<char>,
    pub name: Seq<char>,
    pub phone_number: Seq<char>,
    pub sub: Seq<char>,
}

impl View for IdToken {
    type V = IdTokenV;

    open spec fn view(&self) -> IdTokenV {
        IdTokenV {
            acr: self.acr@,
            amr: self.amr@.map_values(|s: String| s@),
            aud: self.aud@,
            birthdate: self.birthdate@,
            email: self.email@,
            exp: self.exp as int,
            iat: self.iat as int,
            iss: self.iss@,
            jti: self.jti@,
            name: self.name@,
            phone_number: self.phone_number@,
            sub: self.sub@,
        }
    }
}

/// The extended id-token schema: the claim record a payload denotes,
/// if it matches.
pub open spec fn id_token_of_json(v: JsonValV) -> Option<IdTokenV> {
    match v {
        JsonValV::Obj(ms) => match (
            req_string(ms, "acr"@),
            req_string_list(ms, "amr"@),
            req_string(ms, "aud"@),
            req_string(ms, "birthdate"@),
            req_string(ms, "email"@),
            req_long(ms, "exp"@),
            req_long(ms, "iat"@),
            req_string(ms, "iss"@),
            req_string(ms, "jti"@),
            req_string(ms, "name"@),
            req_string(ms, "phone_number"@),
            req_string(ms, "sub"@),
        ) {
            (
                Some(acr),
                Some(amr),
                Some(aud),
                Some(birthdate),
                Some(email),
                Some(exp),
                Some(iat),
                Some(iss),
                Some(jti),
                Some(name),
                Some(phone_number),
                Some(sub),
            ) => Some(
                IdTokenV {
                    acr,
                    amr,
                    aud,
                    birthdate,
                    email,
                    exp,
                    iat,
                    iss,
                    jti,
                    name,
                    phone_number,
                    sub,
                },
            ),
            _ => None,
        },
        _ => None,
    }
}

impl IdToken {
    /// Reads the extended id-token claim record out of a decoded
    /// payload; fails exactly when the payload does not match the
    /// schema, as [`id_token_of_json`] says.
    pub fn from_json(v: &JsonVal) -> (r: Result<IdToken, String>)
        ensures
            r matches Ok(t) ==> id_token_of_json(json_view(*v)) == Some(t@),
            r is Ok <==> id_token_of_json(json_view(*v)) is Some,
    {
        match v {
            JsonVal::Obj(members) => {
                let acr = get_req_string(members, "acr")?;
                let amr = get_req_string_list(members, "amr")?;
                let aud = get_req_string(members, "aud")?;
                let birthdate = get_req_string(members, "birthdate")?;
                let email = get_req_string(members, "email")?;
                let exp = get_req_long(members, "exp")?;
                let iat = get_req_long(members, "iat")?;
                let iss = get_req_string(members, "iss")?;
                let jti = get_req_string(members, "jti")?;
                let name = get_req_string(members, "name")?;
                let phone_number = get_req_string(members, "phone_number")?;
                let sub = get_req_string(members, "sub")?;
                Ok(
                    IdToken {
                        acr,
                        amr,
                        aud,
                        birthdate,
                        email,
                        exp,
                        iat,
                        iss,
                        jti,
                        name,
                        phone_number,
                        sub,
                    },
                )
            },
            _ => Err("a claims payload is not a JSON object".to_owned()),
        }
    }
}

/// Why an entity could not be created from extended id-token claims.
#[derive(Debug)]
pub enum EntityCreatingError {
    /// The entity's identity could not be constructed.
    CreateFromJson(String),
    /// The email claim could not be split into a record.
    Email(String),
    /// The entity could not be built from its attribute values.
    NewEntity(String),
    /// The issuer entity could not be built.
    TrustedIssuer(String),
}

/// Whether an email splits into a local part and a domain: it must
/// contain an `@`.
pub open spec fn email_ok(s: Seq<char>) -> bool {
    sep_index(s, '@') < s.len()
}

/// The record an email denotes: the local part before the first `@`
/// under `id`, and everything after it under `domain`.
pub open spec fn email_record(s: Seq<char>) -> AttrValueV
    recommends
        email_ok(s),
{
    AttrValueV::RecordVal(
        seq![
            ("id"@, AttrValueV::StrVal(s.subrange(0, sep_index(s, '@')))),
            ("domain"@, AttrValueV::StrVal(s.subrange(sep_index(s, '@') + 1, s.len() as int))),
        ],
    )
}

/// Builds the email record, exactly as [`email_record`] says; fails
/// exactly when the email has no domain separator.
fn email_attr(email: &str) -> (r: Result<AttrValue, String>)
    ensures
        r is Ok <==> email_ok(email@),
        r matches Ok(a) ==> a@ == email_record(email@),
{
    let cs = chars_vec(email);
    let n = cs.len();
    let mut i: usize = 0;
    while i < n && cs[i] != '@'
        invariant
            n == cs.len(),
            0 <= i <= n,
            forall|j: int| 0 <= j < i ==> cs@[j] != '@',
        decreases n - i,
    {
        i += 1;
    }
    proof {
        lemma_sep_index_at(cs@, '@', i as int);
    }
    if i == n {
        return Err("an email has no domain separator".to_owned());
    }
    let mut local: Vec<char> = Vec::new();
    let mut k: usize = 0;
    while k < i
        invariant
            i < n == cs.len(),
            k <= i,
            local@ =~= cs@.subrange(0, k as int),
        decreases i - k,
    {
        local.push(cs[k]);
        k += 1;
    }
    let mut domain: Vec<char> = Vec::new();
    let mut m: usize = i + 1;
    while m < n
        invariant
            i < n == cs.len(),
            i < m <= n,
            domain@ =~= cs@.subrange(i + 1, m as int),
        decreases n - m,
    {
        domain.push(cs[m]);
        m += 1;
    }
    let id = chars_string(&local);
    let dom = chars_string(&domain);
    let mut fields: Vec<(String, AttrValue)> = Vec::new();
    fields.push(("id".to_owned(), AttrValue::StrVal(id)));
    fields.push(("domain".to_owned(), AttrValue::StrVal(dom)));
    let a = AttrValue::RecordVal(fields);
    proof {
        lemma_attr_map_view(a->RecordVal_0@);
        assert(a@->RecordVal_0 =~= email_record(email@)->RecordVal_0);
    }
    Ok(a)
}

/// The issuer entity synthesized beside the token entity: identity
/// `(Issuer, issuer claim)`, no attributes yet, and no parents.
pub open spec fn issuer_entity_v(iss: Seq<char>) -> EntityV {
    EntityV {
        uid: EntityIdentV { etype: "Issuer"@, eid: iss },
        attrs: Seq::empty(),
        parents: Seq::empty(),
    }
}

/// The token entity of the extended variant: identity
/// `(IdToken, token id)`, every claim as an attribute — the email as a
/// record, the authentication methods as a set, the issuer as a
/// reference to the issuer entity — and no parents.
pub open spec fn token_entity_v(t: IdTokenV) -> EntityV
    recommends
        email_ok(t.email),
{
    EntityV {
        uid: EntityIdentV { etype: "IdToken"@, eid: t.jti },
        attrs: seq![
            ("acr"@, AttrValueV::StrVal(t.acr)),
            ("amr"@, strings_attr(t.amr)),
            ("aud"@, AttrValueV::StrVal(t.aud)),
            ("birthdate"@, AttrValueV::StrVal(t.birthdate)),
            ("email"@, email_record(t.email)),
            ("exp"@, AttrValueV::LongVal(t.exp)),
            ("iat"@, AttrValueV::LongVal(t.iat)),
            ("jti"@, AttrValueV::StrVal(t.jti)),
            ("name"@, AttrValueV::StrVal(t.name)),
            ("phone_number"@, AttrValueV::StrVal(t.phone_number)),
            ("sub"@, AttrValueV::StrVal(t.sub)),
            ("iss"@, AttrValueV::EntityRef(EntityIdentV { etype: "Issuer"@, eid: t.iss })),
        ],
        parents: Seq::empty(),
    }
}

impl IdToken {
    /// Synthesizes the token entity and the issuer entity it
    /// references, exactly as [`token_entity_v`] and
    /// [`issuer_entity_v`] say, each paired with the engine's form of
    /// it.  The first failing step aborts the call: the email record,
    /// then the token entity, then the issuer entity.
    pub fn get_token_entities(self) -> (r: Result<Vec<BuiltEntity>, EntityCreatingError>)
        ensures
            r matches Ok(es) ==> {
                &&& es@.len() == 2
                &&& es@[0].model_view() == token_entity_v(self@)
                &&& es@[1].model_view() == issuer_entity_v(self@.iss)
            },
            r is Ok <==> email_ok(self@.email) && entity_convertible(token_entity_v(self@))
                && entity_convertible(issuer_entity_v(self@.iss)),
            (r matches Err(e) && e is Email) <==> !email_ok(self@.email),
            (r matches Err(e) && (e is CreateFromJson || e is NewEntity)) <==> (email_ok(
                self@.email,
            ) && !entity_convertible(token_entity_v(self@))),
            (r matches Err(e) && e is TrustedIssuer) <==> (email_ok(self@.email)
                && entity_convertible(token_entity_v(self@)) && !entity_convertible(
                issuer_entity_v(self@.iss),
            )),
    {
        let email = match email_attr(self.email.as_str()) {
            Ok(a) => a,
            Err(m) => {
                return Err(EntityCreatingError::Email(m));
            },
        };
        let mut attrs: Vec<(String, AttrValue)> = Vec::new();
        attrs.push(("acr".to_owned(), AttrValue::StrVal(self.acr.clone())));
        attrs.push(("amr".to_owned(), strings_attr_value(&self.amr)));
        attrs.push(("aud".to_owned(), AttrValue::StrVal(self.aud.clone())));
        attrs.push(("birthdate".to_owned(), AttrValue::StrVal(self.birthdate.clone())));
        attrs.push(("email".to_owned(), email));
        attrs.push(("exp".to_owned(), AttrValue::LongVal(self.exp)));
        attrs.push(("iat".to_owned(), AttrValue::LongVal(self.iat)));
        attrs.push(("jti".to_owned(), AttrValue::StrVal(self.jti.clone())));
        attrs.push(("name".to_owned(), AttrValue::StrVal(self.name.clone())));
        attrs.push(("phone_number".to_owned(), AttrValue::StrVal(self.phone_number.clone())));
        attrs.push(("sub".to_owned(), AttrValue::StrVal(self.sub.clone())));
        attrs.push((
            "iss".to_owned(),
            AttrValue::EntityRef(EntityIdent::of("Issuer", self.iss.as_str())),
        ));
        let token_model = Entity {
            uid: EntityIdent::of("IdToken", self.jti.as_str()),
            attrs,
            parents: Vec::new(),
        };
        proof {
            lemma_attr_map_view(token_model.attrs@);
            assert(token_model@.attrs =~= token_entity_v(self@).attrs);
            assert(token_model@.parents =~= Seq::<EntityIdentV>::empty());
        }
        let token_built = match build_entity(token_model) {
            Ok(b) => b,
            Err(BuildEntityError::BadUid(m)) => {
                return Err(EntityCreatingError::CreateFromJson(m));
            },
            Err(BuildEntityError::BadValue(m)) => {
                return Err(EntityCreatingError::NewEntity(m));
            },
        };
        let issuer_model = Entity {
            uid: EntityIdent::of("Issuer", self.iss.as_str()),
            attrs: Vec::new(),
            parents: Vec::new(),
        };
        proof {
            assert(issuer_model@.attrs =~= Seq::<(Seq<char>, AttrValueV)>::empty());
            assert(issuer_model@.parents =~= Seq::<EntityIdentV>::empty());
        }
        let issuer_built = match build_entity(issuer_model) {
            Ok(b) => b,
            Err(e) => {
                return Err(
                    EntityCreatingError::TrustedIssuer(
                        match e {
                            BuildEntityError::BadUid(m) => m,
                            BuildEntityError::BadValue(m) => m,
                        },
                    ),
                );
            },
        };
        let mut out: Vec<BuiltEntity> = Vec::new();
        out.push(token_built);
        out.push(issuer_built);
        Ok(out)
    }
}

/// Revocation status of a token, as some issuers publish it.
#[derive(Debug, PartialEq, Eq)]
pub struct Status {
    pub status_list: StatusList,
}

/// A position in an issuer's published status list.
#[derive(Debug, PartialEq, Eq)]
pub struct StatusList {
    pub idx: i64,
    pub uri: String,
}

} // verus!
