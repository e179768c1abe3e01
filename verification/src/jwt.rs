//! Token decoding.
//!
//! A compact token is a string of delimiter-separated segments; the
//! payload is the second segment, taken between the first `.` and the
//! next `.` (or the end of the string).  The unvalidated decoder parses
//! that segment directly as JSON text; deliberately, no transport
//! decoding is applied to it first.  A validating decoder (signature,
//! issuer trust, expiry) is a pluggable external collaborator and is not
//! implemented here.

use vstd::prelude::*;
use vstd::std_specs::iter::IteratorSpec;
use crate::json::{json_of, parse_json, JsonVal};

verus! {

/// Configuration of a signature-validating decoder; not implemented.
pub struct JWTValidationConfig {}

/// The token-decoding strategy.
pub enum JWTDecoder {
    WithValidation(JWTValidationConfig),
    WithoutValidation,
}

impl JWTDecoder {
    pub fn new_without_validation() -> (r: Self)
        ensures
            r is WithoutValidation,
    {
        Self::WithoutValidation
    }
}

/// Why a token could not be decoded.
#[derive(Debug, PartialEq, Eq)]
pub enum DecodeError {
    /// The token has fewer than two delimiter-separated segments.
    MalformedJWT,
    /// The payload segment is not valid JSON text.
    UnableToParseBase64AsJson(String),
}

/// The index of the first occurrence of `c` in `s`, or `s.len()` if
/// there is none.
pub open spec fn sep_index(s: Seq<char>, c: char) -> int
    decreases s,
{
    if s.len() == 0 {
        0
    } else if s[0] == c {
        0
    } else {
        1 + sep_index(s.drop_first(), c)
    }
}

/// The index of the first `.` in `s`, or `s.len()` if there is none.
pub open spec fn dot_index(s: Seq<char>) -> int {
    sep_index(s, '.')
}

/// Whether `s` contains a `.`, i.e. has at least two segments.
pub open spec fn has_dot(s: Seq<char>) -> bool {
    dot_index(s) < s.len()
}

/// The second delimiter-separated segment of `s`: the characters between
/// the first `.` and the next `.` or the end of the string.
pub open spec fn second_segment(s: Seq<char>) -> Seq<char>
    recommends
        has_dot(s),
{
    let rest = s.subrange(dot_index(s) + 1, s.len() as int);
    rest.subrange(0, dot_index(rest))
}

pub(crate) proof fn lemma_sep_index_at(s: Seq<char>, c: char, i: int)
    requires
        0 <= i <= s.len(),
        forall|j: int| 0 <= j < i ==> s[j] != c,
        i < s.len() ==> s[i] == c,
    ensures
        i < s.len() ==> sep_index(s, c) == i,
        i == s.len() ==> sep_index(s, c) == s.len(),
    decreases s,
{
    if s.len() > 0 && s[0] != c {
        assert(forall|j: int| 0 <= j < i - 1 ==> s.drop_first()[j] == s[j + 1]);
        lemma_sep_index_at(s.drop_first(), c, i - 1);
    }
}

/// Collects the characters of `s` into a vector.
pub(crate) fn chars_vec(s: &str) -> (r: Vec<char>)
    ensures
        r@ == s@,
{
    let mut it = s.chars();
    let mut v: Vec<char> = Vec::new();
    loop
        invariant
            it.obeys_prophetic_iter_laws(),
            it.decrease() is Some,
            v@ + it.remaining() == s@,
        ensures
            v@ == s@,
        decreases it.decrease()->0,
    {
        match it.next() {
            Some(c) => v.push(c),
            None => break,
        }
    }
    v
}

/// Relies on `String::from_iter` over `char`: the string holding
/// exactly the given characters.
#[verifier::external_body]
pub(crate) fn chars_string(v: &Vec<char>) -> (r: String)
    ensures
        r@ == v@,
{
    v.iter().collect()
}

/// Decodes a compact token without any validation: splits on `.`, takes
/// the second segment, and parses it as JSON text.
///
/// Fails with `MalformedJWT` exactly when the token has fewer than two
/// segments, and with `UnableToParseBase64AsJson` exactly when the
/// payload segment is not valid JSON.
pub fn decode_jwt_without_validation(jwt: &str) -> (r: Result<JsonVal, DecodeError>)
    ensures
        r == Err::<JsonVal, DecodeError>(DecodeError::MalformedJWT) <==> !has_dot(jwt@),
        has_dot(jwt@) ==> (r is Ok <==> json_of(second_segment(jwt@)) is Some),
        r matches Ok(v) ==> json_of(second_segment(jwt@)) == Some(v@),
        has_dot(jwt@) && r is Err ==> r->Err_0 is UnableToParseBase64AsJson,
{
    let cs = chars_vec(jwt);
    let n = cs.len();
    let mut i: usize = 0;
    while i < n && cs[i] != '.'
        invariant
            n == cs.len(),
            0 <= i <= n,
            forall|j: int| 0 <= j < i ==> cs@[j] != '.',
        decreases n - i,
    {
        i += 1;
    }
    proof {
        lemma_sep_index_at(cs@, '.', i as int);
    }
    if i == n {
        return Err(DecodeError::MalformedJWT);
    }
    let mut payload: Vec<char> = Vec::new();
    let mut k: usize = i + 1;
    while k < n && cs[k] != '.'
        invariant
            n == cs.len(),
            i < k <= n,
            payload@ =~= cs@.subrange(i + 1, k as int),
            forall|j: int| i + 1 <= j < k ==> cs@[j] != '.',
        decreases n - k,
    {
        payload.push(cs[k]);
        k += 1;
    }
    proof {
        let rest = cs@.subrange(i + 1, n as int);
        assert(forall|j: int| 0 <= j < (k - i - 1) ==> rest[j] == cs@[j + i + 1]);
        lemma_sep_index_at(rest, '.', k - i - 1);
        assert(payload@ =~= second_segment(jwt@));
    }
    match parse_json(&payload) {
        Ok(v) => Ok(v),
        Err(e) => Err(DecodeError::UnableToParseBase64AsJson(e)),
    }
}

impl JWTDecoder {
    /// Decodes a token with the chosen strategy.  Only the unvalidated
    /// strategy is implemented; a validating decoder is an external
    /// collaborator.
    pub fn decode(&self, jwt: &str) -> (r: Result<JsonVal, DecodeError>)
        requires
            self is WithoutValidation,
        ensures
            r == Err::<JsonVal, DecodeError>(DecodeError::MalformedJWT) <==> !has_dot(jwt@),
            has_dot(jwt@) ==> (r is Ok <==> json_of(second_segment(jwt@)) is Some),
            r matches Ok(v) ==> json_of(second_segment(jwt@)) == Some(v@),
            has_dot(jwt@) && r is Err ==> r->Err_0 is UnableToParseBase64AsJson,
    {
        match self {
            JWTDecoder::WithoutValidation => decode_jwt_without_validation(jwt),
            JWTDecoder::WithValidation(_) => vstd::pervasive::unreached(),
        }
    }
}

} // verus!
