//! Bearer-token validation against a JSON Web Key Set, and the
//! process-wide key-set cache entry.
//!
//! The checks run in a fixed order, and each failing step has its own
//! error: no token, an unreadable token header, a header without a key
//! id, no matching key in the set, key material no verification key can
//! be built from, and finally signature or claim validation.

use vstd::prelude::*;
use vstd::string::{StrSliceExecFns, StringExecFns};

use jsonwebtoken::jwk::{Jwk, JwkSet};
use jsonwebtoken::{DecodingKey, Validation};

use crate::auth::IssuerConfig;

verus! {

#[verifier::external_type_specification]
#[verifier::external_body]
pub struct ExHeader(jsonwebtoken::Header);

#[verifier::external_type_specification]
#[verifier::external_body]
pub struct ExJwkSet(JwkSet);

#[verifier::external_type_specification]
#[verifier::external_body]
pub struct ExJwk(Jwk);

#[verifier::external_type_specification]
#[verifier::external_body]
pub struct ExDecodingKey(DecodingKey);

#[verifier::external_type_specification]
#[verifier::external_body]
pub struct ExValidation(Validation);

#[verifier::external_type_specification]
#[verifier::external_body]
pub struct ExValue(serde_json::Value);

/// What reading a token's header yields: nothing when the header cannot
/// be decoded, otherwise the key id it carries, if any. Reading the
/// header depends on the token text alone.
pub uninterp spec fn jwt_header_kid(token: Seq<char>) -> Option<Option<Seq<char>>>;

/// The key ids present in a key set.
pub uninterp spec fn jwks_kids(set: JwkSet) -> Set<Seq<char>>;

/// Does a verification key build from this key's material? Building one
/// is a pure function of the material.
pub uninterp spec fn jwk_key_ok(jwk: Jwk) -> bool;

/// Does the key this set hands out under `kid` build a verification key?
pub uninterp spec fn jwks_usable_key(set: JwkSet, kid: Seq<char>) -> bool;

/// The field of a claims document under `key`, when it is a string.
/// Reading a field is a pure function of the document.
pub uninterp spec fn str_claim_of(v: serde_json::Value, key: Seq<char>) -> Option<Seq<char>>;

/// The field of a claims document under `key`, when it is an unsigned
/// integer.
pub uninterp spec fn u64_claim_of(v: serde_json::Value, key: Seq<char>) -> Option<u64>;

/// Does this body parse as a key-set document?
pub uninterp spec fn jwk_set_parses(b: Seq<u8>) -> bool;

pub open spec fn kid_view(kid: Option<String>) -> Option<Seq<char>> {
    match kid {
        Some(k) => Some(k@),
        None => None,
    }
}

/// Relies on jsonwebtoken::decode_header: splits the token on dots and
/// reads the base64 JSON header, a pure function of the token text; the
/// result carries the header's optional `kid` field.
#[verifier::external_body]
fn decode_header_w(token: &str) -> (r: Option<(Option<String>, jsonwebtoken::Header)>)
    ensures
        (r is Some) == (jwt_header_kid(token@) is Some),
        r matches Some(p) ==> jwt_header_kid(token@) == Some(kid_view(p.0)),
{
    match jsonwebtoken::decode_header(token) {
        Ok(h) => Some((h.kid.clone(), h)),
        Err(_) => None,
    }
}

/// Relies on JwkSet::find: returns the first key of the set whose `kid`
/// equals the one asked for, and nothing exactly when no key carries it.
/// `find` is deterministic, so whether the key it hands out builds a
/// verification key is a function of the set and the id.
#[verifier::external_body]
fn find_jwk<'a>(set: &'a JwkSet, kid: &str) -> (r: Option<&'a Jwk>)
    ensures
        (r is Some) == jwks_kids(*set).contains(kid@),
        r matches Some(j) ==> jwk_key_ok(*j) == jwks_usable_key(*set, kid@),
{
    set.find(kid)
}

/// Relies on DecodingKey::from_jwk: builds a verification key from the
/// key material, failing exactly on material no key builds from
/// (unsupported or malformed key types).
#[verifier::external_body]
fn key_from_jwk(jwk: &Jwk) -> (r: Option<DecodingKey>)
    ensures
        (r is Some) == jwk_key_ok(*jwk),
{
    jsonwebtoken::DecodingKey::from_jwk(jwk).ok()
}

/// Relies on Validation::new: a validation for the header's algorithm,
/// with the library's standard claim checks (expiry included) enabled.
#[verifier::external_body]
fn validation_new(header: &jsonwebtoken::Header) -> Validation {
    jsonwebtoken::Validation::new(header.alg)
}

/// Relies on Validation::set_issuer.
#[verifier::external_body]
fn validation_set_issuer(v: &mut Validation, issuer: &str) {
    v.set_issuer(&[issuer])
}

/// Relies on Validation::set_audience.
#[verifier::external_body]
fn validation_set_audience(v: &mut Validation, audience: &str) {
    v.set_audience(&[audience])
}

/// Relies on jsonwebtoken::decode: verifies the signature with the given
/// key and validates the standard claims, among them issuer, audience and
/// expiry; the claims come back as a JSON document. The outcome depends
/// on the clock, so nothing more is stated of it.
#[verifier::external_body]
fn decode_claims(token: &str, key: &DecodingKey, validation: &Validation) -> (r: Option<
    serde_json::Value,
>) {
    jsonwebtoken::decode::<serde_json::Value>(token, key, validation).ok().map(|d| d.claims)
}

/// Relies on serde_json's Value::get and Value::as_str: the named field
/// of the claims document, when it is a string.
#[verifier::external_body]
fn claim_str(v: &serde_json::Value, key: &str) -> (r: Option<String>)
    ensures
        (r is Some) == (str_claim_of(*v, key@) is Some),
        r matches Some(s) ==> str_claim_of(*v, key@) == Some(s@),
{
    match v.get(key) {
        Some(x) => x.as_str().map(|s| s.to_string()),
        None => None,
    }
}

/// Relies on serde_json's Value::get and Value::as_u64: the named field
/// of the claims document, when it is an unsigned integer.
#[verifier::external_body]
fn claim_u64(v: &serde_json::Value, key: &str) -> (r: Option<u64>)
    ensures
        r == u64_claim_of(*v, key@),
{
    v.get(key).and_then(|x| x.as_u64())
}

/// The claims this engine reads from a validated token. Only `sub`
/// travels further.
#[derive(Debug, PartialEq, Eq)]
pub struct Claims {
    /// Subject identifier of the authenticated principal.
    pub sub: String,
    iss: String,
    aud: String,
    exp: u64,
}

impl Claims {
    /// The subject claim.
    pub closed spec fn spec_sub(&self) -> Seq<char> {
        self.sub@
    }

    /// The issuer claim.
    pub closed spec fn spec_iss(&self) -> Seq<char> {
        self.iss@
    }

    /// The audience claim.
    pub closed spec fn spec_aud(&self) -> Seq<char> {
        self.aud@
    }

    /// The expiry claim.
    pub closed spec fn spec_exp(&self) -> u64 {
        self.exp
    }

    /// The subject identifier, for handing on as the request context.
    pub fn into_subject(self) -> (r: String)
        ensures
            r@ == self.spec_sub(),
    {
        self.sub
    }
}

pub open spec fn err_is(r: Result<Claims, String>, msg: Seq<char>) -> bool {
    r matches Err(e) && e@ == msg
}

/// The fixed messages [`validate_token`] fails with, one per failing
/// step.
pub open spec fn validate_error_message(e: Seq<char>) -> bool {
    ||| e == "No token provided"@
    ||| e == "decode header: malformed token header"@
    ||| e == "No key ID (kid) in token header"@
    ||| e == "No matching key found in JWKS for the given kid"@
    ||| e == "get decoding key: unsupported key material"@
    ||| e == "invalid token: verification failed"@
    ||| e == "invalid token: incomplete claims"@
}

/// Reads the claims this engine requires from a decoded claims document:
/// string `sub`, `iss` and `aud` and an integer `exp`. Exactly when all
/// four are present with those types the result carries their values;
/// otherwise it is the incomplete-claims error.
pub fn read_claims(claims: &serde_json::Value) -> (r: Result<Claims, String>)
    ensures
        (match r {
            Ok(c) => str_claim_of(*claims, "sub"@) == Some(c.spec_sub()) && str_claim_of(
                *claims,
                "iss"@,
            ) == Some(c.spec_iss()) && str_claim_of(*claims, "aud"@) == Some(c.spec_aud())
                && u64_claim_of(*claims, "exp"@) == Some(c.spec_exp()),
            Err(e) => e@ == "invalid token: incomplete claims"@ && (str_claim_of(
                *claims,
                "sub"@,
            ) is None || str_claim_of(*claims, "iss"@) is None || str_claim_of(
                *claims,
                "aud"@,
            ) is None || u64_claim_of(*claims, "exp"@) is None),
        }),
{
    let sub = claim_str(claims, "sub");
    let iss = claim_str(claims, "iss");
    let aud = claim_str(claims, "aud");
    let exp = claim_u64(claims, "exp");
    match (sub, iss, aud, exp) {
        (Some(sub), Some(iss), Some(aud), Some(exp)) => Ok(Claims { sub, iss, aud, exp }),
        _ => Err(String::from_str("invalid token: incomplete claims")),
    }
}

/// Validates a bearer token against the issuer's key set and returns its
/// claims.
///
/// The failing step decides the error, and every error is one of the
/// fixed messages: an empty token, a token whose header cannot be read,
/// a header without a key id, a key id absent from the set, and key
/// material no verification key builds from each have their exact
/// message. What remains rides on the signature check and the clock:
/// its rejection is reported under the invalid-token messages, and a
/// claims document is accepted only as [`read_claims`] says.
pub fn validate_token(token: &str, issuer_configs: &IssuerConfig, jwt_set: JwkSet) -> (r: Result<
    Claims,
    String,
>)
    ensures
        r matches Err(e) ==> validate_error_message(e@),
        token@.len() == 0 ==> err_is(r, "No token provided"@),
        token@.len() > 0 && jwt_header_kid(token@) is None ==> err_is(
            r,
            "decode header: malformed token header"@,
        ),
        token@.len() > 0 && jwt_header_kid(token@) == Some(None::<Seq<char>>) ==> err_is(
            r,
            "No key ID (kid) in token header"@,
        ),
        token@.len() > 0 && (match jwt_header_kid(token@) {
            Some(Some(k)) => !jwks_kids(jwt_set).contains(k),
            _ => false,
        }) ==> err_is(r, "No matching key found in JWKS for the given kid"@),
        token@.len() > 0 && (match jwt_header_kid(token@) {
            Some(Some(k)) => jwks_kids(jwt_set).contains(k) && !jwks_usable_key(jwt_set, k),
            _ => false,
        }) ==> err_is(r, "get decoding key: unsupported key material"@),
        r is Ok ==> token@.len() > 0 && (match jwt_header_kid(token@) {
            Some(Some(k)) => jwks_kids(jwt_set).contains(k) && jwks_usable_key(jwt_set, k),
            _ => false,
        }),
{
    if token.unicode_len() == 0 {
        return Err(String::from_str("No token provided"));
    }
    let (kid, header) = match decode_header_w(token) {
        Some(p) => p,
        None => {
            return Err(String::from_str("decode header: malformed token header"));
        },
    };
    let kid = match kid {
        Some(k) => k,
        None => {
            return Err(String::from_str("No key ID (kid) in token header"));
        },
    };
    let jwk = match find_jwk(&jwt_set, kid.as_str()) {
        Some(j) => j,
        None => {
            return Err(String::from_str("No matching key found in JWKS for the given kid"));
        },
    };
    let decoding_key = match key_from_jwk(jwk) {
        Some(k) => k,
        None => {
            return Err(String::from_str("get decoding key: unsupported key material"));
        },
    };
    let mut validation = validation_new(&header);
    validation_set_issuer(&mut validation, issuer_configs.issuer.as_str());
    validation_set_audience(&mut validation, issuer_configs.audience.as_str());
    let claims = match decode_claims(token, &decoding_key, &validation) {
        Some(c) => c,
        None => {
            return Err(String::from_str("invalid token: verification failed"));
        },
    };
    read_claims(&claims)
}

/// The process-wide key-set cache entry: absent at startup, filled by the
/// first successful fetch, and read from then on. The cached set never
/// expires or revalidates: once stored it is what every later read
/// returns, for the rest of the process lifetime.
pub struct KeySetCache {
    entry: Option<JwkSet>,
}

impl KeySetCache {
    /// The cache's content.
    pub closed spec fn spec_entry(&self) -> Option<JwkSet> {
        self.entry
    }

    /// The empty cache every process starts with.
    pub fn new() -> (c: KeySetCache)
        ensures
            c.spec_entry() is None,
    {
        KeySetCache { entry: None }
    }

    /// The cached key set, when there is one: exactly the set that was
    /// stored.
    pub fn get(&self) -> (r: Option<&JwkSet>)
        ensures
            (match r {
                Some(s) => self.spec_entry() == Some(*s),
                None => self.spec_entry() is None,
            }),
    {
        match &self.entry {
            Some(s) => Some(s),
            None => None,
        }
    }

    /// Fills the cache with this set. Once filled it stays filled for
    /// the rest of the process lifetime.
    pub fn store(&mut self, set: JwkSet)
        ensures
            final(self).spec_entry() == Some(set),
    {
        self.entry = Some(set);
    }
}

/// Relies on serde_json::from_slice for the key-set document: parsing is
/// a pure function of the bytes; the error string is serde_json's.
#[verifier::external_body]
fn parse_jwk_set(body: &Vec<u8>) -> (r: Result<JwkSet, String>)
    ensures
        (r is Ok) == jwk_set_parses(body@),
{
    match serde_json::from_slice::<JwkSet>(body.as_slice()) {
        Ok(set) => Ok(set),
        Err(err) => Err(format!("{err}")),
    }
}

/// Takes a fetched key-set body: exactly when it parses, the cache is
/// filled with the parsed set; a body that does not parse leaves the
/// cache as it was and reports why.
pub fn store_fetched(cache: &mut KeySetCache, body: &Vec<u8>) -> (r: Result<(), String>)
    ensures
        (r is Ok) == jwk_set_parses(body@),
        r is Ok ==> final(cache).spec_entry() is Some,
        r is Err ==> *final(cache) == *old(cache),
{
    match parse_jwk_set(body) {
        Ok(set) => {
            cache.store(set);
            Ok(())
        },
        Err(e) => Err(e),
    }
}

} // verus!
