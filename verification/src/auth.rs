//! The authentication gate in front of the dispatcher.
//!
//! Two independent entry modes guard the raw pipeline: a caller-supplied
//! predicate over the request headers, and OAuth bearer-token validation
//! with unauthenticated metadata discovery. In either mode the routing
//! check (`POST` to `/mcp`) runs only after authentication has passed: an
//! unauthenticated request to a wrong path is answered 401, not 404.
//!
//! The OAuth mode is split around the one outside effect, the key-set
//! fetch: [`oauth_gate`] decides everything up to needing the key set,
//! and [`oauth_finish`] carries on once the fetch's outcome is known.

use vstd::prelude::*;
use vstd::string::{StrSliceExecFns, StringSliceAdditionalSpecFns};
use vstd::utf8::{decode_utf8, encode_utf8, valid_utf8};

use jsonwebtoken::jwk::JwkSet;

use crate::bytes::{bytes_eq, bytes_start_with, starts_with, str_bytes};
use crate::dispatch::Handler;
use crate::http::{HttpRequest, HttpRequestVal, HttpResponse, HttpResponseVal, header_lookup,
    json_response, json_response_val, raw_handle, raw_handle_post, text_response,
    text_response_val};
use crate::json::{Json, JsonVal, json_bytes, json_to_bytes, json_view, json_view_members,
    json_view_seq, lemma_json_view_members, lemma_json_view_seq};
use crate::token::{Claims, validate_token};

verus! {

/// Configuration for a token issuer and its key-set location.
#[derive(Debug, Clone, PartialEq, Eq)]
pub struct IssuerConfig {
    /// Expected issuer (`iss`) claim.
    pub issuer: String,
    /// URL the key set used to verify tokens is fetched from.
    pub jwks_url: String,
    /// Authorization servers that issue tokens for this resource; served
    /// in the metadata document.
    pub authorization_server: Vec<String>,
    /// Expected audience (`aud`) claim.
    pub audience: String,
}

impl Default for IssuerConfig {
    fn default() -> (r: IssuerConfig)
        ensures
            r.issuer@.len() == 0,
            r.jwks_url@.len() == 0,
            r.authorization_server@.len() == 0,
            r.audience@.len() == 0,
    {
        IssuerConfig {
            issuer: String::new(),
            jwks_url: String::new(),
            authorization_server: Vec::new(),
            audience: String::new(),
        }
    }
}

/// Configuration for OAuth protection and metadata serving.
#[derive(Debug, Clone, PartialEq, Eq)]
pub struct OAuthConfig {
    /// Absolute URL of the protected-resource metadata endpoint.
    pub metadata_url: String,
    /// The resource identifier this server represents.
    pub resource: String,
    /// Issuer validation and key-set configuration.
    pub issuer_configs: IssuerConfig,
    /// Scopes this resource supports; served in metadata responses.
    pub scopes_supported: Vec<String>,
}

impl Default for OAuthConfig {
    fn default() -> (r: OAuthConfig)
        ensures
            r.metadata_url@.len() == 0,
            r.resource@.len() == 0,
            r.scopes_supported@.len() == 0,
    {
        OAuthConfig {
            metadata_url: String::new(),
            resource: String::new(),
            issuer_configs: IssuerConfig::default(),
            scopes_supported: Vec::new(),
        }
    }
}

/// The path component of an absolute URL, if the text parses as one.
/// Parsing is a pure function of the text.
pub uninterp spec fn url_path(s: Seq<char>) -> Option<Seq<char>>;

/// Relies on url::Url::parse and Url::path: parses an absolute URL and
/// hands back its path component.
#[verifier::external_body]
fn parse_url_path(s: &str) -> (r: Option<String>)
    ensures
        (r is Some) == (url_path(s@) is Some),
        r matches Some(p) ==> url_path(s@) == Some(p@),
{
    url::Url::parse(s).ok().map(|u| u.path().to_string())
}

/// Relies on std's str::from_utf8: succeeds exactly on valid UTF-8 and
/// decodes it.
#[verifier::external_body]
fn utf8_string(b: &Vec<u8>) -> (r: Option<String>)
    ensures
        (r is Some) == valid_utf8(b@),
        r matches Some(s) ==> s@ == decode_utf8(b@),
{
    match core::str::from_utf8(b.as_slice()) {
        Ok(s) => Some(s.to_string()),
        Err(_) => None,
    }
}

/// The plain 401 of predicate mode.
pub open spec fn unauthorized_val() -> HttpResponseVal {
    text_response_val(401, "Unauthorized".spec_bytes())
}

/// The 500 every internal failure collapses to.
pub open spec fn internal_error_val() -> HttpResponseVal {
    text_response_val(500, "Internal Error".spec_bytes())
}

/// The challenge header value: `Bearer resource_metadata="<metadata_url>"`.
pub open spec fn challenge_value(metadata_url: Seq<char>) -> Seq<u8> {
    "Bearer resource_metadata=\"".spec_bytes() + encode_utf8(metadata_url) + "\"".spec_bytes()
}

/// A 401 with the challenge header and the given plain-text body.
pub open spec fn challenge_response_val(metadata_url: Seq<char>, body: Seq<u8>) -> HttpResponseVal {
    HttpResponseVal {
        status_code: 401,
        headers: seq![
            ("Content-Type".spec_bytes(), "text/plain".spec_bytes()),
            ("WWW-Authenticate".spec_bytes(), challenge_value(metadata_url)),
        ],
        body: body,
    }
}

/// The metadata document served on the metadata path, built from the
/// configuration alone.
pub open spec fn metadata_json_val(cfg: OAuthConfig) -> JsonVal {
    JsonVal::Obj(
        seq![
            ("resource".spec_bytes(), JsonVal::Str(encode_utf8(cfg.resource@))),
            (
                "authorization_servers".spec_bytes(),
                JsonVal::Arr(
                    cfg.issuer_configs.authorization_server@.map_values(
                        |s: String| JsonVal::Str(encode_utf8(s@)),
                    ),
                ),
            ),
            (
                "scopes_supported".spec_bytes(),
                JsonVal::Arr(
                    cfg.scopes_supported@.map_values(|s: String| JsonVal::Str(encode_utf8(s@))),
                ),
            ),
        ],
    )
}

/// The bearer token the request presents: the value of the first
/// `Authorization` header, after the `Bearer ` prefix.
pub open spec fn bearer_token(req: HttpRequestVal) -> Option<Seq<u8>> {
    match header_lookup(req.headers, "Authorization".spec_bytes()) {
        Some(v) => if starts_with(v, "Bearer ".spec_bytes()) {
            Some(v.skip("Bearer ".spec_bytes().len() as int))
        } else {
            None
        },
        None => None,
    }
}

/// Where the OAuth gate stands after the steps that need no key set.
#[derive(Debug, PartialEq, Eq)]
pub enum OAuthGate {
    /// The call is answered without validating any token.
    Done(HttpResponse),
    /// A bearer token was presented; it remains to be validated.
    Validate(String),
}

/// Model of [`OAuthGate`].
pub enum OAuthGateVal {
    Done(HttpResponseVal),
    Validate(Seq<char>),
}

impl View for OAuthGate {
    type V = OAuthGateVal;

    open spec fn view(&self) -> OAuthGateVal {
        match self {
            OAuthGate::Done(r) => OAuthGateVal::Done(r@),
            OAuthGate::Validate(t) => OAuthGateVal::Validate(t@),
        }
    }
}

/// Everything the OAuth gate promises before any key set is involved: an
/// unusable metadata URL is answered 500; a `GET` on exactly the metadata
/// path is answered with the metadata document, token or no token; any
/// other call without a well-formed bearer token is answered 401 with the
/// challenge header; and a presented token is handed on for validation.
pub open spec fn oauth_gate_post(req: HttpRequestVal, cfg: OAuthConfig, g: OAuthGateVal) -> bool {
    match url_path(cfg.metadata_url@) {
        None => g == OAuthGateVal::Done(internal_error_val()),
        Some(path) => {
            if req.method == "GET".spec_bytes() && req.url == encode_utf8(path) {
                g == OAuthGateVal::Done(json_response_val(json_bytes(metadata_json_val(cfg))))
            } else {
                match bearer_token(req) {
                    Some(tok) => if valid_utf8(tok) {
                        g == OAuthGateVal::Validate(decode_utf8(tok))
                    } else {
                        g == OAuthGateVal::Done(
                            challenge_response_val(cfg.metadata_url@, "Unauthorized".spec_bytes()),
                        )
                    },
                    None => g == OAuthGateVal::Done(
                        challenge_response_val(cfg.metadata_url@, "Unauthorized".spec_bytes()),
                    ),
                }
            }
        },
    }
}

fn challenge_response(cfg: &OAuthConfig, body: &str) -> (r: HttpResponse)
    ensures
        r@ == challenge_response_val(cfg.metadata_url@, body.spec_bytes()),
{
    let mut value = str_bytes("Bearer resource_metadata=\"");
    let mut url_bytes = cfg.metadata_url.as_str().as_bytes_vec();
    value.append(&mut url_bytes);
    let mut quote = str_bytes("\"");
    value.append(&mut quote);
    let mut headers: Vec<(Vec<u8>, Vec<u8>)> = Vec::new();
    headers.push((str_bytes("Content-Type"), str_bytes("text/plain")));
    headers.push((str_bytes("WWW-Authenticate"), value));
    let r = HttpResponse { status_code: 401, headers, body: str_bytes(body) };
    proof {
        assert(r@.headers =~= challenge_response_val(cfg.metadata_url@, body.spec_bytes()).headers);
    }
    r
}

fn internal_error_response() -> (r: HttpResponse)
    ensures
        r@ == internal_error_val(),
{
    text_response(500, "Internal Error")
}

#[verifier::loop_isolation(false)]
fn string_list_json(list: &Vec<String>) -> (r: Json)
    ensures
        r@ == JsonVal::Arr(list@.map_values(|s: String| JsonVal::Str(encode_utf8(s@)))),
{
    let mut items: Vec<Json> = Vec::new();
    let mut k: usize = 0;
    while k < list.len()
        invariant
            k <= list@.len(),
            items@.len() == k,
            forall|i: int| 0 <= i < k ==> json_view(items@[i]) == JsonVal::Str(
                encode_utf8(list@[i]@),
            ),
        decreases list@.len() - k,
    {
        items.push(Json::Str(list[k].as_str().as_bytes_vec()));
        k = k + 1;
    }
    let r = Json::Arr(items);
    proof {
        lemma_json_view_seq(items@);
        assert(json_view_seq(items@) =~= list@.map_values(|s: String| JsonVal::Str(
            encode_utf8(s@),
        )));
    }
    r
}

/// Builds the metadata document.
fn metadata_json(cfg: &OAuthConfig) -> (r: Json)
    ensures
        r@ == metadata_json_val(*cfg),
{
    let mut members: Vec<(Vec<u8>, Json)> = Vec::new();
    members.push((str_bytes("resource"), Json::Str(cfg.resource.as_str().as_bytes_vec())));
    members.push(
        (
            str_bytes("authorization_servers"),
            string_list_json(&cfg.issuer_configs.authorization_server),
        ),
    );
    members.push((str_bytes("scopes_supported"), string_list_json(&cfg.scopes_supported)));
    let r = Json::Obj(members);
    proof {
        lemma_json_view_members(r->Obj_0@);
        assert(json_view_members(r->Obj_0@) =~= metadata_json_val(*cfg)->Obj_0);
    }
    r
}

/// Runs the OAuth steps that need no key set: metadata URL parse,
/// unauthenticated metadata discovery, and bearer-token extraction.
pub fn oauth_gate(req: &HttpRequest, cfg: &OAuthConfig) -> (g: OAuthGate)
    ensures
        oauth_gate_post(req@, *cfg, g@),
{
    let path = match parse_url_path(cfg.metadata_url.as_str()) {
        Some(p) => p,
        None => {
            return OAuthGate::Done(internal_error_response());
        },
    };
    let is_get = bytes_eq(&req.method, &str_bytes("GET"));
    let path_bytes = path.as_str().as_bytes_vec();
    if is_get && bytes_eq(&req.url, &path_bytes) {
        let doc = metadata_json(cfg);
        let body = json_to_bytes(&doc);
        return OAuthGate::Done(json_response(body));
    }
    let token_bytes: Option<Vec<u8>> = match crate::http::find_header(&req.headers, "Authorization")
        {
        Some(v) => {
            if bytes_start_with(v, "Bearer ") {
                let n = str_bytes("Bearer ");
                Some(crate::parse::copy_vec_range(v, n.len(), v.len()))
            } else {
                None
            }
        },
        None => None,
    };
    match token_bytes {
        Some(tok) => {
            proof {
                assert(tok@ =~= bearer_token(req@).unwrap());
            }
            match utf8_string(&tok) {
                Some(s) => OAuthGate::Validate(s),
                None => OAuthGate::Done(challenge_response(cfg, "Unauthorized")),
            }
        },
        None => OAuthGate::Done(challenge_response(cfg, "Unauthorized")),
    }
}

/// Carries the call on once the token's validation outcome is known: a
/// failed validation is answered 401 `Token invalid` with the challenge
/// header, a validated token hands its subject to the raw pipeline.
pub fn oauth_validated<H: Handler>(
    h: &H,
    req: &HttpRequest,
    cfg: &OAuthConfig,
    outcome: Result<Claims, String>,
) -> (r: HttpResponse)
    requires
        req.body@.len() < usize::MAX / 4,
    ensures
        outcome is Err ==> r@ == challenge_response_val(
            cfg.metadata_url@,
            "Token invalid".spec_bytes(),
        ),
        outcome matches Ok(c) ==> raw_handle_post(req@, r@),
{
    match outcome {
        Ok(claims) => raw_handle(h, Some(claims.into_subject()), req),
        Err(_) => challenge_response(cfg, "Token invalid"),
    }
}

/// Finishes an OAuth call once the key-set fetch has settled: a failed
/// fetch collapses to 500, a fetched set is used to validate the token.
pub fn oauth_finish<H: Handler>(
    h: &H,
    req: &HttpRequest,
    cfg: &OAuthConfig,
    token: &str,
    jwks: Option<JwkSet>,
) -> (r: HttpResponse)
    requires
        req.body@.len() < usize::MAX / 4,
    ensures
        jwks is None ==> r@ == internal_error_val(),
        jwks is Some ==> (r@ == challenge_response_val(
            cfg.metadata_url@,
            "Token invalid".spec_bytes(),
        ) || raw_handle_post(req@, r@)),
{
    match jwks {
        Some(set) => {
            let outcome = validate_token(token, &cfg.issuer_configs, set);
            oauth_validated(h, req, cfg, outcome)
        },
        None => internal_error_response(),
    }
}

/// Entry points for serving the engine over a transport.
///
/// Implemented for every [`Handler`].
pub trait Server {
    /// Handles a request under a caller-provided authorization predicate
    /// over the request headers: when the predicate refuses, the answer
    /// is a plain 401; when it accepts, the raw pipeline answers.
    fn handle<F: Fn(&Vec<(Vec<u8>, Vec<u8>)>) -> bool>(&self, req: &HttpRequest, auth: F) -> (r:
        HttpResponse)
        requires
            req.body@.len() < usize::MAX / 4,
            call_requires(auth, (&req.headers,)),
        ensures
            exists|b: bool|
                #[trigger] call_ensures(auth, (&req.headers,), b) && (if b {
                    raw_handle_post(req@, r@)
                } else {
                    r@ == unauthorized_val()
                }),
    ;
}

impl<S: Handler> Server for S {
    fn handle<F: Fn(&Vec<(Vec<u8>, Vec<u8>)>) -> bool>(&self, req: &HttpRequest, auth: F) -> (r:
        HttpResponse) {
        let ok = auth(&req.headers);
        if ok {
            raw_handle(self, None, req)
        } else {
            text_response(401, "Unauthorized")
        }
    }
}

} // verus!
