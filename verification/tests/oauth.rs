//! Token validation against key sets, and the OAuth continuation once a
//! fetch outcome is known.

use ic_rmcp::{
    Handler, HttpRequest, HttpResponse, IssuerConfig, OAuthConfig, OAuthGate, oauth_finish,
    oauth_gate, validate_token,
};
use jsonwebtoken::jwk::JwkSet;

fn empty_set() -> JwkSet {
    JwkSet { keys: vec![] }
}

#[test]
fn test_validate_token() {
    assert_eq!(
        validate_token("", &IssuerConfig::default(), empty_set()),
        Err("No token provided".to_string())
    );

    assert!(validate_token("ey..", &IssuerConfig::default(), empty_set())
        .unwrap_err()
        .contains("decode header"));

    assert!(validate_token(
        "eyJhbGciOiJIUzI1NiIsInR5cCI6IkpXVCJ9..",
        &IssuerConfig::default(),
        empty_set()
    )
    .unwrap_err()
    .contains("No key ID (kid) in token header"));

    assert!(validate_token(
        "eyJhbGciOiJIUzI1NiIsInR5cCI6IkpXVCIsImtpZCI6ImtleS0xMjM0In0..",
        &IssuerConfig::default(),
        empty_set()
    )
    .unwrap_err()
    .contains("No matching key found in JWKS for the given kid"));

    let bad_material: JwkSet = serde_json::from_str(
        r#"{
              "keys": [
                {
                  "kid": "key-1234",
                  "alg": "ES256",
                  "kty": "EC",
                  "crv": "P-256",
                  "x": "foo",
                  "y": "bar"
                }
              ]
            }"#,
    )
    .unwrap();
    assert!(validate_token(
        "eyJhbGciOiJIUzI1NiIsInR5cCI6IkpXVCIsImtpZCI6ImtleS0xMjM0In0..",
        &IssuerConfig::default(),
        bad_material
    )
    .unwrap_err()
    .contains("get decoding key"));

    let real_key: JwkSet = serde_json::from_str(
        r#"{
              "keys": [
                {
              "crv": "P-256",
              "key_ops": [
                "verify"
              ],
              "kty": "EC",
              "x": "Z0VuXQcCOTh06Ge3u2Ts77FYLRwgHqIQkPU_Mb9pthU",
              "y": "q055d-H_g7_tbxdEVt1hIbOHHG2_1R8X-JZ7kLC48aM",
              "alg": "ES256",
              "use": "sig",
              "kid": "7d0aec82a4b2dc7c8f066f3cf4d6517e"
            }
              ]
            }"#,
    )
    .unwrap();
    assert!(validate_token(
        "eyJ0eXAiOiJKV1QiLCJhbGciOiJFUzI1NiIsImtpZCI6IjdkMGFlYzgyYTRiMmRjN2M4ZjA2NmYzY2Y0ZDY1MTdlIn0.e30.qi44LygNKrsh9x0wpz16aau46quyRNTugZV2MeRtagRzOgAZ9VI4lJkbzNeo7HCFmUcLgHGp_vUxNSYmlk44TA7idqhVXg4oJN2m3GVyfkcV690Ju8j9P5a6lzFWSrNq_RLwAznZY9eHbMdRfMvdmY9c5OfnPwbrJ_NJkiRqbrkA",
        &IssuerConfig::default(),
        real_key
    )
    .unwrap_err()
    .contains("invalid token"));
}

#[test]
fn read_claims_requires_all_four_fields() {
    let full: serde_json::Value = serde_json::from_str(
        r#"{"sub":"alice","iss":"issuer","aud":"audience","exp":4070908800}"#,
    )
    .unwrap();
    let claims = ic_rmcp::read_claims(&full).unwrap();
    assert_eq!(claims.sub, "alice".to_string());

    let missing_sub: serde_json::Value =
        serde_json::from_str(r#"{"iss":"issuer","aud":"audience","exp":1}"#).unwrap();
    assert_eq!(
        ic_rmcp::read_claims(&missing_sub),
        Err("invalid token: incomplete claims".to_string())
    );

    let wrong_type: serde_json::Value =
        serde_json::from_str(r#"{"sub":7,"iss":"issuer","aud":"audience","exp":1}"#).unwrap();
    assert_eq!(
        ic_rmcp::read_claims(&wrong_type),
        Err("invalid token: incomplete claims".to_string())
    );
}

struct Plain;

impl Handler for Plain {}

fn cfg() -> OAuthConfig {
    OAuthConfig {
        metadata_url: "https://my-server.com/.well-known/oauth-protected-resource".to_string(),
        ..Default::default()
    }
}

fn mcp_post() -> HttpRequest {
    HttpRequest {
        method: b"POST".to_vec(),
        url: b"/mcp".to_vec(),
        headers: vec![(b"Authorization".to_vec(), b"Bearer not-a-real-token".to_vec())],
        body: br#"{"jsonrpc":"2.0","id":1,"method":"ping"}"#.to_vec(),
    }
}

#[test]
fn oauth_gate_hands_on_presented_token() {
    assert_eq!(
        oauth_gate(&mcp_post(), &cfg()),
        OAuthGate::Validate("not-a-real-token".to_string())
    );
}

#[test]
fn oauth_gate_matches_header_names_case_insensitively() {
    let mut req = mcp_post();
    req.headers = vec![(b"authorization".to_vec(), b"Bearer other-token".to_vec())];
    assert_eq!(
        oauth_gate(&req, &cfg()),
        OAuthGate::Validate("other-token".to_string())
    );
}

#[test]
fn oauth_finish_rejects_unverifiable_token() {
    let r = oauth_finish(&Plain {}, &mcp_post(), &cfg(), "not-a-real-token", Some(empty_set()));
    assert_eq!(
        r,
        HttpResponse {
            status_code: 401,
            headers: vec![
                (b"Content-Type".to_vec(), b"text/plain".to_vec()),
                (
                    b"WWW-Authenticate".to_vec(),
                    b"Bearer resource_metadata=\"https://my-server.com/.well-known/oauth-protected-resource\""
                        .to_vec()
                ),
            ],
            body: b"Token invalid".to_vec(),
        }
    );
}

#[test]
fn oauth_finish_maps_fetch_failure_to_internal_error() {
    let r = oauth_finish(&Plain {}, &mcp_post(), &cfg(), "not-a-real-token", None);
    assert_eq!(
        r,
        HttpResponse {
            status_code: 500,
            headers: vec![(b"Content-Type".to_vec(), b"text/plain".to_vec())],
            body: b"Internal Error".to_vec(),
        }
    );
}
