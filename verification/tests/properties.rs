//! Behaviour spelled out on concrete values: id preservation, the ping
//! answer, the batch gate, error variants, and the JSON codec's exact
//! bytes.

use ic_rmcp::{
    Context, Handler, HttpRequest, HttpResponse, Json, KeySetCache, RpcId, RpcOutcome,
    RpcRequest, handle_request, json_to_bytes, parse_json, raw_handle,
};
use jsonwebtoken::jwk::JwkSet;

struct Plain;

impl Handler for Plain {}

fn post(url: &str, body: &[u8]) -> HttpRequest {
    HttpRequest {
        method: b"POST".to_vec(),
        url: url.as_bytes().to_vec(),
        headers: vec![],
        body: body.to_vec(),
    }
}

fn json_resp(body: &[u8]) -> HttpResponse {
    HttpResponse {
        status_code: 200,
        headers: vec![(b"Content-Type".to_vec(), b"application/json".to_vec())],
        body: body.to_vec(),
    }
}

#[test]
fn response_id_and_version_marker_follow_the_request() {
    // a string id on an unrecognized method comes back unchanged
    assert_eq!(
        raw_handle(
            &Plain {},
            None,
            &post("/mcp", br#"{"jsonrpc":"2.0","id":"abc-7","method":"resources/read"}"#)
        ),
        json_resp(
            br#"{"jsonrpc":"2.0","id":"abc-7","error":{"code":-32601,"message":"Method not found"}}"#
        )
    );

    // a number id keeps its exact digits
    assert_eq!(
        raw_handle(
            &Plain {},
            None,
            &post("/mcp", br#"{"jsonrpc":"2.0","id":42,"method":"ping"}"#)
        ),
        json_resp(br#"{"jsonrpc":"2.0","id":42,"result":{}}"#)
    );
}

#[test]
fn ping_ignores_the_subject() {
    let ping = || RpcRequest {
        id: RpcId::Num(b"7".to_vec()),
        method: b"ping".to_vec(),
        params: None,
    };
    let expected = || RpcOutcome::Response {
        id: RpcId::Num(b"7".to_vec()),
        result: Json::Obj(vec![]),
    };
    assert_eq!(handle_request(&Plain {}, None, ping()), expected());
    assert_eq!(
        handle_request(&Plain {}, Some("someone".to_string()), ping()),
        expected()
    );
}

#[test]
fn batch_length_counts_requests_only() {
    // two requests and one notification: two entries come back
    let body = br#"[
        {"jsonrpc":"2.0","id":1,"method":"ping"},
        {"jsonrpc":"2.0","method":"notifications/initialized"},
        {"jsonrpc":"2.0","id":2,"method":"ping"}
    ]"#;
    assert_eq!(
        raw_handle(&Plain {}, None, &post("/mcp", body)),
        json_resp(
            br#"[{"id":1,"jsonrpc":"2.0","result":{}},{"id":2,"jsonrpc":"2.0","result":{}}]"#
        )
    );
}

#[test]
fn empty_batch_returns_empty_array() {
    assert_eq!(
        raw_handle(&Plain {}, None, &post("/mcp", b"[]")),
        json_resp(b"[]")
    );
}

#[test]
fn unreadable_version_header_fails_the_whole_call() {
    let mut req = post("/mcp", br#"{"jsonrpc":"2.0","id":1,"method":"ping"}"#);
    req.headers = vec![(b"mcp-protocol-version".to_vec(), b"20\"25".to_vec())];
    assert_eq!(
        raw_handle(&Plain {}, None, &req),
        json_resp(
            br#"{"jsonrpc":"2.0","error":{"code":-32600,"message":"Invalid Request"},"id":null}"#
        )
    );
}

#[test]
fn ill_shaped_params_draw_invalid_params_errors() {
    // initialize without a protocolVersion string
    assert_eq!(
        raw_handle(
            &Plain {},
            None,
            &post("/mcp", br#"{"jsonrpc":"2.0","id":1,"method":"initialize"}"#)
        ),
        json_resp(br#"{"jsonrpc":"2.0","id":1,"error":{"code":-32602,"message":"Invalid params"}}"#)
    );

    // tools/call without a name
    assert_eq!(
        raw_handle(
            &Plain {},
            None,
            &post("/mcp", br#"{"jsonrpc":"2.0","id":1,"method":"tools/call","params":{}}"#)
        ),
        json_resp(br#"{"jsonrpc":"2.0","id":1,"error":{"code":-32602,"message":"Invalid params"}}"#)
    );
}

#[test]
fn notification_with_null_id_is_an_invalid_message() {
    assert_eq!(
        raw_handle(
            &Plain {},
            None,
            &post("/mcp", br#"{"jsonrpc":"2.0","id":null,"method":"ping"}"#)
        ),
        json_resp(
            br#"{"jsonrpc":"2.0","error":{"code":-32600,"message":"Invalid Request"},"id":null}"#
        )
    );
}

#[test]
fn codec_keeps_text_and_resolves_escapes() {
    // escapes are decoded on the way in and re-escaped on the way out
    let doc = parse_json(&r#" [1.5e3, {"kA":"a\nbé"}, null, "😀"] "#.as_bytes().to_vec())
        .expect("well-formed document");
    assert_eq!(
        json_to_bytes(&doc),
        "[1.5e3,{\"kA\":\"a\\nb\u{e9}\"},null,\"\u{1F600}\"]".as_bytes().to_vec()
    );

    // number digits round-trip untouched
    let numbers = parse_json(&b"[-0.5,0,12e-3,1E+2]".to_vec()).expect("well-formed document");
    assert_eq!(json_to_bytes(&numbers), b"[-0.5,0,12e-3,1E+2]".to_vec());

    // what is not JSON is rejected
    assert!(parse_json(&b"{".to_vec()).is_none());
    assert!(parse_json(&b"01".to_vec()).is_none());
    assert!(parse_json(&b"[1,]".to_vec()).is_none());
    assert!(parse_json(&br#""\ud800""#.to_vec()).is_none());
}

#[test]
fn key_set_cache_returns_the_stored_set() {
    let mut cache = KeySetCache::new();
    assert!(cache.get().is_none());
    let set: JwkSet = serde_json::from_str(
        r#"{"keys":[{"kty":"EC","crv":"P-256","x":"foo","y":"bar","kid":"key-1"}]}"#,
    )
    .unwrap();
    cache.store(set.clone());
    assert_eq!(cache.get(), Some(&set));
}

#[test]
fn store_fetched_fills_the_cache_exactly_on_parse() {
    let mut cache = KeySetCache::new();
    assert!(ic_rmcp::store_fetched(&mut cache, &b"not a key set".to_vec()).is_err());
    assert!(cache.get().is_none());
    assert_eq!(
        ic_rmcp::store_fetched(&mut cache, &br#"{"keys":[]}"#.to_vec()),
        Ok(())
    );
    assert_eq!(cache.get(), Some(&JwkSet { keys: vec![] }));
}
