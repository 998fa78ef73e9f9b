//! The engine exercised directly: dispatcher outcomes, the raw pipeline,
//! and both authentication modes.

use ic_rmcp::{
    CallToolParams, Context, Handler, HttpRequest, HttpResponse, IssuerConfig, Json,
    ListToolsResult, OAuthConfig, OAuthGate, RpcError, RpcId, RpcNotification, RpcOutcome,
    RpcRequest, Server, ServerInfo, handle_notification, handle_request, json_response,
    json_to_bytes, oauth_gate, raw_handle,
};

fn post(url: &str, body: &[u8]) -> HttpRequest {
    HttpRequest {
        method: b"POST".to_vec(),
        url: url.as_bytes().to_vec(),
        headers: vec![],
        body: body.to_vec(),
    }
}

fn get(url: &str) -> HttpRequest {
    HttpRequest {
        method: b"GET".to_vec(),
        url: url.as_bytes().to_vec(),
        headers: vec![],
        body: vec![],
    }
}

fn obj(members: Vec<(&str, Json)>) -> Json {
    Json::Obj(members.into_iter().map(|(k, v)| (k.as_bytes().to_vec(), v)).collect())
}

fn s(text: &str) -> Json {
    Json::Str(text.as_bytes().to_vec())
}

fn n(digits: &str) -> Json {
    Json::Num(digits.as_bytes().to_vec())
}

fn text_resp(status: u16, body: &[u8]) -> HttpResponse {
    HttpResponse {
        status_code: status,
        headers: vec![(b"Content-Type".to_vec(), b"text/plain".to_vec())],
        body: body.to_vec(),
    }
}

fn json_resp(body: &[u8]) -> HttpResponse {
    HttpResponse {
        status_code: 200,
        headers: vec![(b"Content-Type".to_vec(), b"application/json".to_vec())],
        body: body.to_vec(),
    }
}

#[test]
fn test_default_handler() {
    struct H;

    impl Handler for H {}

    assert_eq!(
        H {}.call_tool(
            Context::default(),
            CallToolParams { name: b"foo".to_vec(), arguments: None }
        ),
        Err(RpcError {
            code: -32601,
            message: b"Method not found".to_vec(),
            data: None
        })
    );

    assert_eq!(
        H {}.list_tools(Context::default(), None),
        Ok(ListToolsResult { tools: vec![], next_cursor: None })
    );

    assert_eq!(H {}.get_info(Context::default()), ServerInfo::default());
}

#[test]
fn test_response() {
    assert_eq!(
        json_response(json_to_bytes(&obj(vec![("foo", s("bar"))]))),
        json_resp(br#"{"foo":"bar"}"#)
    );
}

#[test]
fn test_service() {
    struct S;

    impl Handler for S {}

    // a recognized notification is taken without effect
    handle_notification(
        &S {},
        RpcNotification { method: b"notifications/initialized".to_vec(), params: None },
    );

    let init_req = |version: &str| RpcRequest {
        id: RpcId::Num(b"1".to_vec()),
        method: b"initialize".to_vec(),
        params: Some(obj(vec![
            ("protocolVersion", s(version)),
            ("capabilities", obj(vec![])),
            ("clientInfo", obj(vec![("name", s("foo")), ("version", s("bar"))])),
        ])),
    };
    let init_result = |version: &str| Json::Obj(vec![
        (b"protocolVersion".to_vec(), s(version)),
        (b"capabilities".to_vec(), obj(vec![])),
        (
            b"serverInfo".to_vec(),
            obj(vec![("name", s("ic_rmcp")), ("version", s("0.1.0"))]),
        ),
    ]);

    assert_eq!(
        handle_request(&S {}, None, init_req("2025-03-26")),
        RpcOutcome::Response { id: RpcId::Num(b"1".to_vec()), result: init_result("2025-03-26") }
    );

    assert_eq!(
        handle_request(&S {}, None, init_req("2025-06-18")),
        RpcOutcome::Response { id: RpcId::Num(b"1".to_vec()), result: init_result("2025-06-18") }
    );

    assert_eq!(
        handle_request(&S {}, None, init_req("1970-01-01")),
        RpcOutcome::Response { id: RpcId::Num(b"1".to_vec()), result: init_result("2025-06-18") }
    );

    assert_eq!(
        handle_request(
            &S {},
            None,
            RpcRequest { id: RpcId::Num(b"1".to_vec()), method: b"ping".to_vec(), params: None }
        ),
        RpcOutcome::Response { id: RpcId::Num(b"1".to_vec()), result: obj(vec![]) }
    );

    assert_eq!(
        handle_request(
            &S {},
            None,
            RpcRequest {
                id: RpcId::Num(b"1".to_vec()),
                method: b"tools/call".to_vec(),
                params: Some(obj(vec![("name", s("foo"))])),
            }
        ),
        RpcOutcome::Failure {
            id: RpcId::Num(b"1".to_vec()),
            error: RpcError { code: -32601, message: b"Method not found".to_vec(), data: None },
        }
    );

    assert_eq!(
        handle_request(
            &S {},
            None,
            RpcRequest {
                id: RpcId::Num(b"1".to_vec()),
                method: b"tools/list".to_vec(),
                params: None,
            }
        ),
        RpcOutcome::Response {
            id: RpcId::Num(b"1".to_vec()),
            result: obj(vec![("tools", Json::Arr(vec![]))]),
        }
    );

    assert_eq!(
        handle_request(
            &S {},
            None,
            RpcRequest {
                id: RpcId::Num(b"1".to_vec()),
                method: b"resources/list".to_vec(),
                params: Some(obj(vec![])),
            }
        ),
        RpcOutcome::Failure {
            id: RpcId::Num(b"1".to_vec()),
            error: RpcError { code: -32601, message: b"Method not found".to_vec(), data: None },
        }
    );
}

#[test]
fn test_service_raw_handle() {
    struct A;

    impl Handler for A {}

    let invalid =
        br#"{"jsonrpc":"2.0","error":{"code":-32600,"message":"Invalid Request"},"id":null}"#;
    let parse_err =
        br#"{"jsonrpc":"2.0","error":{"code":-32700,"message":"Parse error"},"id":null}"#;

    assert_eq!(
        raw_handle(&A {}, None, &get("/foo")),
        text_resp(404, b"Not Found or Method Not Allowed. Use POST to /mcp")
    );

    assert_eq!(
        raw_handle(&A {}, None, &get("")),
        text_resp(404, b"Not Found or Method Not Allowed. Use POST to /mcp")
    );

    assert_eq!(raw_handle(&A {}, None, &post("/foo/mcp", b"{")), json_resp(parse_err));

    assert_eq!(raw_handle(&A {}, None, &post("/mcp", b"12")), json_resp(invalid));

    assert_eq!(raw_handle(&A {}, None, &post("/mcp", br#""foo""#)), json_resp(invalid));

    assert_eq!(raw_handle(&A {}, None, &post("/mcp", b"null")), json_resp(invalid));

    assert_eq!(raw_handle(&A {}, None, &post("/mcp", b"true")), json_resp(invalid));

    assert_eq!(
        raw_handle(
            &A {},
            None,
            &post(
                "/mcp",
                br#"
                    {
                    "jsonrpc": "2.0",
                    "id": 1,
                    "result": {
                        "tools": [
                        {
                            "name": "get_weather",
                            "description": "Get current weather information for a location",
                            "inputSchema": {
                            "type": "object",
                            "properties": {
                                "location": {
                                "type": "string",
                                "description": "City name or zip code"
                                }
                            },
                            "required": ["location"]
                            }
                        }
                        ],
                        "nextCursor": "next-page-cursor"
                    }
                    }
                "#
            )
        ),
        json_resp(invalid)
    );

    assert_eq!(
        raw_handle(
            &A {},
            None,
            &post(
                "/mcp",
                br#"
                    {
                    "jsonrpc": "2.0",
                    "method": "notifications/initialized"
                    }
                "#
            )
        ),
        HttpResponse { status_code: 202, headers: vec![], body: vec![] }
    );

    assert_eq!(
        raw_handle(
            &A {},
            None,
            &post(
                "/mcp",
                br#"
                        {
                        "jsonrpc": "2.0",
                        "id": "123",
                        "method": "ping"
                        }
                "#
            )
        ),
        json_resp(br#"{"jsonrpc":"2.0","id":"123","result":{}}"#)
    );

    let batch_body: &[u8] = br#"[
                        {
                        "jsonrpc": "2.0",
                        "id": "123",
                        "method": "ping"
                        },
                        {
                        "jsonrpc": "2.0",
                        "method": "notifications/initialized"
                        }
                        ]
                "#;

    assert_eq!(
        raw_handle(&A {}, None, &post("/mcp", batch_body)),
        json_resp(br#"[{"id":"123","jsonrpc":"2.0","result":{}}]"#)
    );

    let mut with_legacy = post("/mcp", batch_body);
    with_legacy.headers =
        vec![(b"MCP-Protocol-Version".to_vec(), b"2025-03-26".to_vec())];
    assert_eq!(
        raw_handle(&A {}, None, &with_legacy),
        json_resp(br#"[{"id":"123","jsonrpc":"2.0","result":{}}]"#)
    );

    let mut with_current = post("/mcp", batch_body);
    with_current.headers =
        vec![(b"MCP-Protocol-Version".to_vec(), b"2025-06-18".to_vec())];
    assert_eq!(raw_handle(&A {}, None, &with_current), json_resp(invalid));

    assert_eq!(
        raw_handle(
            &A {},
            None,
            &post(
                "/mcp",
                br#"[
                        {
                        "jsonrpc": "2.0",
                        "method": "notifications/initialized"
                        },
                        {
                        "foo": "bar"
                        }
                        ]
                "#
            )
        ),
        json_resp(
            br#"[{"error":{"code":-32600,"message":"Invalid Request"},"id":null,"jsonrpc":"2.0"}]"#
        )
    );
}

#[test]
fn test_server_handle() {
    struct A;

    impl Handler for A {}

    assert_eq!(
        A {}.handle(&get("/foo"), |_| false),
        text_resp(401, b"Unauthorized")
    );

    assert_eq!(
        A {}.handle(&get("/foo"), |_| true),
        text_resp(404, b"Not Found or Method Not Allowed. Use POST to /mcp")
    );
}

#[test]
fn test_server_handle_with_oauth() {
    assert_eq!(
        oauth_gate(
            &get("/foo"),
            &OAuthConfig { metadata_url: "foo".to_string(), ..Default::default() }
        ),
        OAuthGate::Done(text_resp(500, b"Internal Error"))
    );

    assert_eq!(
        oauth_gate(
            &get("/.well-known/oauth-protected-resource"),
            &OAuthConfig {
                metadata_url: "https://my-server.com/.well-known/oauth-protected-resource"
                    .to_string(),
                resource: "https://my-server.com".to_string(),
                scopes_supported: vec![],
                issuer_configs: IssuerConfig {
                    authorization_server: vec!["https://authorization-server.com".to_string()],
                    ..Default::default()
                },
            }
        ),
        OAuthGate::Done(json_resp(
            br#"{"resource":"https://my-server.com","authorization_servers":["https://authorization-server.com"],"scopes_supported":[]}"#
        ))
    );

    assert_eq!(
        oauth_gate(
            &post("/mcp", b""),
            &OAuthConfig {
                metadata_url: "https://my-server.com/.well-known/oauth-protected-resource"
                    .to_string(),
                ..Default::default()
            }
        ),
        OAuthGate::Done(HttpResponse {
            status_code: 401,
            headers: vec![
                (b"Content-Type".to_vec(), b"text/plain".to_vec()),
                (
                    b"WWW-Authenticate".to_vec(),
                    b"Bearer resource_metadata=\"https://my-server.com/.well-known/oauth-protected-resource\""
                        .to_vec()
                ),
            ],
            body: b"Unauthorized".to_vec(),
        })
    );
}
