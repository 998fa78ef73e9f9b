//! End-to-end: a provider with one tool, served through the predicate
//! entry point.

use ic_rmcp::{
    CallToolParams, Context, Handler, HttpRequest, HttpResponse, Json, ListToolsResult,
    RpcError, Server, ServerInfo, Tool, parse_json,
};

struct MagicSum;

fn num_field(args: &[(Vec<u8>, Json)], key: &[u8]) -> Option<f64> {
    for (k, v) in args {
        if k == key {
            if let Json::Num(digits) = v {
                return String::from_utf8(digits.clone()).ok()?.parse::<f64>().ok();
            }
        }
    }
    None
}

impl Handler for MagicSum {
    fn get_info(&self, _: Context) -> ServerInfo {
        ServerInfo {
            capabilities: vec![b"tools".to_vec()],
            name: b"Magic sum calculator".to_vec(),
            version: b"1.0.0".to_vec(),
            instructions: Some(
                b"This server provides a `calculate_magic_sum` tool returning a magic sum between two numbers"
                    .to_vec(),
            ),
            ..Default::default()
        }
    }

    fn list_tools(&self, _: Context, _: Option<Vec<u8>>) -> Result<ListToolsResult, RpcError> {
        let schema = parse_json(
            &br#"{"$schema":"http://json-schema.org/draft-07/schema#","properties":{"a":{"format":"double","type":"number"},"b":{"format":"double","type":"number"}},"required":["a","b"],"title":"MagicSumRequest","type":"object"}"#
                .to_vec(),
        )
        .expect("the schema document is well-formed");
        Ok(ListToolsResult {
            next_cursor: None,
            tools: vec![Tool {
                name: b"calculate_magic_sum".to_vec(),
                description: b"Calculate a magic sum between two numbers".to_vec(),
                input_schema: schema,
            }],
        })
    }

    fn call_tool(&self, _: Context, request: CallToolParams) -> Result<Json, RpcError> {
        let invalid = |msg: &str| RpcError {
            code: -32602,
            message: msg.as_bytes().to_vec(),
            data: None,
        };
        match request.name.as_slice() {
            b"calculate_magic_sum" => match request.arguments {
                Some(Json::Obj(args)) => {
                    match (num_field(&args, b"a"), num_field(&args, b"b")) {
                        (Some(a), Some(b)) => Ok(Json::Obj(vec![
                            (
                                b"content".to_vec(),
                                Json::Arr(vec![Json::Obj(vec![
                                    (b"type".to_vec(), Json::Str(b"text".to_vec())),
                                    (
                                        b"text".to_vec(),
                                        Json::Str(
                                            format!("{:.2}", a + 3.0 * b).into_bytes(),
                                        ),
                                    ),
                                ])]),
                            ),
                            (b"isError".to_vec(), Json::Bool(false)),
                        ])),
                        _ => Err(invalid("invalid arguments to tool add")),
                    }
                },
                _ => Err(invalid("invalid arguments to tool add")),
            },
            _ => Err(invalid("not found tool")),
        }
    }
}

fn post(url: &str, body: &[u8]) -> HttpRequest {
    HttpRequest {
        method: b"POST".to_vec(),
        url: url.as_bytes().to_vec(),
        headers: vec![],
        body: body.to_vec(),
    }
}

fn text_resp(status: u16, body: &[u8]) -> HttpResponse {
    HttpResponse {
        status_code: status,
        headers: vec![(b"Content-Type".to_vec(), b"text/plain".to_vec())],
        body: body.to_vec(),
    }
}

fn json_resp(body: &[u8]) -> HttpResponse {
    HttpResponse {
        status_code: 200,
        headers: vec![(b"Content-Type".to_vec(), b"application/json".to_vec())],
        body: body.to_vec(),
    }
}

#[test]
fn test_auth() {
    let empty = HttpRequest {
        method: b"GET".to_vec(),
        url: vec![],
        headers: vec![],
        body: vec![],
    };

    assert_eq!(
        MagicSum {}.handle(&empty, |_| false),
        text_resp(401, b"Unauthorized")
    );

    assert_eq!(
        MagicSum {}.handle(&empty, |_| true),
        text_resp(404, b"Not Found or Method Not Allowed. Use POST to /mcp")
    );
}

#[test]
fn test_initialization() {
    assert_eq!(
        MagicSum {}.handle(
            &post(
                "/mcp",
                br#"
                            {
                            "jsonrpc": "2.0",
                            "id": 1,
                            "method": "initialize",
                            "params": {
                                "protocolVersion": "2025-03-26",
                                "capabilities": {},
                                "clientInfo": {
                                "name": "ExampleClient",
                                "version": "1.0.0"
                                }
                            }
                            }
                "#
            ),
            |_| true
        ),
        json_resp(
            br#"{"jsonrpc":"2.0","id":1,"result":{"protocolVersion":"2025-03-26","capabilities":{"tools":{}},"serverInfo":{"name":"Magic sum calculator","version":"1.0.0"},"instructions":"This server provides a `calculate_magic_sum` tool returning a magic sum between two numbers"}}"#
        )
    );

    assert_eq!(
        MagicSum {}.handle(
            &post(
                "/mcp",
                br#"
                            {
                            "jsonrpc": "2.0",
                            "method": "notifications/initialized"
                            }
                "#
            ),
            |_| true
        ),
        HttpResponse { status_code: 202, headers: vec![], body: vec![] }
    );
}

#[test]
fn test_tools() {
    assert_eq!(
        MagicSum {}.handle(
            &post(
                "/mcp",
                br#"
                            {
                            "jsonrpc": "2.0",
                            "id": 1,
                            "method": "tools/list",
                            "params": {}
                            }
                "#
            ),
            |_| true
        ),
        json_resp(
            br#"{"jsonrpc":"2.0","id":1,"result":{"tools":[{"name":"calculate_magic_sum","description":"Calculate a magic sum between two numbers","inputSchema":{"$schema":"http://json-schema.org/draft-07/schema#","properties":{"a":{"format":"double","type":"number"},"b":{"format":"double","type":"number"}},"required":["a","b"],"title":"MagicSumRequest","type":"object"}}]}}"#
        )
    );

    assert_eq!(
        MagicSum {}.handle(
            &post(
                "/mcp",
                br#"
                            {
                            "jsonrpc": "2.0",
                            "id": 1,
                            "method": "tools/call",
                            "params": {
                                "name": "calculate_magic_sum",
                                "arguments": {
                                        "a": 4, "b": 6
                                    }
                                }
                            }
                "#
            ),
            |_| true
        ),
        json_resp(
            br#"{"jsonrpc":"2.0","id":1,"result":{"content":[{"type":"text","text":"22.00"}],"isError":false}}"#
        )
    );

    assert_eq!(
        MagicSum {}.handle(
            &post(
                "/mcp",
                br#"
                            {
                            "jsonrpc": "2.0",
                            "id": 1,
                            "method": "tools/call",
                            "params": {
                                "name": "unknown_tool",
                                "arguments": {}
                            }
                        }
                "#
            ),
            |_| true
        ),
        json_resp(br#"{"jsonrpc":"2.0","id":1,"error":{"code":-32602,"message":"not found tool"}}"#)
    );
}

#[test]
fn test_unsupported_method() {
    assert_eq!(
        MagicSum {}.handle(
            &post(
                "/mcp",
                br#"
                            {
                            "jsonrpc": "2.0",
                            "id": 1,
                            "method": "resources/list",
                            "params": {}
                        }
                "#
            ),
            |_| true
        ),
        json_resp(br#"{"jsonrpc":"2.0","id":1,"error":{"code":-32601,"message":"Method not found"}}"#)
    );
}

#[test]
fn test_batch() {
    assert_eq!(
        MagicSum {}.handle(
            &post(
                "/mcp",
                br#"[
                            {
                            "jsonrpc": "2.0",
                            "id": 1,
                            "method": "prompts/list",
                            "params": {}
                        } ,{
                            "jsonrpc": "2.0",
                            "id": "123",
                            "method": "ping"
                            }
                        ]
                "#
            ),
            |_| true
        ),
        json_resp(
            br#"[{"error":{"code":-32601,"message":"Method not found"},"id":1,"jsonrpc":"2.0"},{"id":"123","jsonrpc":"2.0","result":{}}]"#
        )
    );
}
