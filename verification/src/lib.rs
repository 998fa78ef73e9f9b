//! A verified engine for serving the Model Context Protocol (MCP): a JSON-RPC
//! 2.0 protocol, carried over HTTP, through which a client discovers and
//! invokes named tools exposed by a server.
//!
//! The crate parses raw request bodies into JSON-RPC messages, routes requests
//! and notifications to a pluggable [`Handler`], negotiates protocol versions,
//! builds response and error envelopes, and guards the whole pipeline behind
//! either a caller-supplied predicate ([`Server::handle`]) or OAuth
//! bearer-token validation ([`oauth_gate`] and [`oauth_finish`]).

mod bytes;
mod json;
mod parse;
mod rpc;
mod version;
mod dispatch;
mod http;
mod token;
mod auth;

pub use auth::{IssuerConfig, OAuthConfig, OAuthGate, Server, oauth_finish, oauth_gate,
    oauth_validated};
pub use dispatch::{CallToolParams, Context, Handler, ListToolsResult, ServerInfo, Tool,
    handle_notification, handle_request, wrap_provider_outcome};
pub use http::{HttpRequest, HttpResponse, json_response, raw_handle};
pub use json::{Json, json_to_bytes};
pub use parse::parse_json;
pub use rpc::{RpcError, RpcId, RpcMessage, RpcNotification, RpcOutcome, RpcRequest, classify};
pub use token::{Claims, KeySetCache, read_claims, store_fetched, validate_token};
pub use version::ProtocolVersion;
