//! The protocol dispatcher: routes parsed requests to a capability
//! provider and wraps every outcome in a response or error envelope that
//! carries the request's id unchanged.
//!
//! Four methods are recognized: `initialize` (with protocol-version
//! negotiation), `ping`, `tools/call` and `tools/list`. Every other method
//! is answered with a method-not-found error. Notifications never produce
//! a response; `notifications/initialized` is the one recognized case and
//! triggers nothing observable.

use vstd::prelude::*;
use vstd::string::StringSliceAdditionalSpecFns;

use crate::bytes::str_bytes;
use crate::bytes::bytes_is;
use crate::json::{Json, JsonVal, json_view, json_view_members, json_view_seq,
    lemma_json_view_members, lemma_json_view_seq};
use crate::rpc::{RpcError, RpcId, RpcOutcome, RpcOutcomeVal, RpcRequestVal, RpcRequest,
    RpcNotification, invalid_params_val, method_not_found_val, obj_lookup, outcome_id};
use crate::version::{ProtocolVersion, negotiate, negotiate_version};

verus! {

/// Request-scoped context handed to provider methods.
///
/// When the OAuth entry point is used, `subject` carries the `sub` claim of
/// the validated access token; otherwise it is absent.
#[derive(Debug, Clone, PartialEq, Eq, Default)]
pub struct Context {
    pub subject: Option<String>,
}

/// A tool the provider exposes: a name, a description and an input schema
/// the dispatcher treats opaquely.
#[derive(Debug, PartialEq, Eq)]
pub struct Tool {
    pub name: Vec<u8>,
    pub description: Vec<u8>,
    pub input_schema: Json,
}

/// Model of [`Tool`].
pub struct ToolVal {
    pub name: Seq<u8>,
    pub description: Seq<u8>,
    pub input_schema: JsonVal,
}

impl View for Tool {
    type V = ToolVal;

    open spec fn view(&self) -> ToolVal {
        ToolVal {
            name: self.name@,
            description: self.description@,
            input_schema: json_view(self.input_schema),
        }
    }
}

/// What `tools/list` returns: the tools and an optional pagination cursor.
#[derive(Debug, PartialEq, Eq)]
pub struct ListToolsResult {
    pub tools: Vec<Tool>,
    pub next_cursor: Option<Vec<u8>>,
}

/// Model of [`ListToolsResult`].
pub struct ListToolsVal {
    pub tools: Seq<ToolVal>,
    pub next_cursor: Option<Seq<u8>>,
}

impl View for ListToolsResult {
    type V = ListToolsVal;

    open spec fn view(&self) -> ListToolsVal {
        ListToolsVal {
            tools: self.tools@.map_values(|t: Tool| t@),
            next_cursor: match self.next_cursor {
                Some(c) => Some(c@),
                None => None,
            },
        }
    }
}

impl ListToolsResult {
    /// An empty tool list.
    pub fn empty() -> (r: ListToolsResult)
        ensures
            r@.tools.len() == 0,
            r@.next_cursor is None,
    {
        ListToolsResult { tools: Vec::new(), next_cursor: None }
    }
}

/// The arguments a `tools/call` request carries: the tool's name, and its
/// arguments object if one was given.
#[derive(Debug, PartialEq, Eq)]
pub struct CallToolParams {
    pub name: Vec<u8>,
    pub arguments: Option<Json>,
}

/// What the provider says about the server: negotiated protocol version,
/// enabled capability flags, implementation name and version, optional
/// instructions text.
#[derive(Debug, Clone, PartialEq, Eq)]
pub struct ServerInfo {
    pub protocol_version: ProtocolVersion,
    pub capabilities: Vec<Vec<u8>>,
    pub name: Vec<u8>,
    pub version: Vec<u8>,
    pub instructions: Option<Vec<u8>>,
}

/// Model of [`ServerInfo`].
pub struct ServerInfoVal {
    pub protocol_version: Seq<u8>,
    pub capabilities: Seq<Seq<u8>>,
    pub name: Seq<u8>,
    pub version: Seq<u8>,
    pub instructions: Option<Seq<u8>>,
}

impl View for ServerInfo {
    type V = ServerInfoVal;

    open spec fn view(&self) -> ServerInfoVal {
        ServerInfoVal {
            protocol_version: self.protocol_version@,
            capabilities: self.capabilities@.map_values(|c: Vec<u8>| c@),
            name: self.name@,
            version: self.version@,
            instructions: match self.instructions {
                Some(i) => Some(i@),
                None => None,
            },
        }
    }
}

impl Default for ServerInfo {
    /// A plain server description: current protocol version, no
    /// capabilities, this crate's name and version, no instructions.
    fn default() -> (r: ServerInfo)
        ensures
            r@.protocol_version == crate::version::current_version(),
            r@.capabilities.len() == 0,
            r@.instructions is None,
    {
        ServerInfo {
            protocol_version: ProtocolVersion::current(),
            capabilities: Vec::new(),
            name: str_bytes("ic_rmcp"),
            version: str_bytes("0.1.0"),
            instructions: None,
        }
    }
}

/// The capability provider: what this server says of itself, which tools
/// it exposes, and how a named tool is run.
///
/// Implement only what the server needs; each method has a default.
pub trait Handler {
    /// Answers a `tools/call` request. Default: the tool is unknown.
    fn call_tool(&self, context: Context, request: CallToolParams) -> Result<Json, RpcError> {
        let _ = context;
        let _ = request;
        Err(RpcError::method_not_found())
    }

    /// Answers a `tools/list` request. Default: no tools.
    fn list_tools(&self, context: Context, cursor: Option<Vec<u8>>) -> Result<
        ListToolsResult,
        RpcError,
    > {
        let _ = context;
        let _ = cursor;
        Ok(ListToolsResult::empty())
    }

    /// Describes the server and its capabilities. Default:
    /// [`ServerInfo::default`].
    fn get_info(&self, context: Context) -> ServerInfo {
        let _ = context;
        ServerInfo::default()
    }
}

/// Does the dispatcher recognize this method name?
pub open spec fn known_method(m: Seq<u8>) -> bool {
    ||| m == "initialize".spec_bytes()
    ||| m == "ping".spec_bytes()
    ||| m == "tools/call".spec_bytes()
    ||| m == "tools/list".spec_bytes()
}

/// The protocol version an `initialize` request asks for, when its params
/// carry one: an object with a string under `protocolVersion`.
pub open spec fn init_requested_version(params: Option<JsonVal>) -> Option<Seq<u8>> {
    match params {
        Some(JsonVal::Obj(ms)) => match obj_lookup(ms, "protocolVersion".spec_bytes()) {
            Some(JsonVal::Str(v)) => Some(v),
            _ => None,
        },
        _ => None,
    }
}

/// The shape `tools/call` params must have: an object with a string
/// `name`, and `arguments` absent, `null`, or an object.
pub open spec fn call_tool_shape(params: Option<JsonVal>) -> Option<(Seq<u8>, Option<JsonVal>)> {
    match params {
        Some(JsonVal::Obj(ms)) => match obj_lookup(ms, "name".spec_bytes()) {
            Some(JsonVal::Str(n)) => match obj_lookup(ms, "arguments".spec_bytes()) {
                None => Some((n, None)),
                Some(JsonVal::Null) => Some((n, None)),
                Some(JsonVal::Obj(args)) => Some((n, Some(JsonVal::Obj(args)))),
                Some(_) => None,
            },
            _ => None,
        },
        _ => None,
    }
}

/// The cursor a `tools/list` request hands on: params absent or `null`
/// mean no cursor; an object may carry a string `cursor`.
pub open spec fn list_cursor_shape(params: Option<JsonVal>) -> Option<Option<Seq<u8>>> {
    match params {
        None => Some(None),
        Some(JsonVal::Null) => Some(None),
        Some(JsonVal::Obj(ms)) => match obj_lookup(ms, "cursor".spec_bytes()) {
            None => Some(None),
            Some(JsonVal::Null) => Some(None),
            Some(JsonVal::Str(c)) => Some(Some(c)),
            Some(_) => None,
        },
        Some(_) => None,
    }
}

/// The `capabilities` object: one empty object per enabled flag.
pub open spec fn caps_members(flags: Seq<Seq<u8>>) -> Seq<(Seq<u8>, JsonVal)> {
    flags.map_values(|f: Seq<u8>| (f, JsonVal::Obj(Seq::empty())))
}

/// The JSON an `initialize` result is written as. The provider's own
/// `protocol_version` field is overwritten by the negotiated tag.
pub open spec fn server_info_json(info: ServerInfoVal, negotiated: Seq<u8>) -> JsonVal {
    let base = seq![
        ("protocolVersion".spec_bytes(), JsonVal::Str(negotiated)),
        ("capabilities".spec_bytes(), JsonVal::Obj(caps_members(info.capabilities))),
        (
            "serverInfo".spec_bytes(),
            JsonVal::Obj(
                seq![
                    ("name".spec_bytes(), JsonVal::Str(info.name)),
                    ("version".spec_bytes(), JsonVal::Str(info.version)),
                ],
            ),
        ),
    ];
    match info.instructions {
        None => JsonVal::Obj(base),
        Some(ins) => JsonVal::Obj(base.push(("instructions".spec_bytes(), JsonVal::Str(ins)))),
    }
}

/// The JSON one tool descriptor is written as.
pub open spec fn tool_json(t: ToolVal) -> JsonVal {
    JsonVal::Obj(
        seq![
            ("name".spec_bytes(), JsonVal::Str(t.name)),
            ("description".spec_bytes(), JsonVal::Str(t.description)),
            ("inputSchema".spec_bytes(), t.input_schema),
        ],
    )
}

/// The JSON a `tools/list` result is written as.
pub open spec fn list_tools_json(l: ListToolsVal) -> JsonVal {
    let base = seq![("tools".spec_bytes(), JsonVal::Arr(l.tools.map_values(|t: ToolVal| tool_json(t))))];
    match l.next_cursor {
        None => JsonVal::Obj(base),
        Some(c) => JsonVal::Obj(base.push(("nextCursor".spec_bytes(), JsonVal::Str(c)))),
    }
}

#[verifier::loop_isolation(false)]
fn make_caps_json(flags: &Vec<Vec<u8>>) -> (r: Json)
    ensures
        r@ == JsonVal::Obj(caps_members(flags@.map_values(|c: Vec<u8>| c@))),
{
    let mut members: Vec<(Vec<u8>, Json)> = Vec::new();
    let mut k: usize = 0;
    while k < flags.len()
        invariant
            k <= flags@.len(),
            members@.len() == k,
            forall|i: int| 0 <= i < k ==> members@[i].0@ == flags@[i]@ && json_view(members@[i].1)
                == JsonVal::Obj(Seq::empty()),
        decreases flags@.len() - k,
    {
        members.push((flags[k].clone(), Json::Obj(Vec::new())));
        k = k + 1;
    }
    let r = Json::Obj(members);
    proof {
        lemma_json_view_members(members@);
        assert(json_view_members(members@) =~= caps_members(
            flags@.map_values(|c: Vec<u8>| c@),
        ));
    }
    r
}

/// Builds the `initialize` result document.
fn make_server_info_json(info: &ServerInfo, negotiated: &ProtocolVersion) -> (r: Json)
    ensures
        r@ == server_info_json(info@, negotiated@),
{
    let mut members: Vec<(Vec<u8>, Json)> = Vec::new();
    members.push((str_bytes("protocolVersion"), Json::Str(negotiated.tag.clone())));
    members.push((str_bytes("capabilities"), make_caps_json(&info.capabilities)));
    let mut impl_members: Vec<(Vec<u8>, Json)> = Vec::new();
    impl_members.push((str_bytes("name"), Json::Str(info.name.clone())));
    impl_members.push((str_bytes("version"), Json::Str(info.version.clone())));
    proof {
        lemma_json_view_members(impl_members@);
    }
    members.push((str_bytes("serverInfo"), Json::Obj(impl_members)));
    match &info.instructions {
        None => {},
        Some(ins) => {
            members.push((str_bytes("instructions"), Json::Str(ins.clone())));
        },
    }
    let r = Json::Obj(members);
    proof {
        lemma_json_view_members(r->Obj_0@);
        assert(json_view_members(r->Obj_0@)[2].1->Obj_0 =~= server_info_json(
            info@,
            negotiated@,
        )->Obj_0[2].1->Obj_0);
        assert(json_view_members(r->Obj_0@) =~= server_info_json(info@, negotiated@)->Obj_0);
    }
    r
}

/// Builds the `tools/list` result document.
#[verifier::loop_isolation(false)]
fn make_list_tools_json(l: &ListToolsResult) -> (r: Json)
    ensures
        r@ == list_tools_json(l@),
{
    let mut items: Vec<Json> = Vec::new();
    let mut k: usize = 0;
    while k < l.tools.len()
        invariant
            k <= l.tools@.len(),
            items@.len() == k,
            forall|i: int| 0 <= i < k ==> json_view(items@[i]) == tool_json(l.tools@[i]@),
        decreases l.tools@.len() - k,
    {
        let t = &l.tools[k];
        let mut tm: Vec<(Vec<u8>, Json)> = Vec::new();
        tm.push((str_bytes("name"), Json::Str(t.name.clone())));
        tm.push((str_bytes("description"), Json::Str(t.description.clone())));
        tm.push((str_bytes("inputSchema"), t.input_schema.duplicate()));
        let tj = Json::Obj(tm);
        proof {
            lemma_json_view_members(tj->Obj_0@);
            assert(json_view_members(tj->Obj_0@) =~= tool_json(l.tools@[k as int]@)->Obj_0);
        }
        items.push(tj);
        k = k + 1;
    }
    let mut members: Vec<(Vec<u8>, Json)> = Vec::new();
    proof {
        lemma_json_view_seq(items@);
        assert(json_view_seq(items@) =~= l@.tools.map_values(|t: ToolVal| tool_json(t)));
    }
    members.push((str_bytes("tools"), Json::Arr(items)));
    match &l.next_cursor {
        None => {},
        Some(c) => {
            members.push((str_bytes("nextCursor"), Json::Str(c.clone())));
        },
    }
    let r = Json::Obj(members);
    proof {
        lemma_json_view_members(r->Obj_0@);
        assert(json_view_members(r->Obj_0@) =~= list_tools_json(l@)->Obj_0);
    }
    r
}

pub(crate) fn clone_subject(s: &Option<String>) -> (r: Option<String>)
    ensures
        r == *s,
{
    match s {
        Some(x) => Some(x.clone()),
        None => None,
    }
}

/// Wraps what the provider returned: its result as a success outcome, its
/// error as a failure outcome, unchanged, both under the request's id.
pub fn wrap_provider_outcome(id: RpcId, outcome: Result<Json, RpcError>) -> (r: RpcOutcome)
    ensures
        (match outcome {
            Ok(result) => r@ == (RpcOutcomeVal::Response { id: id@, result: result@ }),
            Err(error) => r@ == (RpcOutcomeVal::Failure { id: id@, error: error@ }),
        }),
{
    match outcome {
        Ok(result) => RpcOutcome::Response { id, result },
        Err(error) => RpcOutcome::Failure { id, error },
    }
}

/// Everything the dispatcher promises of the outcome for one request:
/// the request's id is kept; `ping` succeeds with an empty object; an
/// unrecognized method fails with the method-not-found error; a
/// well-shaped `initialize` succeeds with a server-information document
/// under the negotiated protocol version; a well-shaped `tools/list`
/// succeeds only with a tool-list document; and ill-shaped params for
/// any recognized method fail with the invalid-params error.
pub open spec fn outcome_post(q: RpcRequestVal, out: RpcOutcomeVal) -> bool {
    &&& outcome_id(out) == q.id
    &&& (q.method == "ping".spec_bytes() ==> out == (RpcOutcomeVal::Response {
        id: q.id,
        result: JsonVal::Obj(Seq::empty()),
    }))
    &&& (!known_method(q.method) ==> out == (RpcOutcomeVal::Failure {
        id: q.id,
        error: method_not_found_val(),
    }))
    &&& (q.method == "initialize".spec_bytes() ==> (match init_requested_version(q.params) {
        Some(v) => (match out {
            RpcOutcomeVal::Response { id, result } => exists|info: ServerInfoVal|
                result == #[trigger] server_info_json(info, negotiate(v)),
            _ => false,
        }),
        None => out == (RpcOutcomeVal::Failure { id: q.id, error: invalid_params_val() }),
    }))
    &&& (q.method == "tools/call".spec_bytes() && call_tool_shape(q.params) is None ==> out == (
        RpcOutcomeVal::Failure { id: q.id, error: invalid_params_val() }
    ))
    &&& (q.method == "tools/list".spec_bytes() && list_cursor_shape(q.params) is None ==> out == (
        RpcOutcomeVal::Failure { id: q.id, error: invalid_params_val() }
    ))
    &&& (q.method == "tools/list".spec_bytes() && list_cursor_shape(q.params) is Some ==> (
    match out {
        RpcOutcomeVal::Response { id, result } => exists|l: ListToolsVal|
            result == #[trigger] list_tools_json(l),
        RpcOutcomeVal::Failure { .. } => true,
    }))
}

/// Routes one parsed request and wraps the outcome, copying the request's
/// id unchanged.
///
/// For every request the outcome answers under the request's own id.
/// `ping` always succeeds with an empty object. A method outside the
/// recognized four is answered with the method-not-found error. An
/// `initialize` with well-shaped params succeeds with the
/// server-information document under the negotiated protocol version;
/// with ill-shaped params it fails with the invalid-params error, as do
/// `tools/call` and `tools/list`.
pub fn handle_request<H: Handler>(h: &H, subject: Option<String>, req: RpcRequest) -> (r:
    RpcOutcome)
    ensures
        outcome_post(req@, r@),
{
    proof {
        crate::bytes::lemma_method_names_distinct();
    }
    let RpcRequest { id, method, params } = req;
    if bytes_is(&method, "initialize") {
        let info = h.get_info(Context { subject });
        let requested: Option<Vec<u8>> = match &params {
            Some(Json::Obj(ms)) => match crate::rpc::obj_find(ms, "protocolVersion") {
                Some(Json::Str(v)) => Some(v.clone()),
                _ => None,
            },
            _ => None,
        };
        match requested {
            Some(v) => {
                let negotiated = negotiate_version(&v);
                let result = make_server_info_json(&info, &negotiated);
                RpcOutcome::Response { id, result }
            },
            None => RpcOutcome::Failure { id, error: RpcError::invalid_params() },
        }
    } else if bytes_is(&method, "ping") {
        RpcOutcome::Response { id, result: Json::Obj(Vec::new()) }
    } else if bytes_is(&method, "tools/call") {
        let shaped: Option<CallToolParams> = match &params {
            Some(Json::Obj(ms)) => match crate::rpc::obj_find(ms, "name") {
                Some(Json::Str(n)) => match crate::rpc::obj_find(ms, "arguments") {
                    None => Some(CallToolParams { name: n.clone(), arguments: None }),
                    Some(Json::Null) => Some(CallToolParams { name: n.clone(), arguments: None }),
                    Some(a) => match a {
                        Json::Obj(_) => Some(
                            CallToolParams { name: n.clone(), arguments: Some(a.duplicate()) },
                        ),
                        _ => None,
                    },
                },
                _ => None,
            },
            _ => None,
        };
        match shaped {
            Some(p) => wrap_provider_outcome(id, h.call_tool(Context { subject }, p)),
            None => RpcOutcome::Failure { id, error: RpcError::invalid_params() },
        }
    } else if bytes_is(&method, "tools/list") {
        let shaped: Option<Option<Vec<u8>>> = match &params {
            None => Some(None),
            Some(Json::Null) => Some(None),
            Some(Json::Obj(ms)) => match crate::rpc::obj_find(ms, "cursor") {
                None => Some(None),
                Some(Json::Null) => Some(None),
                Some(Json::Str(c)) => Some(Some(c.clone())),
                Some(_) => None,
            },
            Some(_) => None,
        };
        match shaped {
            Some(cursor) => match h.list_tools(Context { subject }, cursor) {
                Ok(list) => wrap_provider_outcome(id, Ok(make_list_tools_json(&list))),
                Err(error) => wrap_provider_outcome(id, Err(error)),
            },
            None => RpcOutcome::Failure { id, error: RpcError::invalid_params() },
        }
    } else {
        RpcOutcome::Failure { id, error: RpcError::method_not_found() }
    }
}

/// Takes one parsed notification. Notifications never produce a response;
/// `notifications/initialized` is recognized and triggers nothing, every
/// other one is ignored, as JSON-RPC asks.
pub fn handle_notification<H: Handler>(h: &H, n: RpcNotification) {
    let _ = h;
    if bytes_is(&n.method, "notifications/initialized") {
        // hook point: nothing observable happens here
    }
}

} // verus!
