//! JSON-RPC 2.0 messages: classification of parsed JSON values into
//! requests, notifications and invalid shapes, and construction of
//! response and error envelopes.
//!
//! A single response envelope is written `jsonrpc`, `id`, `result` (or
//! `jsonrpc`, `id`, `error`); an envelope inside a batch response array is
//! written with its keys in alphabetical order.

use vstd::prelude::*;
use vstd::string::StringSliceAdditionalSpecFns;

use crate::bytes::{bytes_is, dec_i, dec_i64, str_bytes};
use crate::json::{Json, JsonVal, json_view, json_view_members, json_view_seq,
    lemma_json_view_members, lemma_json_view_seq};

verus! {

/// Error code for a body that is not valid JSON.
pub const CODE_PARSE_ERROR: i64 = -32700;

/// Error code for a message of invalid shape.
pub const CODE_INVALID_REQUEST: i64 = -32600;

/// Error code for an unrecognized method.
pub const CODE_METHOD_NOT_FOUND: i64 = -32601;

/// Error code for parameters a method cannot work with.
pub const CODE_INVALID_PARAMS: i64 = -32602;

/// Error code for an internal failure.
pub const CODE_INTERNAL_ERROR: i64 = -32603;

/// Model of a request or response id: a JSON number (kept as its literal
/// bytes) or a JSON string.
pub enum RpcIdVal {
    Num(Seq<u8>),
    Str(Seq<u8>),
}

/// A request or response id.
#[derive(Debug, Clone, PartialEq, Eq)]
pub enum RpcId {
    Num(Vec<u8>),
    Str(Vec<u8>),
}

impl View for RpcId {
    type V = RpcIdVal;

    open spec fn view(&self) -> RpcIdVal {
        match self {
            RpcId::Num(n) => RpcIdVal::Num(n@),
            RpcId::Str(s) => RpcIdVal::Str(s@),
        }
    }
}

/// Model of a JSON-RPC error.
pub struct RpcErrorVal {
    pub code: int,
    pub message: Seq<u8>,
    pub data: Option<JsonVal>,
}

/// A JSON-RPC error: a fixed code, a short message, optional data.
#[derive(Debug, PartialEq, Eq)]
pub struct RpcError {
    pub code: i64,
    pub message: Vec<u8>,
    pub data: Option<Json>,
}

impl View for RpcError {
    type V = RpcErrorVal;

    open spec fn view(&self) -> RpcErrorVal {
        RpcErrorVal {
            code: self.code as int,
            message: self.message@,
            data: match self.data {
                Some(d) => Some(json_view(d)),
                None => None,
            },
        }
    }
}

impl RpcError {
    /// The error a request with an unrecognized method receives.
    pub fn method_not_found() -> (r: RpcError)
        ensures
            r@ == method_not_found_val(),
    {
        RpcError { code: CODE_METHOD_NOT_FOUND, message: str_bytes("Method not found"), data: None }
    }

    /// The error a request with unusable parameters receives.
    pub fn invalid_params() -> (r: RpcError)
        ensures
            r@ == invalid_params_val(),
    {
        RpcError { code: CODE_INVALID_PARAMS, message: str_bytes("Invalid params"), data: None }
    }
}

/// The error value for an unrecognized method.
pub open spec fn method_not_found_val() -> RpcErrorVal {
    RpcErrorVal {
        code: CODE_METHOD_NOT_FOUND as int,
        message: "Method not found".spec_bytes(),
        data: None,
    }
}

/// The error value for unusable parameters.
pub open spec fn invalid_params_val() -> RpcErrorVal {
    RpcErrorVal {
        code: CODE_INVALID_PARAMS as int,
        message: "Invalid params".spec_bytes(),
        data: None,
    }
}

/// Model of a parsed request.
pub struct RpcRequestVal {
    pub id: RpcIdVal,
    pub method: Seq<u8>,
    pub params: Option<JsonVal>,
}

/// A parsed request: a message with an `id`, a `method` and optional
/// `params`.
#[derive(Debug, PartialEq, Eq)]
pub struct RpcRequest {
    pub id: RpcId,
    pub method: Vec<u8>,
    pub params: Option<Json>,
}

impl View for RpcRequest {
    type V = RpcRequestVal;

    open spec fn view(&self) -> RpcRequestVal {
        RpcRequestVal { id: self.id@, method: self.method@, params: opt_json_view(self.params) }
    }
}

/// Model of a parsed notification.
pub struct RpcNotificationVal {
    pub method: Seq<u8>,
    pub params: Option<JsonVal>,
}

/// A parsed notification: a message without an `id`.
#[derive(Debug, PartialEq, Eq)]
pub struct RpcNotification {
    pub method: Vec<u8>,
    pub params: Option<Json>,
}

impl View for RpcNotification {
    type V = RpcNotificationVal;

    open spec fn view(&self) -> RpcNotificationVal {
        RpcNotificationVal { method: self.method@, params: opt_json_view(self.params) }
    }
}

/// Model of a classified message.
pub enum RpcMessageVal {
    Request(RpcRequestVal),
    Notification(RpcNotificationVal),
    Invalid,
}

/// What a top-level JSON object turned out to be.
#[derive(Debug, PartialEq, Eq)]
pub enum RpcMessage {
    Request(RpcRequest),
    Notification(RpcNotification),
    Invalid,
}

impl View for RpcMessage {
    type V = RpcMessageVal;

    open spec fn view(&self) -> RpcMessageVal {
        match self {
            RpcMessage::Request(r) => RpcMessageVal::Request(r@),
            RpcMessage::Notification(n) => RpcMessageVal::Notification(n@),
            RpcMessage::Invalid => RpcMessageVal::Invalid,
        }
    }
}

pub open spec fn opt_json_view(p: Option<Json>) -> Option<JsonVal> {
    match p {
        Some(j) => Some(json_view(j)),
        None => None,
    }
}

/// The value under `key`, reading later duplicates over earlier ones.
pub open spec fn obj_lookup(ms: Seq<(Seq<u8>, JsonVal)>, key: Seq<u8>) -> Option<JsonVal>
    decreases ms.len(),
{
    if ms.len() == 0 {
        None
    } else if ms.last().0 == key {
        Some(ms.last().1)
    } else {
        obj_lookup(ms.drop_last(), key)
    }
}

/// A deep copy, with the same model.
impl Json {
    #[verifier::loop_isolation(false)]
    pub fn duplicate(&self) -> (r: Json)
        ensures
            r@ == self@,
        decreases self,
    {
        match self {
            Json::Null => Json::Null,
            Json::Bool(b) => Json::Bool(*b),
            Json::Num(n) => Json::Num(n.clone()),
            Json::Str(s) => Json::Str(s.clone()),
            Json::Arr(items) => {
                let mut out: Vec<Json> = Vec::new();
                let mut k: usize = 0;
                while k < items.len()
                    invariant
                        k <= items@.len(),
                        out@.len() == k,
                        forall|i: int| 0 <= i < k ==> json_view(out@[i]) == json_view(items@[i]),
                    decreases items@.len() - k,
                {
                    out.push(items[k].duplicate());
                    k = k + 1;
                }
                proof {
                    lemma_json_view_seq(out@);
                    lemma_json_view_seq(items@);
                    assert(json_view_seq(out@) =~= json_view_seq(items@));
                }
                Json::Arr(out)
            },
            Json::Obj(members) => {
                let mut out: Vec<(Vec<u8>, Json)> = Vec::new();
                let mut k: usize = 0;
                while k < members.len()
                    invariant
                        k <= members@.len(),
                        out@.len() == k,
                        forall|i: int| 0 <= i < k ==> out@[i].0@ == members@[i].0@ && json_view(
                            out@[i].1,
                        ) == json_view(members@[i].1),
                    decreases members@.len() - k,
                {
                    out.push((members[k].0.clone(), members[k].1.duplicate()));
                    k = k + 1;
                }
                proof {
                    lemma_json_view_members(out@);
                    lemma_json_view_members(members@);
                    assert(json_view_members(out@) =~= json_view_members(members@));
                }
                Json::Obj(out)
            },
        }
    }
}

/// Finds the value under `key`, reading later duplicates over earlier ones.
#[verifier::loop_isolation(false)]
pub fn obj_find<'a>(members: &'a Vec<(Vec<u8>, Json)>, key: &str) -> (r: Option<&'a Json>)
    ensures
        match r {
            Some(v) => obj_lookup(json_view_members(members@), key.spec_bytes()) == Some(
                json_view(*v),
            ),
            None => obj_lookup(json_view_members(members@), key.spec_bytes()) is None,
        },
{
    proof {
        lemma_json_view_members(members@);
    }
    let ghost ms = json_view_members(members@);
    let mut i: usize = members.len();
    proof {
        assert(ms.take(members@.len() as int) =~= ms);
    }
    while i > 0
        invariant
            i <= members@.len(),
            obj_lookup(ms, key.spec_bytes()) == obj_lookup(ms.take(i as int), key.spec_bytes()),
        decreases i,
    {
        i = i - 1;
        if bytes_is(&members[i].0, key) {
            proof {
                assert(ms.take(i as int + 1).last() == ms[i as int]);
            }
            return Some(&members[i].1);
        }
        proof {
            assert(ms.take(i as int + 1).last() == ms[i as int]);
            assert(ms.take(i as int + 1).drop_last() =~= ms.take(i as int));
        }
    }
    proof {
        assert(ms.take(0) =~= Seq::<(Seq<u8>, JsonVal)>::empty());
    }
    None
}

/// What a top-level object is: a request when `jsonrpc` is `"2.0"`, the
/// `method` is a string, and `id` is a number or a string; a notification
/// when `id` is absent; invalid otherwise.
pub open spec fn classify_obj(ms: Seq<(Seq<u8>, JsonVal)>) -> RpcMessageVal {
    if obj_lookup(ms, "jsonrpc".spec_bytes()) != Some(JsonVal::Str("2.0".spec_bytes())) {
        RpcMessageVal::Invalid
    } else {
        match obj_lookup(ms, "method".spec_bytes()) {
            Some(JsonVal::Str(m)) => {
                let params = obj_lookup(ms, "params".spec_bytes());
                match obj_lookup(ms, "id".spec_bytes()) {
                    None => RpcMessageVal::Notification(
                        RpcNotificationVal { method: m, params },
                    ),
                    Some(JsonVal::Num(n)) => RpcMessageVal::Request(
                        RpcRequestVal { id: RpcIdVal::Num(n), method: m, params },
                    ),
                    Some(JsonVal::Str(t)) => RpcMessageVal::Request(
                        RpcRequestVal { id: RpcIdVal::Str(t), method: m, params },
                    ),
                    Some(_) => RpcMessageVal::Invalid,
                }
            },
            _ => RpcMessageVal::Invalid,
        }
    }
}

/// What a parsed body value is as a message, if it is an object.
pub open spec fn classify_val(v: JsonVal) -> RpcMessageVal {
    match v {
        JsonVal::Obj(ms) => classify_obj(ms),
        _ => RpcMessageVal::Invalid,
    }
}

/// Classifies one parsed JSON value as a message.
pub fn classify(j: &Json) -> (r: RpcMessage)
    ensures
        r@ == classify_val(j@),
{
    match j {
        Json::Obj(members) => {
            let version_ok = match obj_find(members, "jsonrpc") {
                Some(Json::Str(v)) => bytes_is(v, "2.0"),
                _ => false,
            };
            if !version_ok {
                return RpcMessage::Invalid;
            }
            let method: Vec<u8> = match obj_find(members, "method") {
                Some(Json::Str(m)) => m.clone(),
                _ => {
                    return RpcMessage::Invalid;
                },
            };
            let params: Option<Json> = match obj_find(members, "params") {
                Some(p) => Some(p.duplicate()),
                None => None,
            };
            match obj_find(members, "id") {
                None => RpcMessage::Notification(RpcNotification { method, params }),
                Some(Json::Num(n)) => RpcMessage::Request(
                    RpcRequest { id: RpcId::Num(n.clone()), method, params },
                ),
                Some(Json::Str(t)) => RpcMessage::Request(
                    RpcRequest { id: RpcId::Str(t.clone()), method, params },
                ),
                Some(_) => RpcMessage::Invalid,
            }
        },
        _ => RpcMessage::Invalid,
    }
}

/// The outcome a request dispatch produces: a result or an error, always
/// carrying the request's id.
#[derive(Debug, PartialEq, Eq)]
pub enum RpcOutcome {
    Response { id: RpcId, result: Json },
    Failure { id: RpcId, error: RpcError },
}

/// Model of [`RpcOutcome`].
pub enum RpcOutcomeVal {
    Response { id: RpcIdVal, result: JsonVal },
    Failure { id: RpcIdVal, error: RpcErrorVal },
}

impl View for RpcOutcome {
    type V = RpcOutcomeVal;

    open spec fn view(&self) -> RpcOutcomeVal {
        match self {
            RpcOutcome::Response { id, result } => RpcOutcomeVal::Response {
                id: id@,
                result: json_view(*result),
            },
            RpcOutcome::Failure { id, error } => RpcOutcomeVal::Failure {
                id: id@,
                error: error@,
            },
        }
    }
}

/// The id an outcome answers under.
pub open spec fn outcome_id(out: RpcOutcomeVal) -> RpcIdVal {
    match out {
        RpcOutcomeVal::Response { id, .. } => id,
        RpcOutcomeVal::Failure { id, .. } => id,
    }
}

/// The id as a JSON value.
pub open spec fn id_json(id: RpcIdVal) -> JsonVal {
    match id {
        RpcIdVal::Num(n) => JsonVal::Num(n),
        RpcIdVal::Str(s) => JsonVal::Str(s),
    }
}

fn make_id_json(id: &RpcId) -> (r: Json)
    ensures
        r@ == id_json(id@),
{
    match id {
        RpcId::Num(n) => Json::Num(n.clone()),
        RpcId::Str(s) => Json::Str(s.clone()),
    }
}

/// The error object with members `code`, `message` and, when present,
/// `data`: the order used inside a single response.
pub open spec fn error_obj(e: RpcErrorVal) -> JsonVal {
    match e.data {
        None => JsonVal::Obj(
            seq![
                ("code".spec_bytes(), JsonVal::Num(dec_i(e.code))),
                ("message".spec_bytes(), JsonVal::Str(e.message)),
            ],
        ),
        Some(d) => JsonVal::Obj(
            seq![
                ("code".spec_bytes(), JsonVal::Num(dec_i(e.code))),
                ("message".spec_bytes(), JsonVal::Str(e.message)),
                ("data".spec_bytes(), d),
            ],
        ),
    }
}

/// The error object with its members in alphabetical order: `code`,
/// `data` when present, `message`. Used inside batch response arrays.
pub open spec fn error_obj_sorted(e: RpcErrorVal) -> JsonVal {
    match e.data {
        None => JsonVal::Obj(
            seq![
                ("code".spec_bytes(), JsonVal::Num(dec_i(e.code))),
                ("message".spec_bytes(), JsonVal::Str(e.message)),
            ],
        ),
        Some(d) => JsonVal::Obj(
            seq![
                ("code".spec_bytes(), JsonVal::Num(dec_i(e.code))),
                ("data".spec_bytes(), d),
                ("message".spec_bytes(), JsonVal::Str(e.message)),
            ],
        ),
    }
}

/// A single success envelope: `jsonrpc`, `id`, `result`.
pub open spec fn response_json(id: RpcIdVal, result: JsonVal) -> JsonVal {
    JsonVal::Obj(
        seq![
            ("jsonrpc".spec_bytes(), JsonVal::Str("2.0".spec_bytes())),
            ("id".spec_bytes(), id_json(id)),
            ("result".spec_bytes(), result),
        ],
    )
}

/// A single error envelope: `jsonrpc`, `id`, `error`.
pub open spec fn error_json(id: RpcIdVal, e: RpcErrorVal) -> JsonVal {
    JsonVal::Obj(
        seq![
            ("jsonrpc".spec_bytes(), JsonVal::Str("2.0".spec_bytes())),
            ("id".spec_bytes(), id_json(id)),
            ("error".spec_bytes(), error_obj(e)),
        ],
    )
}

/// The JSON a dispatch outcome is written as when it stands alone.
pub open spec fn outcome_json(out: RpcOutcomeVal) -> JsonVal {
    match out {
        RpcOutcomeVal::Response { id, result } => response_json(id, result),
        RpcOutcomeVal::Failure { id, error } => error_json(id, error),
    }
}

/// A success envelope inside a batch array: `id`, `jsonrpc`, `result`.
pub open spec fn response_json_sorted(id: RpcIdVal, result: JsonVal) -> JsonVal {
    JsonVal::Obj(
        seq![
            ("id".spec_bytes(), id_json(id)),
            ("jsonrpc".spec_bytes(), JsonVal::Str("2.0".spec_bytes())),
            ("result".spec_bytes(), result),
        ],
    )
}

/// An error envelope inside a batch array: `error`, `id`, `jsonrpc`.
pub open spec fn error_json_sorted(id: RpcIdVal, e: RpcErrorVal) -> JsonVal {
    JsonVal::Obj(
        seq![
            ("error".spec_bytes(), error_obj_sorted(e)),
            ("id".spec_bytes(), id_json(id)),
            ("jsonrpc".spec_bytes(), JsonVal::Str("2.0".spec_bytes())),
        ],
    )
}

/// The JSON a dispatch outcome is written as inside a batch array.
pub open spec fn outcome_json_sorted(out: RpcOutcomeVal) -> JsonVal {
    match out {
        RpcOutcomeVal::Response { id, result } => response_json_sorted(id, result),
        RpcOutcomeVal::Failure { id, error } => error_json_sorted(id, error),
    }
}

/// The in-place envelope a batch item of invalid shape is answered with:
/// `error`, `id` (null), `jsonrpc`, members sorted.
pub open spec fn invalid_item_json() -> JsonVal {
    JsonVal::Obj(
        seq![
            (
                "error".spec_bytes(),
                JsonVal::Obj(
                    seq![
                        ("code".spec_bytes(), JsonVal::Num(dec_i(CODE_INVALID_REQUEST as int))),
                        ("message".spec_bytes(), JsonVal::Str("Invalid Request".spec_bytes())),
                    ],
                ),
            ),
            ("id".spec_bytes(), JsonVal::Null),
            ("jsonrpc".spec_bytes(), JsonVal::Str("2.0".spec_bytes())),
        ],
    )
}

fn make_error_obj(e: &RpcError, sorted: bool) -> (r: Json)
    ensures
        sorted ==> r@ == error_obj_sorted(e@),
        !sorted ==> r@ == error_obj(e@),
{
    let mut members: Vec<(Vec<u8>, Json)> = Vec::new();
    members.push((str_bytes("code"), Json::Num(dec_i64(e.code))));
    match &e.data {
        None => {
            members.push((str_bytes("message"), Json::Str(e.message.clone())));
        },
        Some(d) => {
            if sorted {
                members.push((str_bytes("data"), d.duplicate()));
                members.push((str_bytes("message"), Json::Str(e.message.clone())));
            } else {
                members.push((str_bytes("message"), Json::Str(e.message.clone())));
                members.push((str_bytes("data"), d.duplicate()));
            }
        },
    }
    let r = Json::Obj(members);
    proof {
        lemma_json_view_members(r->Obj_0@);
        if sorted {
            assert(json_view_members(r->Obj_0@) =~= error_obj_sorted(e@)->Obj_0);
        } else {
            assert(json_view_members(r->Obj_0@) =~= error_obj(e@)->Obj_0);
        }
    }
    r
}

/// The envelope for an outcome standing alone, as a JSON value.
pub fn make_outcome_json(out: &RpcOutcome) -> (r: Json)
    ensures
        r@ == outcome_json(out@),
{
    let mut members: Vec<(Vec<u8>, Json)> = Vec::new();
    members.push((str_bytes("jsonrpc"), Json::Str(str_bytes("2.0"))));
    match out {
        RpcOutcome::Response { id, result } => {
            members.push((str_bytes("id"), make_id_json(id)));
            members.push((str_bytes("result"), result.duplicate()));
        },
        RpcOutcome::Failure { id, error } => {
            members.push((str_bytes("id"), make_id_json(id)));
            members.push((str_bytes("error"), make_error_obj(error, false)));
        },
    }
    let r = Json::Obj(members);
    proof {
        lemma_json_view_members(r->Obj_0@);
        assert(json_view_members(r->Obj_0@) =~= outcome_json(out@)->Obj_0);
    }
    r
}

/// The envelope for an outcome inside a batch array, as a JSON value.
pub fn make_outcome_json_sorted(out: &RpcOutcome) -> (r: Json)
    ensures
        r@ == outcome_json_sorted(out@),
{
    let mut members: Vec<(Vec<u8>, Json)> = Vec::new();
    match out {
        RpcOutcome::Response { id, result } => {
            members.push((str_bytes("id"), make_id_json(id)));
            members.push((str_bytes("jsonrpc"), Json::Str(str_bytes("2.0"))));
            members.push((str_bytes("result"), result.duplicate()));
        },
        RpcOutcome::Failure { id, error } => {
            members.push((str_bytes("error"), make_error_obj(error, true)));
            members.push((str_bytes("id"), make_id_json(id)));
            members.push((str_bytes("jsonrpc"), Json::Str(str_bytes("2.0"))));
        },
    }
    let r = Json::Obj(members);
    proof {
        lemma_json_view_members(r->Obj_0@);
        assert(json_view_members(r->Obj_0@) =~= outcome_json_sorted(out@)->Obj_0);
    }
    r
}

/// The in-place envelope for a batch item of invalid shape.
pub fn make_invalid_item_json() -> (r: Json)
    ensures
        r@ == invalid_item_json(),
{
    let mut inner: Vec<(Vec<u8>, Json)> = Vec::new();
    inner.push((str_bytes("code"), Json::Num(dec_i64(CODE_INVALID_REQUEST))));
    inner.push((str_bytes("message"), Json::Str(str_bytes("Invalid Request"))));
    let error = Json::Obj(inner);
    let mut members: Vec<(Vec<u8>, Json)> = Vec::new();
    members.push((str_bytes("error"), error));
    members.push((str_bytes("id"), Json::Null));
    members.push((str_bytes("jsonrpc"), Json::Str(str_bytes("2.0"))));
    let r = Json::Obj(members);
    proof {
        lemma_json_view_members(r->Obj_0@);
        lemma_json_view_members(r->Obj_0@[0].1->Obj_0@);
        assert(json_view_members(r->Obj_0@[0].1->Obj_0@) =~= invalid_item_json()->Obj_0[0].1->Obj_0);
        assert(json_view_members(r->Obj_0@) =~= invalid_item_json()->Obj_0);
    }
    r
}

/// Every outgoing envelope carries the fixed version marker `"2.0"`
/// under `jsonrpc` and the id of the request it answers under `id`,
/// whether it stands alone or inside a batch array.
pub proof fn lemma_envelope_version_and_id(out: RpcOutcomeVal)
    ensures
        (match outcome_json(out) {
            JsonVal::Obj(ms) => obj_lookup(ms, "jsonrpc".spec_bytes()) == Some(
                JsonVal::Str("2.0".spec_bytes()),
            ) && obj_lookup(ms, "id".spec_bytes()) == Some(id_json(outcome_id(out))),
            _ => false,
        }),
        (match outcome_json_sorted(out) {
            JsonVal::Obj(ms) => obj_lookup(ms, "jsonrpc".spec_bytes()) == Some(
                JsonVal::Str("2.0".spec_bytes()),
            ) && obj_lookup(ms, "id".spec_bytes()) == Some(id_json(outcome_id(out))),
            _ => false,
        }),
{
    crate::bytes::lemma_envelope_keys_distinct();
    lemma_three_member_lookup(outcome_json(out)->Obj_0);
    lemma_three_member_lookup(outcome_json_sorted(out)->Obj_0);
    match out {
        RpcOutcomeVal::Response { id, result } => {
            assert(outcome_json(out) == response_json(id, result));
            assert(outcome_json_sorted(out) == response_json_sorted(id, result));
        },
        RpcOutcomeVal::Failure { id, error } => {
            assert(outcome_json(out) == error_json(id, error));
            assert(outcome_json_sorted(out) == error_json_sorted(id, error));
        },
    }
}

/// Looking a key up in a three-member object reads the members back to
/// front.
proof fn lemma_three_member_lookup(ms: Seq<(Seq<u8>, JsonVal)>)
    requires
        ms.len() == 3,
    ensures
        forall|key: Seq<u8>| #[trigger] obj_lookup(ms, key) == (if ms[2].0 == key {
            Some(ms[2].1)
        } else if ms[1].0 == key {
            Some(ms[1].1)
        } else if ms[0].0 == key {
            Some(ms[0].1)
        } else {
            None::<JsonVal>
        }),
{
    assert forall|key: Seq<u8>| #[trigger] obj_lookup(ms, key) == (if ms[2].0 == key {
        Some(ms[2].1)
    } else if ms[1].0 == key {
        Some(ms[1].1)
    } else if ms[0].0 == key {
        Some(ms[0].1)
    } else {
        None::<JsonVal>
    }) by {
        let d1 = ms.drop_last();
        let d2 = d1.drop_last();
        let d3 = d2.drop_last();
        assert(d1.len() == 2 && d1[0] == ms[0] && d1[1] == ms[1]);
        assert(d2.len() == 1 && d2[0] == ms[0]);
        assert(d3.len() == 0);
        assert(obj_lookup(ms, key) == (if ms.last().0 == key {
            Some(ms.last().1)
        } else {
            obj_lookup(d1, key)
        }));
        assert(obj_lookup(d1, key) == (if d1.last().0 == key {
            Some(d1.last().1)
        } else {
            obj_lookup(d2, key)
        }));
        assert(obj_lookup(d2, key) == (if d2.last().0 == key {
            Some(d2.last().1)
        } else {
            obj_lookup(d3, key)
        }));
        assert(obj_lookup(d3, key) is None);
    }
}

} // verus!
