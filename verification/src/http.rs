//! The HTTP face of the engine: plain request and response values, and
//! the raw message pipeline behind the authentication gate.
//!
//! A request is accepted only as `POST` to a path ending `/mcp`; anything
//! else is answered 404. JSON-RPC level errors ride over status 200; a
//! lone notification is answered 202 with no body.

use vstd::prelude::*;
use vstd::string::StringSliceAdditionalSpecFns;

use crate::bytes::{bytes_end_with, bytes_is, ends_with, eq_ignore_case, str_bytes};
use crate::dispatch::{Handler, clone_subject, handle_request, handle_notification, outcome_post};
use crate::json::{Json, JsonVal, json_bytes, json_view, json_view_seq, json_to_bytes,
    lemma_json_view_seq};
use crate::parse::{json_doc, parse_json};
use crate::rpc::{RpcMessage, RpcMessageVal, RpcOutcomeVal, RpcRequestVal, classify, classify_obj,
    classify_val, invalid_item_json, make_invalid_item_json, make_outcome_json,
    make_outcome_json_sorted, outcome_json, outcome_json_sorted};
use crate::version::{current_version, known_older_than_current, known_version};

verus! {

/// An HTTP request as the engine sees it: method, URL path, headers and
/// raw body, all as plain bytes.
#[derive(Debug, Clone, PartialEq, Eq, Default)]
pub struct HttpRequest {
    pub method: Vec<u8>,
    pub url: Vec<u8>,
    pub headers: Vec<(Vec<u8>, Vec<u8>)>,
    pub body: Vec<u8>,
}

/// Model of [`HttpRequest`].
pub struct HttpRequestVal {
    pub method: Seq<u8>,
    pub url: Seq<u8>,
    pub headers: Seq<(Seq<u8>, Seq<u8>)>,
    pub body: Seq<u8>,
}

pub open spec fn headers_view(h: Seq<(Vec<u8>, Vec<u8>)>) -> Seq<(Seq<u8>, Seq<u8>)> {
    h.map_values(|p: (Vec<u8>, Vec<u8>)| (p.0@, p.1@))
}

impl View for HttpRequest {
    type V = HttpRequestVal;

    open spec fn view(&self) -> HttpRequestVal {
        HttpRequestVal {
            method: self.method@,
            url: self.url@,
            headers: headers_view(self.headers@),
            body: self.body@,
        }
    }
}

/// An HTTP response: status code, headers and body.
#[derive(Debug, Clone, PartialEq, Eq)]
pub struct HttpResponse {
    pub status_code: u16,
    pub headers: Vec<(Vec<u8>, Vec<u8>)>,
    pub body: Vec<u8>,
}

/// Model of [`HttpResponse`].
pub struct HttpResponseVal {
    pub status_code: u16,
    pub headers: Seq<(Seq<u8>, Seq<u8>)>,
    pub body: Seq<u8>,
}

impl View for HttpResponse {
    type V = HttpResponseVal;

    open spec fn view(&self) -> HttpResponseVal {
        HttpResponseVal {
            status_code: self.status_code,
            headers: headers_view(self.headers@),
            body: self.body@,
        }
    }
}

/// A plain-text response: `Content-Type: text/plain` and the given body.
pub open spec fn text_response_val(status: u16, body: Seq<u8>) -> HttpResponseVal {
    HttpResponseVal {
        status_code: status,
        headers: seq![("Content-Type".spec_bytes(), "text/plain".spec_bytes())],
        body: body,
    }
}

/// A JSON response: status 200, `Content-Type: application/json`.
pub open spec fn json_response_val(body: Seq<u8>) -> HttpResponseVal {
    HttpResponseVal {
        status_code: 200,
        headers: seq![("Content-Type".spec_bytes(), "application/json".spec_bytes())],
        body: body,
    }
}

/// The status-only answer a lone notification receives.
pub open spec fn accepted_response_val() -> HttpResponseVal {
    HttpResponseVal { status_code: 202, headers: Seq::empty(), body: Seq::empty() }
}

/// The answer to anything that is not a `POST` to a `/mcp` path.
pub open spec fn not_found_response_val() -> HttpResponseVal {
    text_response_val(
        404,
        "Not Found or Method Not Allowed. Use POST to /mcp".spec_bytes(),
    )
}

/// The exact invalid-request error body.
pub open spec fn invalid_request_body() -> Seq<u8> {
    "{\"jsonrpc\":\"2.0\",\"error\":{\"code\":-32600,\"message\":\"Invalid Request\"},\"id\":null}".spec_bytes()
}

/// The exact parse-error body.
pub open spec fn parse_error_body() -> Seq<u8> {
    "{\"jsonrpc\":\"2.0\",\"error\":{\"code\":-32700,\"message\":\"Parse error\"},\"id\":null}".spec_bytes()
}

/// Builds a plain-text response.
pub fn text_response(status: u16, body: &str) -> (r: HttpResponse)
    ensures
        r@ == text_response_val(status, body.spec_bytes()),
{
    let mut headers: Vec<(Vec<u8>, Vec<u8>)> = Vec::new();
    headers.push((str_bytes("Content-Type"), str_bytes("text/plain")));
    let r = HttpResponse { status_code: status, headers, body: str_bytes(body) };
    proof {
        assert(r@.headers =~= text_response_val(status, body.spec_bytes()).headers);
    }
    r
}

/// Builds a JSON response around the given body.
pub fn json_response(body: Vec<u8>) -> (r: HttpResponse)
    ensures
        r@ == json_response_val(body@),
{
    let mut headers: Vec<(Vec<u8>, Vec<u8>)> = Vec::new();
    headers.push((str_bytes("Content-Type"), str_bytes("application/json")));
    let r = HttpResponse { status_code: 200, headers, body };
    proof {
        assert(r@.headers =~= json_response_val(r.body@).headers);
    }
    r
}

fn accepted_response() -> (r: HttpResponse)
    ensures
        r@ == accepted_response_val(),
{
    let r = HttpResponse { status_code: 202, headers: Vec::new(), body: Vec::new() };
    proof {
        assert(r@.headers =~= accepted_response_val().headers);
    }
    r
}

fn not_found_response() -> (r: HttpResponse)
    ensures
        r@ == not_found_response_val(),
{
    text_response(404, "Not Found or Method Not Allowed. Use POST to /mcp")
}

fn invalid_request_response() -> (r: HttpResponse)
    ensures
        r@ == json_response_val(invalid_request_body()),
{
    json_response(
        str_bytes(
            "{\"jsonrpc\":\"2.0\",\"error\":{\"code\":-32600,\"message\":\"Invalid Request\"},\"id\":null}",
        ),
    )
}

fn parse_error_response() -> (r: HttpResponse)
    ensures
        r@ == json_response_val(parse_error_body()),
{
    json_response(
        str_bytes(
            "{\"jsonrpc\":\"2.0\",\"error\":{\"code\":-32700,\"message\":\"Parse error\"},\"id\":null}",
        ),
    )
}

/// The value of the first header whose name matches up to ASCII case.
pub open spec fn header_lookup(headers: Seq<(Seq<u8>, Seq<u8>)>, name: Seq<u8>) -> Option<Seq<u8>>
    decreases headers.len(),
{
    if headers.len() == 0 {
        None
    } else if eq_ignore_case(headers[0].0, name) {
        Some(headers[0].1)
    } else {
        header_lookup(headers.skip(1), name)
    }
}

/// Finds a header by name, matching case-insensitively.
#[verifier::loop_isolation(false)]
pub fn find_header<'a>(headers: &'a Vec<(Vec<u8>, Vec<u8>)>, name: &str) -> (r: Option<
    &'a Vec<u8>,
>)
    ensures
        match r {
            Some(v) => header_lookup(headers_view(headers@), name.spec_bytes()) == Some(v@),
            None => header_lookup(headers_view(headers@), name.spec_bytes()) is None,
        },
{
    let ghost hs = headers_view(headers@);
    let n = str_bytes(name);
    let mut i: usize = 0;
    proof {
        assert(hs.skip(0) =~= hs);
    }
    while i < headers.len()
        invariant
            i <= headers@.len(),
            header_lookup(hs, name.spec_bytes()) == header_lookup(
                hs.skip(i as int),
                name.spec_bytes(),
            ),
        decreases headers@.len() - i,
    {
        if crate::bytes::bytes_eq_ignore_case(&headers[i].0, &n) {
            proof {
                assert(hs.skip(i as int)[0] == hs[i as int]);
            }
            return Some(&headers[i].1);
        }
        proof {
            assert(hs.skip(i as int)[0] == hs[i as int]);
            assert(hs.skip(i as int).skip(1) =~= hs.skip(i as int + 1));
        }
        i = i + 1;
    }
    proof {
        assert(hs.skip(headers@.len() as int).len() == 0);
    }
    None
}

/// ASCII whitespace, as header values are trimmed of it.
pub open spec fn is_space(b: u8) -> bool {
    b == 32 || 9 <= b <= 13
}

/// The first index at or after `i` holding something other than whitespace.
pub open spec fn scan_space(s: Seq<u8>, i: int) -> int
    decreases s.len() - i,
{
    if 0 <= i < s.len() && is_space(s[i]) {
        scan_space(s, i + 1)
    } else {
        i
    }
}

/// One past the last non-whitespace index at or before `i - 1`.
pub open spec fn scan_space_back(s: Seq<u8>, i: int) -> int
    decreases i,
{
    if 0 < i <= s.len() && is_space(s[i - 1]) {
        scan_space_back(s, i - 1)
    } else {
        i
    }
}

/// The bytes with leading and trailing ASCII whitespace removed.
pub open spec fn trim_bytes(s: Seq<u8>) -> Seq<u8> {
    let a = scan_space(s, 0);
    let b = scan_space_back(s, s.len() as int);
    if a <= b {
        s.subrange(a, b)
    } else {
        Seq::empty()
    }
}

proof fn lemma_scan_space_bounds(s: Seq<u8>, i: int)
    requires
        0 <= i <= s.len(),
    ensures
        i <= scan_space(s, i) <= s.len(),
    decreases s.len() - i,
{
    if i < s.len() && is_space(s[i]) {
        lemma_scan_space_bounds(s, i + 1);
    }
}

proof fn lemma_scan_space_back_bounds(s: Seq<u8>, i: int)
    requires
        0 <= i <= s.len(),
    ensures
        0 <= scan_space_back(s, i) <= i,
    decreases i,
{
    if 0 < i && is_space(s[i - 1]) {
        lemma_scan_space_back_bounds(s, i - 1);
    }
}

fn is_space_b(b: u8) -> (r: bool)
    ensures
        r == is_space(b),
{
    b == 32 || (9 <= b && b <= 13)
}

/// Trims ASCII whitespace from both ends.
#[verifier::loop_isolation(false)]
pub fn trim(s: &Vec<u8>) -> (r: Vec<u8>)
    ensures
        r@ == trim_bytes(s@),
{
    let mut a: usize = 0;
    while a < s.len() && is_space_b(s[a])
        invariant
            a <= s@.len(),
            scan_space(s@, 0) == scan_space(s@, a as int),
        decreases s@.len() - a,
    {
        a = a + 1;
    }
    let mut b: usize = s.len();
    while b > a && is_space_b(s[b - 1])
        invariant
            a <= b <= s@.len(),
            scan_space(s@, 0) == a,
            scan_space_back(s@, s@.len() as int) == scan_space_back(s@, b as int),
        decreases b,
    {
        b = b - 1;
    }
    proof {
        lemma_scan_space_back_bounds(s@, b as int);
        if b > a {
            assert(scan_space_back(s@, b as int) == b);
        } else {
            // everything from `a` on was whitespace, so the back scan
            // stops no later than `a`, and no earlier than it either
            assert(b == a);
            assert(scan_space_back(s@, b as int) <= b);
            if scan_space_back(s@, b as int) < b {
                assert(is_space(s@[b - 1]));
                assert(scan_space(s@, 0) == a);
            }
        }
    }
    crate::parse::copy_vec_range(s, a, if b > a {
        b
    } else {
        a
    })
}

/// Is every byte one that can stand unescaped inside a JSON string
/// literal? The version header is accepted exactly when its trimmed value
/// can.
pub open spec fn version_wf(s: Seq<u8>) -> bool {
    forall|i: int| 0 <= i < s.len() ==> s[i] >= 32 && s[i] != '"' as u8 && s[i] != '\\' as u8
}

fn check_version_wf(s: &Vec<u8>) -> (r: bool)
    ensures
        r == version_wf(s@),
{
    let mut i: usize = 0;
    while i < s.len()
        invariant
            i <= s@.len(),
            forall|k: int| 0 <= k < i ==> s@[k] >= 32 && s@[k] != '"' as u8 && s@[k]
                != '\\' as u8,
        decreases s@.len() - i,
    {
        let b = s[i];
        if b < 32 || b == '"' as u8 || b == '\\' as u8 {
            return false;
        }
        i = i + 1;
    }
    true
}

/// The protocol version the transport call declares, trimmed: taken from
/// the `MCP-Protocol-Version` header when one is present.
pub open spec fn header_version(req: HttpRequestVal) -> Option<Seq<u8>> {
    match header_lookup(req.headers, "MCP-Protocol-Version".spec_bytes()) {
        Some(v) => Some(trim_bytes(v)),
        None => None,
    }
}

/// A version header was given but cannot be read as a version tag.
pub open spec fn bad_version_header(req: HttpRequestVal) -> bool {
    match header_version(req) {
        Some(v) => !version_wf(v),
        None => false,
    }
}

/// Batches are refused when the declared version is a known tag that is
/// not older than the current one: batching is a legacy-only feature,
/// disallowed from the current protocol generation on. An unknown or
/// absent tag leaves batches allowed.
pub open spec fn batch_refused(req: HttpRequestVal) -> bool {
    match header_version(req) {
        Some(v) => version_wf(v) && known_version(v) && !known_older_than_current(v),
        None => false,
    }
}

/// Is the request a `POST` to a path ending `/mcp`?
pub open spec fn mcp_route_ok(req: HttpRequestVal) -> bool {
    req.method == "POST".spec_bytes() && ends_with(req.url, "/mcp".spec_bytes())
}


/// The replies that are present, in order.
pub open spec fn flatten_somes(s: Seq<Option<JsonVal>>) -> Seq<JsonVal>
    decreases s.len(),
{
    if s.len() == 0 {
        Seq::empty()
    } else {
        match s.last() {
            Some(x) => flatten_somes(s.drop_last()).push(x),
            None => flatten_somes(s.drop_last()),
        }
    }
}

proof fn lemma_flatten_push(s: Seq<Option<JsonVal>>, x: Option<JsonVal>)
    ensures
        flatten_somes(s.push(x)) == (match x {
            Some(v) => flatten_somes(s).push(v),
            None => flatten_somes(s),
        }),
{
    assert(s.push(x).drop_last() =~= s);
}

/// What one batch item must be answered with: a request by a sorted
/// envelope for an outcome the dispatcher allows, a notification by
/// nothing, an item of invalid shape by the in-place invalid envelope.
pub open spec fn item_reply_ok(item: JsonVal, reply: Option<JsonVal>) -> bool {
    match classify_val(item) {
        RpcMessageVal::Request(q) => (match reply {
            Some(j) => exists|out: RpcOutcomeVal|
                #[trigger] outcome_post(q, out) && j == outcome_json_sorted(out),
            None => false,
        }),
        RpcMessageVal::Notification(_) => reply is None,
        RpcMessageVal::Invalid => reply == Some(invalid_item_json()),
    }
}

/// Every item answered as [`item_reply_ok`] asks, in order.
pub open spec fn replies_ok(items: Seq<JsonVal>, replies: Seq<Option<JsonVal>>) -> bool {
    &&& replies.len() == items.len()
    &&& forall|i: int| 0 <= i < items.len() ==> item_reply_ok(items[i], #[trigger] replies[i])
}

/// How many entries a batch answer owes: one per item that is not a
/// notification.
pub open spec fn reply_count(items: Seq<JsonVal>) -> int
    decreases items.len(),
{
    if items.len() == 0 {
        0int
    } else {
        reply_count(items.drop_last()) + (match classify_val(items.last()) {
            RpcMessageVal::Notification(_) => 0int,
            _ => 1int,
        })
    }
}

/// A batch reply array holds exactly one entry for every item that is not
/// a notification: requests and invalid items are each answered in place,
/// notifications contribute nothing.
pub proof fn lemma_batch_reply_count(items: Seq<JsonVal>, replies: Seq<Option<JsonVal>>)
    requires
        replies_ok(items, replies),
    ensures
        flatten_somes(replies).len() == reply_count(items),
    decreases items.len(),
{
    if items.len() > 0 {
        assert(item_reply_ok(items.last(), replies[items.len() - 1]));
        assert(replies.drop_last().len() == items.drop_last().len());
        assert(forall|i: int| 0 <= i < items.drop_last().len() ==> item_reply_ok(
            items.drop_last()[i],
            #[trigger] replies.drop_last()[i],
        ));
        lemma_batch_reply_count(items.drop_last(), replies.drop_last());
        assert(replies.last() == replies[items.len() - 1]);
    }
}

/// The body of a batch response: the JSON array of the present replies.
pub open spec fn batch_reply_ok(items: Seq<JsonVal>, body: Seq<u8>) -> bool {
    exists|replies: Seq<Option<JsonVal>>|
        #[trigger] replies_ok(items, replies) && body == json_bytes(
            JsonVal::Arr(flatten_somes(replies)),
        )
}

/// The answer to a single request: a JSON response holding an envelope
/// for an outcome the dispatcher allows.
pub open spec fn single_reply_ok(q: RpcRequestVal, r: HttpResponseVal) -> bool {
    exists|out: RpcOutcomeVal|
        #[trigger] outcome_post(q, out) && r == json_response_val(json_bytes(outcome_json(out)))
}

/// Everything the raw pipeline promises of its response.
///
/// Wrong method or path: 404, before anything else is looked at. An
/// unreadable version header: the invalid-request body. A body that is
/// not JSON: the parse-error body; a JSON scalar: the invalid-request
/// body. A batch under a current-or-newer declared version: the
/// invalid-request body; otherwise each item is answered in order and
/// notifications contribute nothing. A single object is answered by one
/// envelope, a lone notification by 202 with no body.
pub open spec fn raw_handle_post(req: HttpRequestVal, r: HttpResponseVal) -> bool {
    &&& (!mcp_route_ok(req) ==> r == not_found_response_val())
    &&& (mcp_route_ok(req) && bad_version_header(req) ==> r == json_response_val(
        invalid_request_body(),
    ))
    &&& (mcp_route_ok(req) && !bad_version_header(req) ==> (match json_doc(req.body) {
        None => r == json_response_val(parse_error_body()),
        Some(v) => match v {
            JsonVal::Arr(items) => if batch_refused(req) {
                r == json_response_val(invalid_request_body())
            } else {
                r.status_code == 200 && r.headers == json_response_val(Seq::empty()).headers
                    && batch_reply_ok(items, r.body)
            },
            JsonVal::Obj(ms) => (match classify_obj(ms) {
                RpcMessageVal::Request(q) => single_reply_ok(q, r),
                RpcMessageVal::Notification(_) => r == accepted_response_val(),
                RpcMessageVal::Invalid => r == json_response_val(invalid_request_body()),
            }),
            _ => r == json_response_val(invalid_request_body()),
        },
    }))
}

/// Answers every item of a batch in order: requests by sorted envelopes,
/// items of invalid shape by the in-place invalid envelope; notifications
/// contribute nothing.
#[verifier::loop_isolation(false)]
#[verifier::rlimit(60)]
fn handle_batch<H: Handler>(h: &H, subject: &Option<String>, items: Vec<Json>) -> (r: HttpResponse)
    ensures
        r@.status_code == 200,
        r@.headers == json_response_val(Seq::empty()).headers,
        batch_reply_ok(json_view_seq(items@), r@.body),
{
    let ghost item_vals = json_view_seq(items@);
    proof {
        lemma_json_view_seq(items@);
    }
    let mut replies: Vec<Json> = Vec::new();
    let ghost mut greplies: Seq<Option<JsonVal>> = Seq::empty();
    let mut k: usize = 0;
    while k < items.len()
        invariant
            k <= items@.len(),
            greplies.len() == k,
            forall|i: int| 0 <= i < k ==> item_reply_ok(item_vals[i], #[trigger] greplies[i]),
            json_view_seq(replies@) == flatten_somes(greplies),
        decreases items@.len() - k,
    {
        let ghost replies0 = replies@;
        match classify(&items[k]) {
            RpcMessage::Request(q) => {
                let ghost qv = q@;
                let out = handle_request(h, clone_subject(subject), q);
                let j = make_outcome_json_sorted(&out);
                let ghost jv = j@;
                replies.push(j);
                proof {
                    assert(outcome_post(qv, out@));
                    let g0 = greplies;
                    greplies = g0.push(Some(jv));
                    lemma_flatten_push(g0, Some(jv));
                    lemma_json_view_seq(replies@);
                    lemma_json_view_seq(replies0);
                    assert(replies@.drop_last() =~= replies0);
                    assert(json_view_seq(replies@) =~= json_view_seq(replies0).push(jv));
                }
            },
            RpcMessage::Notification(n) => {
                handle_notification(h, n);
                proof {
                    let g0 = greplies;
                    greplies = g0.push(None);
                    lemma_flatten_push(g0, None);
                }
            },
            RpcMessage::Invalid => {
                let j = make_invalid_item_json();
                let ghost jv = j@;
                replies.push(j);
                proof {
                    let g0 = greplies;
                    greplies = g0.push(Some(jv));
                    lemma_flatten_push(g0, Some(jv));
                    lemma_json_view_seq(replies@);
                    lemma_json_view_seq(replies0);
                    assert(replies@.drop_last() =~= replies0);
                    assert(json_view_seq(replies@) =~= json_view_seq(replies0).push(jv));
                }
            },
        }
        k = k + 1;
    }
    let arr = Json::Arr(replies);
    let body = json_to_bytes(&arr);
    proof {
        assert(replies_ok(item_vals, greplies));
    }
    json_response(body)
}

/// Answers one top-level message object (or scalar): a request by one
/// envelope, a lone notification by 202, anything else by the
/// invalid-request body.
fn handle_single<H: Handler>(h: &H, subject: Option<String>, doc: Json) -> (r: HttpResponse)
    ensures
        (match classify_val(doc@) {
            RpcMessageVal::Request(q) => single_reply_ok(q, r@),
            RpcMessageVal::Notification(_) => r@ == accepted_response_val(),
            RpcMessageVal::Invalid => r@ == json_response_val(invalid_request_body()),
        }),
{
    match classify(&doc) {
        RpcMessage::Request(q) => {
            let ghost qv = q@;
            let out = handle_request(h, subject, q);
            let j = make_outcome_json(&out);
            let body = json_to_bytes(&j);
            proof {
                assert(outcome_post(qv, out@));
            }
            json_response(body)
        },
        RpcMessage::Notification(n) => {
            handle_notification(h, n);
            accepted_response()
        },
        RpcMessage::Invalid => invalid_request_response(),
    }
}

/// Runs the whole pipeline for one transport call: routing check, version
/// header, body parse, batch gate, dispatch, envelopes.
#[verifier::rlimit(60)]
pub fn raw_handle<H: Handler>(h: &H, subject: Option<String>, req: &HttpRequest) -> (r:
    HttpResponse)
    requires
        req.body@.len() < usize::MAX / 4,
    ensures
        raw_handle_post(req@, r@),
{
    let post_ok = bytes_is(&req.method, "POST");
    let url_ok = bytes_end_with(&req.url, "/mcp");
    if !post_ok || !url_ok {
        return not_found_response();
    }
    match find_header(&req.headers, "MCP-Protocol-Version") {
        Some(v) => {
            let t = trim(v);
            if !check_version_wf(&t) {
                return invalid_request_response();
            }
        },
        None => {},
    }
    match parse_json(&req.body) {
        None => parse_error_response(),
        Some(doc) => match doc {
            Json::Arr(items) => {
                let refused: bool = match find_header(&req.headers, "MCP-Protocol-Version") {
                    Some(v) => {
                        let t = trim(v);
                        let cur = crate::version::ProtocolVersion::current();
                        crate::bytes::bytes_eq(&t, &cur.tag)
                    },
                    None => false,
                };
                proof {
                    crate::bytes::lemma_version_tags_distinct();
                }
                if refused {
                    return invalid_request_response();
                }
                handle_batch(h, &subject, items)
            },
            other => handle_single(h, subject, other),
        },
    }
}


} // verus!
