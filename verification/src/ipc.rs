//! The JSON-RPC 2.0 protocol of the IPC mode, its HTTP gate and its
//! discovery record.
use vstd::prelude::*;

use crate::cover::{eq_ignore_ascii_case, eq_ignore_case, find_char, first_index};
use crate::json::{field, field_is, is_text, member, Json};
use crate::options::{validated_spec, Options, OptionsView};
use crate::text::{
    chars_of, decimal, decimal_chars, extend_chars, hex_chars, hex_padded, signed_decimal,
    signed_decimal_chars, slice_range, string_from_chars, text_is, trim, trimmed,
};

verus! {

/// The largest request body, and the largest stdin message, in bytes.
pub const MAX_MESSAGE: usize = 65536;

/// The most requests in one batch.
pub const MAX_BATCH: usize = 64;

/// The value is the string `s`.
pub open spec fn is_str(v: Json, s: Seq<char>) -> bool {
    v matches Json::Str(t) && t@ == s
}

/// The value is the number `n`.
pub open spec fn is_number(v: Json, n: int) -> bool {
    v matches Json::Number(t) && t@ == signed_decimal(n)
}

/// The value is an object without members.
pub open spec fn is_empty_object(v: Json) -> bool {
    v matches Json::Object(fields) && fields@.len() == 0
}

/// `{"code": code, "message": message}`.
pub open spec fn is_error_object(v: Json, code: int, message: Seq<char>) -> bool {
    &&& v matches Json::Object(fields)
    &&& fields@.len() == 2
    &&& fields@[0].0@ == "code"@ && is_number(fields@[0].1, code)
    &&& fields@[1].0@ == "message"@ && is_str(fields@[1].1, message)
}

/// `{"jsonrpc": "2.0", "id": id, key: value}`.
pub open spec fn is_reply(r: Json, id: Json, key: Seq<char>, value: spec_fn(Json) -> bool) -> bool {
    &&& r matches Json::Object(fields)
    &&& fields@.len() == 3
    &&& fields@[0].0@ == "jsonrpc"@ && is_str(fields@[0].1, "2.0"@)
    &&& fields@[1].0@ == "id"@ && fields@[1].1 == id
    &&& fields@[2].0@ == key && value(fields@[2].1)
}

/// The error reply `{"jsonrpc": "2.0", "id": id, "error": {"code": code, "message": message}}`.
pub open spec fn is_error_reply(r: Json, id: Json, code: int, message: Seq<char>) -> bool {
    is_reply(r, id, "error"@, |e: Json| is_error_object(e, code, message))
}

/// The success reply `{"jsonrpc": "2.0", "id": id, "result": result}`.
pub open spec fn is_result_reply(r: Json, id: Json, result: Json) -> bool {
    is_reply(r, id, "result"@, |v: Json| v == result)
}

fn text(s: &str) -> (r: Json)
    ensures
        is_str(r, s@),
{
    Json::Str(s.to_owned())
}

fn number(n: i64) -> (r: Json)
    ensures
        is_number(r, n as int),
{
    let digits = signed_decimal_chars(n);
    Json::Number(string_from_chars(digits.as_slice()))
}

fn reply(id: Json, key: &str, value: Json) -> (r: Json)
    ensures
        r matches Json::Object(fields) && fields@.len() == 3 && fields@[0].0@ == "jsonrpc"@
            && is_str(fields@[0].1, "2.0"@) && fields@[1].0@ == "id"@ && fields@[1].1 == id
            && fields@[2].0@ == key@ && fields@[2].1 == value,
{
    let mut fields: Vec<(String, Json)> = Vec::new();
    fields.push(("jsonrpc".to_owned(), text("2.0")));
    fields.push(("id".to_owned(), id));
    fields.push((key.to_owned(), value));
    Json::Object(fields)
}

/// The error reply to the request with `id`.
pub fn error(id: Json, code: i32, message: &str) -> (r: Json)
    ensures
        is_error_reply(r, id, code as int, message@),
{
    let mut detail: Vec<(String, Json)> = Vec::new();
    detail.push(("code".to_owned(), number(code as i64)));
    detail.push(("message".to_owned(), text(message)));
    reply(id, "error", Json::Object(detail))
}

/// The success reply to the request with `id`.
pub fn success(id: Json, result: Json) -> (r: Json)
    ensures
        is_result_reply(r, id, result),
{
    reply(id, "result", result)
}

/// The reply to a body that is not JSON.
pub fn parse_error() -> (r: Json)
    ensures
        is_error_reply(r, Json::Null, -32700, "Parse error"@),
{
    error(Json::Null, -32700, "Parse error")
}

/// A batch of requests is answered when it holds 1 to 64 of them.
pub open spec fn batch_ok(len: int) -> bool {
    1 <= len <= MAX_BATCH
}

/// The reply to a batch that is empty or too long.
pub fn batch_error() -> (r: Json)
    ensures
        is_error_reply(r, Json::Null, -32600, "Invalid batch"@),
{
    error(Json::Null, -32600, "Invalid batch")
}

/// Whether a batch of `len` requests is answered.
pub fn is_batch_ok(len: usize) -> (r: bool)
    ensures
        r == batch_ok(len as int),
{
    1 <= len && len <= MAX_BATCH
}

/// The replies that are there, in order.
pub open spec fn present(replies: Seq<Option<Json>>) -> Seq<Json>
    decreases replies.len(),
{
    if replies.len() == 0 {
        Seq::empty()
    } else {
        match replies.last() {
            Some(reply) => present(replies.drop_last()).push(reply),
            None => present(replies.drop_last()),
        }
    }
}

/// The reply to a batch: the replies to its requests, in order, without the
/// notifications; nothing when all of them were notifications.
pub fn batch_reply(replies: Vec<Option<Json>>) -> (r: Option<Json>)
    ensures
        match r {
            None => present(replies@).len() == 0,
            Some(Json::Array(items)) => items@ == present(replies@) && items@.len() > 0,
            Some(_) => false,
        },
{
    let ghost all = replies@;
    let mut items: Vec<Json> = Vec::new();
    let mut rest = replies;
    let mut k: usize = 0;
    let n = rest.len();
    assert(all.take(0) =~= Seq::<Option<Json>>::empty());
    assert(all.skip(0) =~= all);
    while k < n
        invariant
            n == all.len(),
            k <= n,
            rest@ == all.skip(k as int),
            items@ == present(all.take(k as int)),
        decreases n - k,
    {
        let next = rest.remove(0);
        assert(next == all[k as int]);
        assert(all.skip(k as int).remove(0) =~= all.skip(k + 1));
        assert(all.take(k + 1).drop_last() =~= all.take(k as int));
        match next {
            Some(reply) => items.push(reply),
            None => {},
        }
        k = k + 1;
    }
    assert(all.take(n as int) =~= all);
    if items.len() == 0 {
        None
    } else {
        Some(Json::Array(items))
    }
}

/// What a request body holds, and how it is answered.
pub enum Body {
    /// Not JSON: answered with a parse error.
    Unparsable,
    /// An array that is empty or too long: answered with "Invalid batch".
    InvalidBatch,
    /// One request.
    Single(Json),
    /// A batch of requests, answered together.
    Batch(Vec<Json>),
}

/// Sorts a parsed body (`None` when it is not JSON).
pub fn classify_body(parsed: Option<Json>) -> (r: Body)
    ensures
        match parsed {
            None => r is Unparsable,
            Some(Json::Array(items)) => if batch_ok(items@.len() as int) {
                r == Body::Batch(items)
            } else {
                r is InvalidBatch
            },
            Some(v) => r == Body::Single(v),
        },
{
    match parsed {
        None => Body::Unparsable,
        Some(Json::Array(items)) => if is_batch_ok(items.len()) {
            Body::Batch(items)
        } else {
            Body::InvalidBatch
        },
        Some(v) => Body::Single(v),
    }
}

/// The value of the first header named `name`, names compared without
/// regard to ASCII case.
pub open spec fn header_of(headers: Seq<(String, String)>, name: Seq<char>) -> Option<Seq<char>>
    decreases headers.len(),
{
    if headers.len() == 0 {
        None
    } else if eq_ignore_case(headers[0].0@, name) {
        Some(headers[0].1@)
    } else {
        header_of(headers.drop_first(), name)
    }
}

/// Finds a header by name, as HTTP compares names.
pub fn find_header(headers: &Vec<(String, String)>, name: &str) -> (r: Option<String>)
    ensures
        match (r, header_of(headers@, name@)) {
            (Some(v), Some(w)) => v@ == w,
            (None, None) => true,
            _ => false,
        },
{
    let wanted = chars_of(name);
    let mut i: usize = 0;
    assert(headers@.skip(0) =~= headers@);
    while i < headers.len()
        invariant
            i <= headers@.len(),
            wanted@ == name@,
            header_of(headers@, name@) == header_of(headers@.skip(i as int), name@),
        decreases headers@.len() - i,
    {
        assert(headers@.skip(i as int).drop_first() =~= headers@.skip(i + 1));
        assert(headers@.skip(i as int)[0] == headers@[i as int]);
        let key = chars_of(headers[i].0.as_str());
        if eq_ignore_ascii_case(key.as_slice(), wanted.as_slice()) {
            return Some(headers[i].1.clone());
        }
        i = i + 1;
    }
    None
}

/// An id a request may carry: null, a string or a number.
pub open spec fn is_valid_id(id: Json) -> bool {
    id is Null || id is Str || id is Number
}

/// Parameters a request may carry: an object or an array.
pub open spec fn is_valid_params(params: Json) -> bool {
    params is Object || params is Array
}

/// A JSON-RPC 2.0 request: an object with `"jsonrpc": "2.0"`, a string
/// method, and, where present, a valid id and valid parameters.
pub open spec fn is_valid_request(v: Json) -> bool {
    &&& v is Object
    &&& is_text(field(v, "jsonrpc"@), "2.0"@)
    &&& field(v, "method"@) matches Some(Json::Str(_))
    &&& (field(v, "id"@) matches Some(id) ==> is_valid_id(id))
    &&& (field(v, "params"@) matches Some(params) ==> is_valid_params(params))
}

/// A request that passed the checks: its id (none for a notification), its
/// method and its parameters (an empty object when it has none).
pub struct Request {
    pub id: Option<Json>,
    pub method: String,
    pub params: Json,
}

proof fn lemma_member_remove(fields: Seq<(String, Json)>, i: int, key: Seq<char>)
    requires
        0 <= i < fields.len(),
        fields[i].0@ != key,
    ensures
        member(fields.remove(i), key) == member(fields, key),
    decreases fields.len(),
{
    if i > 0 {
        lemma_member_remove(fields.drop_first(), i - 1, key);
        assert(fields.remove(i).drop_first() =~= fields.drop_first().remove(i - 1));
    } else {
        assert(fields.remove(0) =~= fields.drop_first());
    }
}

fn take_member(fields: &mut Vec<(String, Json)>, key: &str) -> (r: Option<Json>)
    ensures
        r == member(old(fields)@, key@),
        forall|k: Seq<char>| k != key@ ==> #[trigger] member(final(fields)@, k) == member(old(fields)@, k),
{
    let mut i: usize = 0;
    assert(fields@.skip(0) =~= fields@);
    while i < fields.len()
        invariant
            i <= fields@.len(),
            fields@ == old(fields)@,
            member(fields@, key@) == member(fields@.skip(i as int), key@),
        decreases fields@.len() - i,
    {
        assert(fields@.skip(i as int).drop_first() =~= fields@.skip(i + 1));
        assert(fields@.skip(i as int)[0] == fields@[i as int]);
        if text_is(fields[i].0.as_str(), key) {
            let ghost before = fields@;
            let (_, value) = fields.remove(i);
            proof {
                assert forall|k: Seq<char>| k != key@ implies #[trigger] member(fields@, k) == member(
                    before,
                    k,
                ) by {
                    lemma_member_remove(before, i as int, k);
                }
            }
            return Some(value);
        }
        i = i + 1;
    }
    None
}

/// The parameters a request is dispatched with.
pub open spec fn params_of(v: Json, params: Json) -> bool {
    match field(v, "params"@) {
        Some(p) => params == p,
        None => is_empty_object(params),
    }
}

/// Checks a request; an invalid one gets the "Invalid Request" reply.
pub fn check_request(v: Json) -> (r: Result<Request, Json>)
    ensures
        match r {
            Ok(request) => {
                &&& is_valid_request(v)
                &&& request.id == field(v, "id"@)
                &&& field(v, "method"@) matches Some(Json::Str(m)) && m@ == request.method@
                &&& params_of(v, request.params)
            },
            Err(reply) => !is_valid_request(v) && is_error_reply(
                reply,
                Json::Null,
                -32600,
                "Invalid Request"@,
            ),
        },
{
    let valid = match &v {
        Json::Object(_) => {
            let method_ok = match v.get("method") {
                Some(Json::Str(_)) => true,
                _ => false,
            };
            let id_ok = match v.get("id") {
                Some(Json::Null) | Some(Json::Str(_)) | Some(Json::Number(_)) | None => true,
                _ => false,
            };
            let params_ok = match v.get("params") {
                Some(Json::Object(_)) | Some(Json::Array(_)) | None => true,
                _ => false,
            };
            field_is(&v, "jsonrpc", "2.0") && method_ok && id_ok && params_ok
        },
        _ => false,
    };
    if !valid {
        return Err(error(Json::Null, -32600, "Invalid Request"));
    }
    assert(is_valid_request(v));
    let method = match v.get("method") {
        Some(Json::Str(m)) => m.clone(),
        _ => String::new(),
    };
    let ghost whole = v;
    match v {
        Json::Object(mut fields) => {
            let ghost all = fields@;
            assert(field(whole, "id"@) == member(all, "id"@));
            assert(field(whole, "params"@) == member(all, "params"@));
            proof {
                reveal_strlit("id");
                reveal_strlit("params");
                assert("params"@.len() != "id"@.len());
            }
            let id = take_member(&mut fields, "id");
            let params = match take_member(&mut fields, "params") {
                Some(p) => p,
                None => Json::Object(Vec::new()),
            };
            Ok(Request { id, method, params })
        },
        _ => Err(error(Json::Null, -32600, "Invalid Request")),
    }
}

/// What a method asks of the sidecar.
pub enum Dispatch {
    /// Reply with the current settings.
    GetConfig,
    /// Merge the parameters into the settings and apply them.
    UpdateConfig,
    /// Carry out the playback command in the parameters.
    PlayerControl,
    /// Reply with this error.
    Fail(i32, String),
}

/// Parameters that are empty: `{}` or `[]`.
pub open spec fn is_empty_params(params: Json) -> bool {
    ||| (params matches Json::Object(fields) && fields@.len() == 0)
    ||| (params matches Json::Array(items) && items@.len() == 0)
}

/// What a method asks for, given its parameters; unknown methods, and
/// `config.get` with parameters, are errors.
pub open spec fn dispatch_of(method: Seq<char>, params: Json) -> (int, Seq<char>, int) {
    if method == "config.get"@ {
        if is_empty_params(params) {
            (0, Seq::empty(), 0)
        } else {
            (4, "config.get takes no parameters"@, -32602)
        }
    } else if method == "config.update"@ {
        (1, Seq::empty(), 0)
    } else if method == "player.control"@ {
        (2, Seq::empty(), 0)
    } else {
        (4, "Method not found"@, -32601)
    }
}

/// A dispatch taken as (kind, message, code).
pub open spec fn dispatch_view(d: Dispatch) -> (int, Seq<char>, int) {
    match d {
        Dispatch::GetConfig => (0, Seq::empty(), 0),
        Dispatch::UpdateConfig => (1, Seq::empty(), 0),
        Dispatch::PlayerControl => (2, Seq::empty(), 0),
        Dispatch::Fail(code, message) => (4, message@, code as int),
    }
}

/// Routes a request to what its method asks for.
pub fn dispatch(method: &str, params: &Json) -> (r: Dispatch)
    ensures
        dispatch_view(r) == dispatch_of(method@, *params),
{
    if text_is(method, "config.get") {
        let empty = match params {
            Json::Object(fields) => fields.len() == 0,
            Json::Array(items) => items.len() == 0,
            _ => false,
        };
        if empty {
            Dispatch::GetConfig
        } else {
            Dispatch::Fail(-32602, "config.get takes no parameters".to_owned())
        }
    } else if text_is(method, "config.update") {
        Dispatch::UpdateConfig
    } else if text_is(method, "player.control") {
        Dispatch::PlayerControl
    } else {
        Dispatch::Fail(-32601, "Method not found".to_owned())
    }
}

/// The reply to a request with `id` (none for a notification) and the
/// outcome of its method.
pub fn reply_for(id: Option<Json>, outcome: Result<Json, (i32, String)>) -> (r: Option<Json>)
    ensures
        match id {
            None => r is None,
            Some(i) => (r matches Some(reply) && match outcome {
                Ok(value) => is_result_reply(reply, i, value),
                Err((code, message)) => is_error_reply(reply, i, code as int, message@),
            }),
        },
{
    match id {
        None => None,
        Some(i) => match outcome {
            Ok(value) => Some(success(i, value)),
            Err((code, message)) => Some(error(i, code, message.as_str())),
        },
    }
}

pub open spec fn output_fixed_message() -> Seq<char> {
    "output is fixed for this stream"@
}

pub open spec fn runtime_stopped_message() -> Seq<char> {
    "runtime stopped"@
}

/// The verdict on a configuration update: the merged settings, validated,
/// with the output kept; errors carry the code -32602.
pub open spec fn proposal_of(current: OptionsView, merged: Result<OptionsView, Seq<char>>) -> Result<
    OptionsView,
    (int, Seq<char>),
> {
    match merged {
        Err(e) => Err((-32602, e)),
        Ok(m) => match validated_spec(m) {
            Err(e) => Err((-32602, e)),
            Ok(n) => if n.output != current.output {
                Err((-32602, output_fixed_message()))
            } else {
                Ok(n)
            },
        },
    }
}

/// A proposal taken by its view.
pub open spec fn proposal_view(r: Result<Options, (i32, String)>) -> Result<
    OptionsView,
    (int, Seq<char>),
> {
    match r {
        Ok(o) => Ok(o@),
        Err((code, message)) => Err((code as int, message@)),
    }
}

/// The protocol's state: the settings it reports and updates.
pub struct Protocol {
    pub options: Options,
}

impl Protocol {
    /// A protocol that reports `options`.
    pub fn new(options: Options) -> (r: Self)
        ensures
            r.options == options,
    {
        Protocol { options }
    }

    /// Checks the settings that a `config.update` merged into the current
    /// ones; a failed merge is passed on.
    pub fn propose(&self, merged: Result<Options, String>) -> (r: Result<Options, (i32, String)>)
        ensures
            proposal_view(r) == proposal_of(
                self.options@,
                match merged {
                    Ok(m) => Ok(m@),
                    Err(e) => Err(e@),
                },
            ),
    {
        let validated = Options::updated(merged);
        match validated {
            Err(error) => Err((-32602, error)),
            Ok(options) => if options.output != self.options.output {
                Err((-32602, "output is fixed for this stream".to_owned()))
            } else {
                Ok(options)
            },
        }
    }

    /// Settles a proposal with the runtime's answer (`None` when the runtime
    /// is gone): settings the runtime took become current; otherwise the
    /// settings stay as they were and the error carries the code -32603.
    pub fn settle(&mut self, proposed: Options, answer: Option<Result<(), String>>) -> (r: Result<
        (),
        (i32, String),
    >)
        ensures
            match answer {
                Some(Ok(())) => r is Ok && final(self).options == proposed,
                Some(Err(e)) => final(self).options == old(self).options && (r matches Err(
                    (code, message),
                ) && code == -32603 && message@ == e@),
                None => final(self).options == old(self).options && (r matches Err((code, message))
                    && code == -32603 && message@ == runtime_stopped_message()),
            },
    {
        match answer {
            Some(Ok(())) => {
                self.options = proposed;
                Ok(())
            },
            Some(Err(error)) => Err((-32603, error)),
            None => Err((-32603, "runtime stopped".to_owned())),
        }
    }
}

/// A refused configuration update leaves the settings as they were, and an
/// accepted one makes them the validated merge, whose output is unchanged.
pub proof fn update_keeps_or_validates(
    current: OptionsView,
    merged: Result<OptionsView, Seq<char>>,
)
    ensures
        proposal_of(current, merged) matches Ok(n) ==> (merged matches Ok(m) && validated_spec(m)
            == Ok::<OptionsView, Seq<char>>(n) && n.output == current.output),
{
}

pub open spec fn stdin_message() -> Seq<char> {
    "stdin expects a config.update JSON-RPC notification"@
}

/// The stdin message is a `config.update` notification: `"jsonrpc": "2.0"`,
/// that method, and no id.
pub open spec fn is_bootstrap(v: Json) -> bool {
    is_text(field(v, "jsonrpc"@), "2.0"@) && is_text(field(v, "method"@), "config.update"@)
        && field(v, "id"@) is None
}

/// Checks the optional first stdin message.
pub fn bootstrap_check(v: &Json) -> (r: Result<(), String>)
    ensures
        match r {
            Ok(()) => is_bootstrap(*v),
            Err(message) => !is_bootstrap(*v) && message@ == stdin_message(),
        },
{
    if field_is(v, "jsonrpc", "2.0") && field_is(v, "method", "config.update") && v.get(
        "id",
    ).is_none() {
        Ok(())
    } else {
        Err("stdin expects a config.update JSON-RPC notification".to_owned())
    }
}

/// The verdict on a stdin message of `len` bytes: none to read, too large,
/// or to be read.
pub fn bootstrap_size(len: usize) -> (r: Result<bool, String>)
    ensures
        match r {
            Ok(present) => len <= MAX_MESSAGE && present == (len > 0),
            Err(message) => len > MAX_MESSAGE && message@ == "IPC message too large"@,
        },
{
    if len > MAX_MESSAGE {
        Err("IPC message too large".to_owned())
    } else {
        Ok(len > 0)
    }
}

/// The part of a header value before its first `;`.
pub open spec fn before_semicolon(s: Seq<char>) -> Seq<char> {
    match first_index(s, ';') {
        Some(i) => s.take(i),
        None => s,
    }
}

/// A content type that names JSON, parameters aside.
pub open spec fn is_json_type(value: Seq<char>) -> bool {
    eq_ignore_case(trimmed(before_semicolon(value)), "application/json"@)
}

/// Whether a `Content-Type` value names JSON.
pub fn json_content_type(value: &str) -> (r: bool)
    ensures
        r == is_json_type(value@),
{
    let chars = chars_of(value);
    let head = match find_char(chars.as_slice(), ';') {
        Some(i) => slice_range(chars.as_slice(), 0, i),
        None => chars,
    };
    let t = trim(head.as_slice());
    let json = chars_of("application/json");
    eq_ignore_ascii_case(t.as_slice(), json.as_slice())
}

/// What the HTTP gate reads of a request.
pub struct HttpRequest {
    pub authorization: Option<String>,
    pub host: Option<String>,
    pub is_post: bool,
    pub url: String,
    pub has_origin: bool,
    pub content_type: Option<String>,
    pub body_length: Option<usize>,
}

/// The header holds exactly `expected`.
pub open spec fn header_is(header: Option<String>, expected: Seq<char>) -> bool {
    header matches Some(value) && value@ == expected
}

/// The status a request is refused with: 403 without the right token or
/// host, 400 for anything but a POST to `/rpc` without an `Origin`, 415
/// for a body that is not JSON, 413 for one of unknown or too great a length.
pub open spec fn rejection_of(req: HttpRequest, authorization: Seq<char>, host: Seq<char>) -> Option<
    u16,
> {
    if !header_is(req.authorization, authorization) || !header_is(req.host, host) {
        Some(403)
    } else if !req.is_post || req.url@ != "/rpc"@ || req.has_origin {
        Some(400)
    } else if !(req.content_type matches Some(t) && is_json_type(t@)) {
        Some(415)
    } else if !(req.body_length matches Some(n) && n <= MAX_MESSAGE) {
        Some(413)
    } else {
        None
    }
}

fn header_matches(header: &Option<String>, expected: &str) -> (r: bool)
    ensures
        r == header_is(*header, expected@),
{
    match header {
        Some(value) => text_is(value.as_str(), expected),
        None => false,
    }
}

/// The status to refuse a request with, if any; `authorization` is the
/// expected `Authorization` header and `host` the expected `Host`.
pub fn rejection(req: &HttpRequest, authorization: &str, host: &str) -> (r: Option<u16>)
    ensures
        r == rejection_of(*req, authorization@, host@),
{
    if !header_matches(&req.authorization, authorization) || !header_matches(&req.host, host) {
        Some(403)
    } else if !req.is_post || !text_is(req.url.as_str(), "/rpc") || req.has_origin {
        Some(400)
    } else if !match &req.content_type {
        Some(t) => json_content_type(t.as_str()),
        None => false,
    } {
        Some(415)
    } else if !match req.body_length {
        Some(n) => n <= MAX_MESSAGE,
        None => false,
    } {
        Some(413)
    } else {
        None
    }
}

/// The token's text: each byte as two lowercase hexadecimal digits.
pub open spec fn hex_of(bytes: Seq<u8>) -> Seq<char>
    decreases bytes.len(),
{
    if bytes.len() == 0 {
        Seq::empty()
    } else {
        hex_of(bytes.drop_last()) + hex_padded(bytes.last() as nat, 2)
    }
}

/// Writes bytes as lowercase hexadecimal, two digits each.
pub fn token_hex(bytes: &[u8]) -> (r: String)
    ensures
        r@ == hex_of(bytes@),
{
    let mut out: Vec<char> = Vec::new();
    let mut k: usize = 0;
    assert(bytes@.take(0) =~= Seq::<u8>::empty());
    while k < bytes.len()
        invariant
            k <= bytes@.len(),
            out@ == hex_of(bytes@.take(k as int)),
        decreases bytes@.len() - k,
    {
        assert(bytes@.take(k + 1).drop_last() =~= bytes@.take(k as int));
        let digits = hex_chars(bytes[k] as u64, 2);
        extend_chars(&mut out, digits.as_slice());
        k = k + 1;
    }
    assert(bytes@.take(k as int) =~= bytes@);
    string_from_chars(out.as_slice())
}

proof fn lemma_hex_of_len(bytes: Seq<u8>)
    ensures
        hex_of(bytes).len() == 2 * bytes.len(),
    decreases bytes.len(),
{
    if bytes.len() > 0 {
        lemma_hex_of_len(bytes.drop_last());
        lemma_hex_padded_len(bytes.last() as nat, 2);
    }
}

proof fn lemma_hex_padded_len(n: nat, width: nat)
    ensures
        hex_padded(n, width).len() == width,
    decreases width,
{
    if width > 0 {
        lemma_hex_padded_len(n / 16, (width - 1) as nat);
    }
}

#[verifier::external_type_specification]
#[verifier::external_body]
pub struct ExRandomError(getrandom::Error);

/// `getrandom::fill`: fills the buffer with random bytes from the system's
/// source, or fails. The buffer keeps its length; nothing is promised of the
/// bytes.
#[verifier::external_body]
fn fill_random(buffer: &mut [u8]) -> (r: Result<(), getrandom::Error>)
    ensures
        final(buffer)@.len() == old(buffer)@.len(),
{
    getrandom::fill(buffer)
}

/// `Display` for `getrandom::Error`: its message.
#[verifier::external_body]
fn random_error_text(error: &getrandom::Error) -> String {
    error.to_string()
}

/// A fresh 256-bit token in hexadecimal: 64 lowercase hexadecimal digits of
/// random bytes.
pub fn new_token() -> (r: Result<String, String>)
    ensures
        r matches Ok(token) ==> exists|bytes: Seq<u8>| bytes.len() == 32 && token@ == hex_of(bytes),
        r matches Ok(token) ==> token@.len() == 64,
{
    let mut secret: [u8; 32] = [0u8; 32];
    match fill_random(&mut secret) {
        Ok(()) => {
            let token = token_hex(&secret);
            proof {
                lemma_hex_of_len(secret@);
            }
            Ok(token)
        },
        Err(error) => Err(random_error_text(&error)),
    }
}

/// The discovery record's file name: the process id, `-`, the token's first
/// eight characters and `.json`.
pub open spec fn discovery_name_of(pid: u32, token: Seq<char>) -> Seq<char> {
    decimal(pid as nat) + "-"@ + token.take(8) + ".json"@
}

/// The discovery record's file name for this process and token.
pub fn discovery_name(pid: u32, token: &str) -> (r: String)
    requires
        token@.len() >= 8,
    ensures
        r@ == discovery_name_of(pid, token@),
{
    let mut out = decimal_chars(pid as u64);
    out.push('-');
    let t = chars_of(token);
    let head = slice_range(t.as_slice(), 0, 8);
    extend_chars(&mut out, head.as_slice());
    let suffix = chars_of(".json");
    extend_chars(&mut out, suffix.as_slice());
    proof {
        reveal_strlit("-");
    }
    assert(out@ =~= decimal(pid as nat) + "-"@ + t@.take(8) + ".json"@);
    string_from_chars(out.as_slice())
}

/// The connection details: `{"version": 1, "pid": pid, "url": "http://<host>/rpc", "token": token}`.
pub open spec fn is_address(v: Json, pid: u32, host: Seq<char>, token: Seq<char>) -> bool {
    &&& v matches Json::Object(fields)
    &&& fields@.len() == 4
    &&& fields@[0].0@ == "version"@ && is_number(fields@[0].1, 1)
    &&& fields@[1].0@ == "pid"@ && is_number(fields@[1].1, pid as int)
    &&& fields@[2].0@ == "url"@ && is_str(fields@[2].1, "http://"@ + host + "/rpc"@)
    &&& fields@[3].0@ == "token"@ && is_str(fields@[3].1, token)
}

/// The connection details a client needs.
pub fn address(pid: u32, host: &str, token: &str) -> (r: Json)
    ensures
        is_address(r, pid, host@, token@),
{
    let mut url = chars_of("http://");
    let h = chars_of(host);
    extend_chars(&mut url, h.as_slice());
    let tail = chars_of("/rpc");
    extend_chars(&mut url, tail.as_slice());
    let mut fields: Vec<(String, Json)> = Vec::new();
    fields.push(("version".to_owned(), number(1)));
    fields.push(("pid".to_owned(), number(pid as i64)));
    fields.push(("url".to_owned(), Json::Str(string_from_chars(url.as_slice()))));
    fields.push(("token".to_owned(), text(token)));
    Json::Object(fields)
}

} // verus!
