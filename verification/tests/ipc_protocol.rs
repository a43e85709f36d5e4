use bar_lyrics::ipc::{
    address, batch_error, batch_reply, bootstrap_check, bootstrap_size, check_request,
    classify_body, discovery_name, dispatch, find_header, error, is_batch_ok, json_content_type, new_token, parse_error,
    rejection, reply_for, success, token_hex, Body, Dispatch, HttpRequest, Protocol, MAX_MESSAGE,
};
use bar_lyrics::json::Json;
use bar_lyrics::options::{Options, OutputKind};

fn s(text: &str) -> Json {
    Json::Str(text.to_owned())
}

fn n(text: &str) -> Json {
    Json::Number(text.to_owned())
}

fn obj(fields: Vec<(&str, Json)>) -> Json {
    Json::Object(fields.into_iter().map(|(k, v)| (k.to_owned(), v)).collect())
}

fn render(v: &Json) -> String {
    match v {
        Json::Null => "null".to_owned(),
        Json::Bool(b) => b.to_string(),
        Json::Number(t) => t.clone(),
        Json::Str(t) => format!("\"{t}\""),
        Json::Array(items) => format!("[{}]", items.iter().map(render).collect::<Vec<_>>().join(",")),
        Json::Object(fields) => format!(
            "{{{}}}",
            fields.iter().map(|(k, v)| format!("\"{k}\":{}", render(v))).collect::<Vec<_>>().join(",")
        ),
    }
}

fn request(http: Option<&str>, host: Option<&str>, post: bool, url: &str, origin: bool, ct: Option<&str>, len: Option<usize>) -> HttpRequest {
    HttpRequest {
        authorization: http.map(str::to_owned),
        host: host.map(str::to_owned),
        is_post: post,
        url: url.to_owned(),
        has_origin: origin,
        content_type: ct.map(str::to_owned),
        body_length: len,
    }
}

#[test]
fn error_replies_carry_code_and_message() {
    assert_eq!(
        render(&error(n("7"), -32601, "Method not found")),
        r#"{"jsonrpc":"2.0","id":7,"error":{"code":-32601,"message":"Method not found"}}"#
    );
    assert_eq!(
        render(&parse_error()),
        r#"{"jsonrpc":"2.0","id":null,"error":{"code":-32700,"message":"Parse error"}}"#
    );
    assert_eq!(
        render(&batch_error()),
        r#"{"jsonrpc":"2.0","id":null,"error":{"code":-32600,"message":"Invalid batch"}}"#
    );
    assert_eq!(render(&success(s("a"), Json::Null)), r#"{"jsonrpc":"2.0","id":"a","result":null}"#);
}

#[test]
fn requests_are_checked() {
    let good = obj(vec![("jsonrpc", s("2.0")), ("id", n("1")), ("method", s("config.get"))]);
    let r = check_request(good).ok().unwrap();
    assert_eq!(r.method, "config.get");
    assert_eq!(render(r.id.as_ref().unwrap()), "1");
    assert_eq!(render(&r.params), "{}");
    let note = obj(vec![("jsonrpc", s("2.0")), ("method", s("x")), ("params", Json::Array(vec![]))]);
    let r = check_request(note).ok().unwrap();
    assert!(r.id.is_none());
    assert_eq!(render(&r.params), "[]");
    for bad in [
        Json::Array(vec![]),
        obj(vec![("jsonrpc", s("1.0")), ("method", s("x"))]),
        obj(vec![("jsonrpc", s("2.0")), ("method", n("3"))]),
        obj(vec![("jsonrpc", s("2.0")), ("method", s("x")), ("id", Json::Bool(true))]),
        obj(vec![("jsonrpc", s("2.0")), ("method", s("x")), ("params", s("p"))]),
    ] {
        let e = check_request(bad).err().unwrap();
        assert_eq!(
            render(&e),
            r#"{"jsonrpc":"2.0","id":null,"error":{"code":-32600,"message":"Invalid Request"}}"#
        );
    }
}

#[test]
fn methods_are_dispatched() {
    assert!(matches!(dispatch("config.get", &obj(vec![])), Dispatch::GetConfig));
    assert!(matches!(dispatch("config.get", &Json::Array(vec![])), Dispatch::GetConfig));
    match dispatch("config.get", &obj(vec![("x", n("1"))])) {
        Dispatch::Fail(code, message) => {
            assert_eq!(code, -32602);
            assert_eq!(message, "config.get takes no parameters");
        }
        _ => panic!("expected an error"),
    }
    assert!(matches!(dispatch("config.update", &obj(vec![])), Dispatch::UpdateConfig));
    assert!(matches!(dispatch("player.control", &obj(vec![])), Dispatch::PlayerControl));
    match dispatch("nope", &obj(vec![])) {
        Dispatch::Fail(code, message) => {
            assert_eq!(code, -32601);
            assert_eq!(message, "Method not found");
        }
        _ => panic!("expected an error"),
    }
}

#[test]
fn notifications_get_no_reply() {
    assert!(reply_for(None, Ok(Json::Null)).is_none());
    assert!(reply_for(None, Err((-32601, "x".to_owned()))).is_none());
    let r = reply_for(Some(s("q")), Err((-32001, "failed".to_owned()))).unwrap();
    assert_eq!(render(&r), r#"{"jsonrpc":"2.0","id":"q","error":{"code":-32001,"message":"failed"}}"#);
}

#[test]
fn batches_are_bounded() {
    assert!(!is_batch_ok(0));
    assert!(is_batch_ok(1));
    assert!(is_batch_ok(64));
    assert!(!is_batch_ok(65));
    assert!(batch_reply(Vec::new()).is_none());
    assert!(batch_reply(vec![None, None]).is_none());
    assert_eq!(
        render(&batch_reply(vec![Some(n("1")), None, Some(Json::Null)]).unwrap()),
        "[1,null]"
    );
}

#[test]
fn refused_update_keeps_the_settings() {
    let mut protocol = Protocol::new(Options::default());
    let mut waybar = Options::default();
    waybar.output = OutputKind::Waybar;
    assert_eq!(protocol.propose(Ok(waybar)).err().unwrap(), (-32602, "output is fixed for this stream".to_owned()));
    let mut wide = Options::default();
    wide.max_chars = 200;
    assert_eq!(protocol.propose(Ok(wide)).err().unwrap(), (-32602, "configuration value out of range".to_owned()));
    assert_eq!(protocol.propose(Err("unknown field".to_owned())).err().unwrap(), (-32602, "unknown field".to_owned()));
    let mut ok = Options::default();
    ok.max_chars = 40;
    let proposed = protocol.propose(Ok(ok)).ok().unwrap();
    let mut copy = Options::default();
    copy.max_chars = 40;
    assert_eq!(protocol.settle(proposed, Some(Err("busy".to_owned()))), Err((-32603, "busy".to_owned())));
    assert_eq!(protocol.options.max_chars, 32);
    assert_eq!(protocol.settle(copy, None), Err((-32603, "runtime stopped".to_owned())));
    assert_eq!(protocol.options.max_chars, 32);
    let mut last = Options::default();
    last.max_chars = 40;
    assert_eq!(protocol.settle(last, Some(Ok(()))), Ok(()));
    assert_eq!(protocol.options.max_chars, 40);
}

#[test]
fn stdin_bootstrap_is_a_notification() {
    let good = obj(vec![("jsonrpc", s("2.0")), ("method", s("config.update")), ("params", obj(vec![]))]);
    assert_eq!(bootstrap_check(&good), Ok(()));
    let with_id = obj(vec![("jsonrpc", s("2.0")), ("method", s("config.update")), ("id", n("1"))]);
    assert_eq!(bootstrap_check(&with_id), Err("stdin expects a config.update JSON-RPC notification".to_owned()));
    assert_eq!(bootstrap_size(0), Ok(false));
    assert_eq!(bootstrap_size(MAX_MESSAGE), Ok(true));
    assert_eq!(bootstrap_size(MAX_MESSAGE + 1), Err("IPC message too large".to_owned()));
}

#[test]
fn http_gate_refuses_in_order() {
    let auth = "Bearer t";
    let host = "127.0.0.1:5000";
    let ok = request(Some(auth), Some(host), true, "/rpc", false, Some("application/json; charset=utf-8"), Some(10));
    assert_eq!(rejection(&ok, auth, host), None);
    assert_eq!(rejection(&request(None, Some(host), true, "/rpc", false, Some("application/json"), Some(1)), auth, host), Some(403));
    assert_eq!(rejection(&request(Some(auth), Some("evil"), true, "/rpc", false, None, None), auth, host), Some(403));
    assert_eq!(rejection(&request(Some(auth), Some(host), false, "/rpc", false, None, None), auth, host), Some(400));
    assert_eq!(rejection(&request(Some(auth), Some(host), true, "/x", false, None, None), auth, host), Some(400));
    assert_eq!(rejection(&request(Some(auth), Some(host), true, "/rpc", true, None, None), auth, host), Some(400));
    assert_eq!(rejection(&request(Some(auth), Some(host), true, "/rpc", false, Some("text/plain"), Some(1)), auth, host), Some(415));
    assert_eq!(rejection(&request(Some(auth), Some(host), true, "/rpc", false, Some("Application/JSON"), None), auth, host), Some(413));
    assert_eq!(rejection(&request(Some(auth), Some(host), true, "/rpc", false, Some("application/json"), Some(MAX_MESSAGE + 1)), auth, host), Some(413));
    assert!(json_content_type(" application/json ;x"));
}

#[test]
fn tokens_are_hex() {
    assert_eq!(token_hex(&[0x00, 0xab, 0x7f]), "00ab7f");
    let token = new_token().unwrap();
    assert_eq!(token.len(), 64);
    assert!(token.chars().all(|c| c.is_ascii_hexdigit() && !c.is_ascii_uppercase()));
    assert_ne!(token, new_token().unwrap());
}

#[test]
fn discovery_records() {
    assert_eq!(discovery_name(1234, "abcdef0123456789"), "1234-abcdef01.json");
    assert_eq!(
        render(&address(77, "127.0.0.1:9", "tok")),
        r#"{"version":1,"pid":77,"url":"http://127.0.0.1:9/rpc","token":"tok"}"#
    );
}

#[test]
fn bodies_are_sorted() {
    assert!(matches!(classify_body(None), Body::Unparsable));
    assert!(matches!(classify_body(Some(Json::Array(vec![]))), Body::InvalidBatch));
    assert!(matches!(classify_body(Some(Json::Array((0..65).map(|_| Json::Null).collect()))), Body::InvalidBatch));
    assert!(matches!(classify_body(Some(Json::Array(vec![Json::Null]))), Body::Batch(v) if v.len() == 1));
    assert!(matches!(classify_body(Some(Json::Null)), Body::Single(Json::Null)));
}

#[test]
fn headers_are_found_without_case() {
    let headers = vec![
        ("content-type".to_owned(), "application/json".to_owned()),
        ("Content-Type".to_owned(), "text/plain".to_owned()),
    ];
    assert_eq!(find_header(&headers, "Content-Type"), Some("application/json".to_owned()));
    assert_eq!(find_header(&headers, "Origin"), None);
}
