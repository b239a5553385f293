use signaling::json::JsonValue;
use signaling::message::{Event, Request, Response};
use signaling::objectid::ObjectId;

const A: &str = "000000000000000000000001";
const B: &str = "000000000000000000000002";
const C: &str = "000000000000000000000003";

fn oid(t: &str) -> ObjectId {
    ObjectId::with_string(t).unwrap()
}

fn s(t: &str) -> JsonValue {
    JsonValue::Str(t.to_string())
}

#[test]
fn event_names_read_back() {
    for (name, event) in [("cmd", Event::Cmd), ("msg", Event::Msg), ("sdp", Event::Sdp), ("candidate", Event::Candidate)] {
        assert_eq!(Event::from_str(name), Ok(event));
        assert_eq!(event.to_json(), s(name));
    }
}

#[test]
fn event_unknown_name_is_refused() {
    assert_eq!(Event::from_str("CMD"), Err(()));
    assert_eq!(Event::from_str(""), Err(()));
    assert_eq!(Event::from_str("offer"), Err(()));
}

#[test]
fn request_reads_all_fields() {
    let text = format!(r#"{{"id":"7","event":"sdp","target":"{}","content":"v=0"}}"#, B);
    let req = Request::from_str(&text).unwrap();
    assert_eq!(req.id(), "7");
    assert_eq!(req.event(), Event::Sdp);
    assert!(req.target().unwrap().same_as(&oid(B)));
    assert_eq!(req.content(), Some("v=0".to_string()));
}

#[test]
fn request_without_optional_fields() {
    let req = Request::from_str(r#"{"id":"1","event":"cmd"}"#).unwrap();
    assert!(req.target().is_none());
    assert_eq!(req.content(), None);
}

#[test]
fn request_content_that_is_no_string_counts_as_none() {
    let req = Request::from_str(r#"{"id":"1","event":"cmd","content":5}"#).unwrap();
    assert_eq!(req.content(), None);
}

#[test]
fn request_refuses_bad_input() {
    assert!(Request::from_str("not json").is_err());
    assert!(Request::from_str("[1,2]").is_err());
    assert!(Request::from_str(r#"{"event":"cmd"}"#).is_err());
    assert!(Request::from_str(r#"{"id":1,"event":"cmd"}"#).is_err());
    assert!(Request::from_str(r#"{"id":"1"}"#).is_err());
    assert!(Request::from_str(r#"{"id":"1","event":"bye"}"#).is_err());
    assert!(Request::from_str(r#"{"id":"1","event":"sdp","target":"xyz"}"#).is_err());
    assert!(Request::from_str(r#"{"id":"1","event":"sdp","target":3}"#).is_err());
}

#[test]
fn request_to_json_text() {
    let text = format!(r#"{{"id":"7","event":"sdp","target":"{}","content":"v=0"}}"#, B);
    let req = Request::from_str(&text).unwrap();
    assert_eq!(
        req.to_json().to_string(),
        format!(r#"{{"content":"v=0","event":"sdp","id":"7","target":"{}"}}"#, B)
    );
    let plain = Request::from_str(r#"{"id":"2","event":"msg"}"#).unwrap();
    assert_eq!(plain.to_json().to_string(), r#"{"content":null,"event":"msg","id":"2"}"#);
}

#[test]
fn request_json_reads_back_as_the_request() {
    let text = format!(r#"{{"id":"7","event":"candidate","target":"{}","content":"c"}}"#, C);
    let req = Request::from_str(&text).unwrap();
    let again = Request::from_json(&req.to_json()).unwrap();
    assert_eq!(again.id(), req.id());
    assert_eq!(again.event(), req.event());
    assert!(again.target().unwrap().same_as(&req.target().unwrap()));
    assert_eq!(again.content(), req.content());
}

#[test]
fn response_to_json_text() {
    let ok = Response::Success(Some("3".to_string()), s("ok"));
    assert_eq!(ok.to_json().to_string(), r#"{"id":"3","result":"ok"}"#);
    let err = Response::Error(None, JsonValue::U64(1));
    assert_eq!(err.to_json().to_string(), r#"{"error":1,"id":null}"#);
}

#[test]
fn from_request_lists_other_peers() {
    let req = Request::from_str(r#"{"id":"9","event":"cmd","content":"peers"}"#).unwrap();
    let registry = vec![oid(B), oid(A), oid(C)];
    let out = Response::from_request(&req, &registry, oid(A)).unwrap();
    assert!(out.forward.is_none());
    assert_eq!(
        out.response.to_json().to_string(),
        format!(r#"{{"id":"9","result":["{}","{}"]}}"#, B, C)
    );
}

#[test]
fn from_request_unknown_command() {
    let req = Request::from_str(r#"{"id":"9","event":"cmd","content":"status"}"#).unwrap();
    let out = Response::from_request(&req, &vec![oid(A)], oid(A)).unwrap();
    assert_eq!(out.response.to_json().to_string(), r#"{"error":{"code":404,"message":"指令不存在"},"id":"9"}"#);
    let bare = Request::from_str(r#"{"id":"8","event":"cmd"}"#).unwrap();
    let out = Response::from_request(&bare, &vec![oid(A)], oid(A)).unwrap();
    assert_eq!(out.response.to_json().to_string(), r#"{"error":{"code":404,"message":"指令不存在"},"id":"8"}"#);
}

#[test]
fn from_request_message_is_not_implemented() {
    let req = Request::from_str(r#"{"id":"4","event":"msg","content":"hi"}"#).unwrap();
    let out = Response::from_request(&req, &vec![oid(A), oid(B)], oid(A)).unwrap();
    assert!(out.forward.is_none());
    assert_eq!(out.response.to_json().to_string(), r#"{"error":{"code":500,"message":"功能未实现"},"id":"4"}"#);
}

#[test]
fn from_request_forwards_sdp_to_connected_target() {
    let text = format!(r#"{{"id":"5","event":"sdp","target":"{}","content":"offer"}}"#, B);
    let req = Request::from_str(&text).unwrap();
    let out = Response::from_request(&req, &vec![oid(A), oid(B)], oid(A)).unwrap();
    assert_eq!(out.response.to_json().to_string(), r#"{"id":"5","result":"ok"}"#);
    let fwd = out.forward.unwrap();
    assert!(fwd.target.same_as(&oid(B)));
    assert_eq!(
        fwd.text,
        format!(r#"{{"content":"offer","event":"sdp","from":"{}","id":"5","target":"{}"}}"#, A, B)
    );
}

#[test]
fn from_request_forwards_candidate() {
    let text = format!(r#"{{"id":"6","event":"candidate","target":"{}"}}"#, C);
    let req = Request::from_str(&text).unwrap();
    let out = Response::from_request(&req, &vec![oid(C)], oid(B)).unwrap();
    let fwd = out.forward.unwrap();
    assert_eq!(
        fwd.text,
        format!(r#"{{"content":null,"event":"candidate","from":"{}","id":"6","target":"{}"}}"#, B, C)
    );
}

#[test]
fn from_request_unknown_target() {
    let text = format!(r#"{{"id":"5","event":"sdp","target":"{}"}}"#, C);
    let req = Request::from_str(&text).unwrap();
    let out = Response::from_request(&req, &vec![oid(A), oid(B)], oid(A)).unwrap();
    assert!(out.forward.is_none());
    assert_eq!(out.response.to_json().to_string(), r#"{"error":{"code":404,"message":"目标不存在"},"id":"5"}"#);
}

#[test]
fn from_request_missing_target() {
    let req = Request::from_str(r#"{"id":"5","event":"candidate"}"#).unwrap();
    let out = Response::from_request(&req, &vec![oid(A)], oid(A)).unwrap();
    assert!(out.forward.is_none());
    assert_eq!(out.response.to_json().to_string(), r#"{"error":{"code":400,"message":"未指定目标"},"id":"5"}"#);
}

#[test]
fn forwarded_text_reads_as_the_request() {
    let text = format!(r#"{{"id":"11","event":"sdp","target":"{}","content":"answer"}}"#, B);
    let req = Request::from_str(&text).unwrap();
    let out = Response::from_request(&req, &vec![oid(B)], oid(C)).unwrap();
    let passed = Request::from_str(&out.forward.unwrap().text).unwrap();
    assert_eq!(passed.id(), "11");
    assert_eq!(passed.event(), Event::Sdp);
    assert!(passed.target().unwrap().same_as(&oid(B)));
    assert_eq!(passed.content(), Some("answer".to_string()));
}
