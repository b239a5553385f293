use signaling::objectid::ObjectId;
use signaling::server::on_message;

const A: &str = "00000000000000000000000a";
const B: &str = "00000000000000000000000b";

fn oid(t: &str) -> ObjectId {
    ObjectId::with_string(t).unwrap()
}

#[test]
fn on_message_binary_that_is_no_text() {
    let reply = on_message(oid(A), None, &vec![oid(A)]);
    assert_eq!(reply.text, "ASCII Error.");
    assert!(reply.forward.is_none());
}

#[test]
fn on_message_unreadable_request() {
    let reply = on_message(oid(A), Some("{\"id\":1}"), &vec![oid(A)]);
    assert_eq!(reply.text, "Request Parse Error.");
    assert!(reply.forward.is_none());
}

#[test]
fn on_message_answers_peers_command() {
    let reply = on_message(oid(A), Some(r#"{"id":"1","event":"cmd","content":"peers"}"#), &vec![oid(A), oid(B)]);
    assert_eq!(reply.text, format!(r#"{{"id":"1","result":["{}"]}}"#, B));
}

#[test]
fn on_message_passes_on_sdp() {
    let text = format!(r#"{{"id":"2","event":"sdp","target":"{}","content":"x"}}"#, B);
    let reply = on_message(oid(A), Some(&text), &vec![oid(A), oid(B)]);
    assert_eq!(reply.text, r#"{"id":"2","result":"ok"}"#);
    let fwd = reply.forward.unwrap();
    assert!(fwd.target.same_as(&oid(B)));
    assert_eq!(fwd.text, format!(r#"{{"content":"x","event":"sdp","from":"{}","id":"2","target":"{}"}}"#, A, B));
}
