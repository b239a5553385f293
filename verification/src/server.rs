//! What the server answers to a message from a connected peer.
use vstd::prelude::*;
use crate::json::json_encode;
use crate::message::{
    Forward, Request, Response, forward_json, request_from_text, response_json, route_forward,
    route_response,
};
use crate::objectid::ObjectId;

verus! {

/// The text that answers a message: a complaint where the message is no text or
/// holds no request, and otherwise the JSON text of the response.
pub open spec fn reply_text(text: Option<Seq<char>>, registry: Seq<ObjectId>, from: ObjectId) -> Seq<char> {
    match text {
        None => "ASCII Error."@,
        Some(t) => match request_from_text(t) {
            None => "Request Parse Error."@,
            Some(r) => json_encode(response_json(route_response(r, registry, from))),
        },
    }
}

/// What the message passes on to another peer, and to whom.
pub open spec fn reply_forward(text: Option<Seq<char>>, registry: Seq<ObjectId>, from: ObjectId) -> Option<(Seq<u8>, Seq<char>)> {
    match text {
        None => None,
        Some(t) => match request_from_text(t) {
            None => None,
            Some(r) => match route_forward(r, registry, from) {
                Some((target, _)) => Some((target, json_encode(forward_json(r, from)))),
                None => None,
            },
        },
    }
}

/// What a message passes on is exactly what routing its request gives, for every
/// event: where routing passes an object on to a peer, the message passes that
/// peer the object's JSON text, and otherwise nothing. The text that goes back is
/// the JSON text of the routed response, or a complaint where the message holds
/// no request.
pub proof fn lemma_message_follows_routing(text: Option<Seq<char>>, registry: Seq<ObjectId>, from: ObjectId)
    ensures
        text is None ==> reply_text(text, registry, from) == "ASCII Error."@ && reply_forward(text, registry, from) is None,
        text is Some && request_from_text(text.unwrap()) is None ==> reply_text(text, registry, from)
            == "Request Parse Error."@ && reply_forward(text, registry, from) is None,
        text is Some && request_from_text(text.unwrap()) is Some ==> {
            let r = request_from_text(text.unwrap()).unwrap();
            &&& reply_text(text, registry, from) == json_encode(response_json(route_response(r, registry, from)))
            &&& route_forward(r, registry, from) is None ==> reply_forward(text, registry, from) is None
            &&& route_forward(r, registry, from) is Some ==> reply_forward(text, registry, from) == Some(
                (
                    route_forward(r, registry, from).unwrap().0,
                    json_encode(route_forward(r, registry, from).unwrap().1),
                ),
            )
        },
{
}

/// The server's answer to a message: the text that goes back to the sender, and
/// what goes on to another peer first, if anything.
pub struct Reply {
    pub text: String,
    pub forward: Option<Forward>,
}

/// Answers a message from the peer `from`, where `text` is the message as text
/// (`None` for a binary message that is no UTF-8) and `registry` lists the peers
/// that are connected.
pub fn on_message(from: ObjectId, text: Option<&str>, registry: &Vec<ObjectId>) -> (r: Reply)
    ensures
        r.text@ == reply_text(
            match text {
                Some(t) => Some(t@),
                None => None,
            },
            registry@,
            from,
        ),
        match r.forward {
            Some(f) => reply_forward(
                match text {
                    Some(t) => Some(t@),
                    None => None,
                },
                registry@,
                from,
            ) == Some((f.target.id_bytes(), f.text@)),
            None => reply_forward(
                match text {
                    Some(t) => Some(t@),
                    None => None,
                },
                registry@,
                from,
            ) is None,
        },
{
    match text {
        Some(msg) => match Request::from_str(msg) {
            Ok(req) => match Response::from_request(&req, registry, from) {
                Ok(outcome) => Reply { text: outcome.response.to_json().to_string(), forward: outcome.forward },
                Err(_) => Reply { text: "Response Error.".to_owned(), forward: None },
            },
            Err(_) => Reply { text: "Request Parse Error.".to_owned(), forward: None },
        },
        None => Reply { text: "ASCII Error.".to_owned(), forward: None },
    }
}

} // verus!
