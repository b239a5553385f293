//! The signalling messages that peers exchange through the server, and how the
//! server answers each of them.
use vstd::prelude::*;
use crate::json::{
    JsonValue, JsonView, entries_view, get_field, is_last_key, items_view, json_encode, json_parse,
    lemma_array_view, lemma_get_field_at, lemma_last_key_unique, lemma_object_view, opt_str, push_field,
};
use crate::objectid::{ObjectId, hex_decode, is_object_id_text};
use crate::text::str_eq;

verus! {

/// What a request asks for.
#[derive(Clone, Copy, Debug, PartialEq, Eq, Structural)]
pub enum Event {
    Cmd,
    Msg,
    Sdp,
    Candidate,
}

/// The name of an event in a request's text.
pub open spec fn event_name(e: Event) -> Seq<char> {
    match e {
        Event::Cmd => "cmd"@,
        Event::Msg => "msg"@,
        Event::Sdp => "sdp"@,
        Event::Candidate => "candidate"@,
    }
}

/// The event a name stands for, if any.
pub open spec fn event_from_name(s: Seq<char>) -> Option<Event> {
    if s == "cmd"@ {
        Some(Event::Cmd)
    } else if s == "msg"@ {
        Some(Event::Msg)
    } else if s == "sdp"@ {
        Some(Event::Sdp)
    } else if s == "candidate"@ {
        Some(Event::Candidate)
    } else {
        None
    }
}

impl Event {
    /// The event as a JSON string of its name.
    pub fn to_json(&self) -> (r: JsonValue)
        ensures
            r@ == JsonView::Str(event_name(*self)),
    {
        match self {
            Event::Cmd => JsonValue::Str("cmd".to_owned()),
            Event::Msg => JsonValue::Str("msg".to_owned()),
            Event::Sdp => JsonValue::Str("sdp".to_owned()),
            Event::Candidate => JsonValue::Str("candidate".to_owned()),
        }
    }

    /// The event that `s` names; `Err` for any other text.
    pub fn from_str(s: &str) -> (r: Result<Event, ()>)
        ensures
            r == match event_from_name(s@) {
                Some(e) => Ok::<Event, ()>(e),
                None => Err(()),
            },
    {
        if str_eq(s, "cmd") {
            Ok(Event::Cmd)
        } else if str_eq(s, "msg") {
            Ok(Event::Msg)
        } else if str_eq(s, "sdp") {
            Ok(Event::Sdp)
        } else if str_eq(s, "candidate") {
            Ok(Event::Candidate)
        } else {
            Err(())
        }
    }
}

/// A request from a peer.
#[derive(Clone, Debug)]
pub struct Request {
    id: String,
    event: Event,
    target: Option<ObjectId>,
    content: Option<String>,
}

/// The mathematical value of a `Request`; the target is held by its bytes.
pub struct RequestView {
    pub id: Seq<char>,
    pub event: Event,
    pub target: Option<Seq<u8>>,
    pub content: Option<Seq<char>>,
}

impl View for Request {
    type V = RequestView;

    closed spec fn view(&self) -> RequestView {
        RequestView {
            id: self.id@,
            event: self.event,
            target: match self.target {
                Some(t) => Some(t.id_bytes()),
                None => None,
            },
            content: match self.content {
                Some(c) => Some(c@),
                None => None,
            },
        }
    }
}

/// The JSON object of a request: `content` (`null` where there is none), `event`,
/// `id`, and `target` only where there is one, in key order.
pub open spec fn request_json(r: RequestView) -> JsonView {
    let base = seq![
        ("content"@, opt_str(r.content)),
        ("event"@, JsonView::Str(event_name(r.event))),
        ("id"@, JsonView::Str(r.id)),
    ];
    match r.target {
        Some(t) => JsonView::Object(base.push(("target"@, JsonView::Str(crate::objectid::hex_encode(t))))),
        None => JsonView::Object(base),
    }
}

/// The string that a field holds, if it holds one.
pub open spec fn string_field(v: Option<JsonView>) -> Option<Seq<char>> {
    match v {
        Some(JsonView::Str(s)) => Some(s),
        _ => None,
    }
}

/// What a request's `target` field gives: `Some(None)` where there is no such
/// field, `Some(Some(bytes))` for the text of an identifier, `None` otherwise.
pub open spec fn target_field(v: Option<JsonView>) -> Option<Option<Seq<u8>>> {
    match v {
        None => Some(None),
        Some(JsonView::Str(s)) => if is_object_id_text(s) {
            Some(Some(hex_decode(s)))
        } else {
            None
        },
        Some(_) => None,
    }
}

/// The request that a JSON value holds: an object whose `id` is a string, whose
/// `event` is the name of an event, and whose `target`, where there is one, is the
/// text of an identifier. A `content` that is no string counts as none.
pub open spec fn request_from_json(j: JsonView) -> Option<RequestView> {
    match j {
        JsonView::Object(fields) => {
            let id = string_field(get_field(fields, "id"@));
            let name = string_field(get_field(fields, "event"@));
            let target = target_field(get_field(fields, "target"@));
            if id is Some && name is Some && event_from_name(name.unwrap()) is Some && target is Some {
                Some(
                    RequestView {
                        id: id.unwrap(),
                        event: event_from_name(name.unwrap()).unwrap(),
                        target: target.unwrap(),
                        content: string_field(get_field(fields, "content"@)),
                    },
                )
            } else {
                None
            }
        },
        _ => None,
    }
}

/// The request that a text holds, if it is JSON and holds one.
pub open spec fn request_from_text(text: Seq<char>) -> Option<RequestView> {
    match json_parse(text) {
        Some(j) => request_from_json(j),
        None => None,
    }
}

impl Request {
    /// Reads a request from its JSON text.
    pub fn from_str(s: &str) -> (r: Result<Request, ()>)
        ensures
            match r {
                Ok(req) => request_from_text(s@) == Some(req@),
                Err(_) => request_from_text(s@) is None,
            },
    {
        match JsonValue::from_str(s) {
            Some(j) => Request::from_json(&j),
            None => Err(()),
        }
    }

    /// Reads a request from a JSON value.
    pub fn from_json(j: &JsonValue) -> (r: Result<Request, ()>)
        ensures
            match r {
                Ok(req) => request_from_json(j@) == Some(req@),
                Err(_) => request_from_json(j@) is None,
            },
    {
        match j {
            JsonValue::Object(_) => {},
            _ => {
                return Err(());
            },
        }
        let id = match j.get("id") {
            Some(JsonValue::Str(s)) => s.clone(),
            _ => {
                return Err(());
            },
        };
        let event = match j.get("event") {
            Some(JsonValue::Str(s)) => match Event::from_str(s.as_str()) {
                Ok(e) => e,
                Err(_) => {
                    return Err(());
                },
            },
            _ => {
                return Err(());
            },
        };
        let target = match j.get("target") {
            None => None,
            Some(JsonValue::Str(s)) => match ObjectId::with_string(s.as_str()) {
                Ok(oid) => Some(oid),
                Err(_) => {
                    return Err(());
                },
            },
            Some(_) => {
                return Err(());
            },
        };
        let content = match j.get("content") {
            Some(JsonValue::Str(s)) => Some(s.clone()),
            _ => None,
        };
        Ok(Request { id, event, target, content })
    }

    /// The request's JSON object.
    pub fn to_json(&self) -> (r: JsonValue)
        ensures
            r@ == request_json(self@),
    {
        let mut fields: Vec<(String, JsonValue)> = Vec::new();
        let content = match &self.content {
            Some(c) => JsonValue::Str(c.clone()),
            None => JsonValue::Null,
        };
        push_field(&mut fields, "content", content);
        push_field(&mut fields, "event", self.event.to_json());
        push_field(&mut fields, "id", JsonValue::Str(self.id.clone()));
        match &self.target {
            Some(t) => {
                push_field(&mut fields, "target", t.to_json());
            },
            None => {},
        }
        proof {
            lemma_object_view(fields);
            assert(content@ == opt_str(self@.content));
            let base = seq![
                ("content"@, opt_str(self@.content)),
                ("event"@, JsonView::Str(event_name(self@.event))),
                ("id"@, JsonView::Str(self@.id)),
            ];
            match self@.target {
                Some(t) => {
                    assert(entries_view(fields@) =~= base.push(("target"@, JsonView::Str(crate::objectid::hex_encode(t)))));
                },
                None => {
                    assert(entries_view(fields@) =~= base);
                },
            }
        }
        JsonValue::Object(fields)
    }

    /// The request's id.
    pub fn id(&self) -> (r: String)
        ensures
            r@ == self@.id,
    {
        self.id.clone()
    }

    /// What the request asks for.
    pub fn event(&self) -> (r: Event)
        ensures
            r == self@.event,
    {
        self.event
    }

    /// The peer the request is for, if it names one.
    pub fn target(&self) -> (r: Option<ObjectId>)
        ensures
            match r {
                Some(t) => self@.target == Some(t.id_bytes()),
                None => self@.target is None,
            },
    {
        self.target
    }

    /// The request's content, if it has one.
    pub fn content(&self) -> (r: Option<String>)
        ensures
            match r {
                Some(c) => self@.content == Some(c@),
                None => self@.content is None,
            },
    {
        self.content.clone()
    }
}

/// An event's name reads back as the event.
pub proof fn lemma_event_name_round_trip(e: Event)
    ensures
        event_from_name(event_name(e)) == Some(e),
{
    reveal_strlit("cmd");
    reveal_strlit("msg");
    reveal_strlit("sdp");
    reveal_strlit("candidate");
    assert("msg"@[0] != "cmd"@[0]);
    assert("sdp"@[0] != "cmd"@[0] && "sdp"@[0] != "msg"@[0]);
    assert("candidate"@.len() != 3);
}

/// A request survives its own JSON: reading back the object that `to_json` makes
/// gives the same request.
pub proof fn lemma_request_json_round_trip(r: RequestView)
    requires
        r.target matches Some(t) ==> t.len() == 12,
    ensures
        request_from_json(request_json(r)) == Some(r),
{
    reveal_strlit("content");
    reveal_strlit("event");
    reveal_strlit("id");
    reveal_strlit("target");
    reveal_strlit("cmd");
    reveal_strlit("msg");
    reveal_strlit("sdp");
    reveal_strlit("candidate");
    let base = seq![
        ("content"@, opt_str(r.content)),
        ("event"@, JsonView::Str(event_name(r.event))),
        ("id"@, JsonView::Str(r.id)),
    ];
    let fields = match r.target {
        Some(t) => base.push(("target"@, JsonView::Str(crate::objectid::hex_encode(t)))),
        None => base,
    };
    assert(request_json(r) == JsonView::Object(fields));
    assert(fields[0].0 == "content"@ && fields[1].0 == "event"@ && fields[2].0 == "id"@);
    assert("content"@.len() == 7 && "event"@.len() == 5 && "id"@.len() == 2 && "target"@.len() == 6);
    assert(is_last_key(fields, "content"@, 0));
    lemma_last_key_unique(fields, "content"@, 0);
    assert(is_last_key(fields, "event"@, 1));
    lemma_last_key_unique(fields, "event"@, 1);
    assert(is_last_key(fields, "id"@, 2));
    lemma_last_key_unique(fields, "id"@, 2);
    lemma_event_name_round_trip(r.event);
    match r.target {
        Some(t) => {
            assert(is_last_key(fields, "target"@, 3));
            lemma_last_key_unique(fields, "target"@, 3);
            crate::objectid::lemma_hex_round_trip(t);
            assert(is_object_id_text(crate::objectid::hex_encode(t)));
        },
        None => {
            assert forall|i: int| 0 <= i < fields.len() implies fields[i].0 != "target"@ by {}
            assert(get_field(fields, "target"@) is None);
        },
    }
}

/// The result a request was waiting for, or the error it got; each tagged with the
/// request's id.
#[derive(Clone, Debug)]
pub enum Response {
    Success(Option<String>, JsonValue),
    Error(Option<String>, JsonValue),
}

/// The mathematical value of a `Response`.
pub enum ResponseView {
    Success(Option<Seq<char>>, JsonView),
    Error(Option<Seq<char>>, JsonView),
}

/// The view of an optional string.
pub open spec fn opt_view(s: Option<String>) -> Option<Seq<char>> {
    match s {
        Some(t) => Some(t@),
        None => None,
    }
}

impl View for Response {
    type V = ResponseView;

    open spec fn view(&self) -> ResponseView {
        match self {
            Response::Success(id, result) => ResponseView::Success(opt_view(*id), result@),
            Response::Error(id, error) => ResponseView::Error(opt_view(*id), error@),
        }
    }
}

/// The JSON object of a response: `id` and `result`, or `error` and `id`.
pub open spec fn response_json(r: ResponseView) -> JsonView {
    match r {
        ResponseView::Success(id, result) => JsonView::Object(seq![("id"@, opt_str(id)), ("result"@, result)]),
        ResponseView::Error(id, error) => JsonView::Object(seq![("error"@, error), ("id"@, opt_str(id))]),
    }
}

/// The error object that the server answers with: a code and a message.
pub open spec fn error_json(code: u64, message: Seq<char>) -> JsonView {
    JsonView::Object(seq![("code"@, JsonView::U64(code)), ("message"@, JsonView::Str(message))])
}

/// The error code and message of a command that does not exist.
pub open spec fn unknown_command() -> JsonView {
    error_json(404, "指令不存在"@)
}

/// The error of a target that is not connected.
pub open spec fn unknown_target() -> JsonView {
    error_json(404, "目标不存在"@)
}

/// The error of a request that names no target.
pub open spec fn missing_target() -> JsonView {
    error_json(400, "未指定目标"@)
}

/// The error of an event that the server does not handle.
pub open spec fn not_implemented() -> JsonView {
    error_json(500, "功能未实现"@)
}

/// An error's fields: a code and a message.
#[derive(Clone, Debug)]
pub struct ErrorResult {
    code: usize,
    message: Option<String>,
}

fn error_object(code: u64, message: &str) -> (r: JsonValue)
    ensures
        r@ == error_json(code as u64, message@),
{
    let mut fields: Vec<(String, JsonValue)> = Vec::new();
    push_field(&mut fields, "code", JsonValue::U64(code));
    push_field(&mut fields, "message", JsonValue::Str(message.to_owned()));
    proof {
        lemma_object_view(fields);
        assert(entries_view(fields@) =~= seq![("code"@, JsonView::U64(code)), ("message"@, JsonView::Str(message@))]);
    }
    JsonValue::Object(fields)
}

impl Response {
    /// The response's JSON object.
    pub fn to_json(&self) -> (r: JsonValue)
        ensures
            r@ == response_json(self@),
    {
        let mut fields: Vec<(String, JsonValue)> = Vec::new();
        match self {
            Response::Success(id, result) => {
                push_field(&mut fields, "id", optional_string(id));
                push_field(&mut fields, "result", result.clone());
                assert(entries_view(fields@) =~= seq![("id"@, opt_str(opt_view(*id))), ("result"@, result@)]);
            },
            Response::Error(id, error) => {
                push_field(&mut fields, "error", error.clone());
                push_field(&mut fields, "id", optional_string(id));
                assert(entries_view(fields@) =~= seq![("error"@, error@), ("id"@, opt_str(opt_view(*id)))]);
            },
        }
        proof {
            lemma_object_view(fields);
        }
        JsonValue::Object(fields)
    }
}

/// A JSON string, or `null` for `None`.
fn optional_string(s: &Option<String>) -> (r: JsonValue)
    ensures
        r@ == opt_str(opt_view(*s)),
{
    match s {
        Some(t) => JsonValue::Str(t.clone()),
        None => JsonValue::Null,
    }
}

/// The registry holds an identifier with the bytes `t`.
pub open spec fn has_id(registry: Seq<ObjectId>, t: Seq<u8>) -> bool {
    exists|i: int| 0 <= i < registry.len() && registry[i].id_bytes() == t
}

/// The identifiers of the registry other than `from`, in the registry's order,
/// each as a JSON string of its text.
pub open spec fn other_peers(registry: Seq<ObjectId>, from: ObjectId) -> Seq<JsonView>
    decreases registry.len(),
{
    if registry.len() == 0 {
        Seq::empty()
    } else {
        let rest = other_peers(registry.drop_last(), from);
        if registry.last() == from {
            rest
        } else {
            rest.push(JsonView::Str(registry.last().hex()))
        }
    }
}

/// What the server passes on to a request's target: the request's object with
/// the sender's identifier added as `from`, in key order.
pub open spec fn forward_json(r: RequestView, from: ObjectId) -> JsonView {
    let base = seq![
        ("content"@, opt_str(r.content)),
        ("event"@, JsonView::Str(event_name(r.event))),
        ("from"@, JsonView::Str(from.hex())),
        ("id"@, JsonView::Str(r.id)),
    ];
    match r.target {
        Some(t) => JsonView::Object(base.push(("target"@, JsonView::Str(crate::objectid::hex_encode(t))))),
        None => JsonView::Object(base),
    }
}

/// The response to a request from `from`, where the registry holds the connected peers.
pub open spec fn route_response(r: RequestView, registry: Seq<ObjectId>, from: ObjectId) -> ResponseView {
    match r.event {
        Event::Cmd => if r.content == Some("peers"@) {
            ResponseView::Success(Some(r.id), JsonView::Array(other_peers(registry, from)))
        } else {
            ResponseView::Error(Some(r.id), unknown_command())
        },
        Event::Msg => ResponseView::Error(Some(r.id), not_implemented()),
        Event::Sdp | Event::Candidate => match r.target {
            Some(t) => if has_id(registry, t) {
                ResponseView::Success(Some(r.id), JsonView::Str("ok"@))
            } else {
                ResponseView::Error(Some(r.id), unknown_target())
            },
            None => ResponseView::Error(Some(r.id), missing_target()),
        },
    }
}

/// What the server passes on for a request, and to whom: an `sdp` or `candidate`
/// request goes to its target where the target is connected.
pub open spec fn route_forward(r: RequestView, registry: Seq<ObjectId>, from: ObjectId) -> Option<(Seq<u8>, JsonView)> {
    match r.event {
        Event::Sdp | Event::Candidate => match r.target {
            Some(t) => if has_id(registry, t) {
                Some((t, forward_json(r, from)))
            } else {
                None
            },
            None => None,
        },
        _ => None,
    }
}

/// Two identifiers with the same text are the same identifier.
pub proof fn lemma_hex_injective(a: ObjectId, b: ObjectId)
    requires
        a.hex() == b.hex(),
    ensures
        a == b,
{
    broadcast use vstd::array::group_array_axioms;
    crate::objectid::lemma_object_id_text_round_trip(a);
    crate::objectid::lemma_object_id_text_round_trip(b);
    assert(a.bytes@ == b.bytes@);
    assert forall|i: int| 0 <= i < 12 implies a.bytes[i] == b.bytes[i] by {
        assert(a.bytes@[i] == b.bytes@[i]);
    }
    assert(a.bytes =~= b.bytes);
}

/// The list of peers that a `peers` command gets back never names the peer that
/// asked, and names every other peer of the registry.
pub proof fn lemma_other_peers(registry: Seq<ObjectId>, from: ObjectId)
    ensures
        !other_peers(registry, from).contains(JsonView::Str(from.hex())),
        forall|i: int|
            0 <= i < registry.len() && registry[i] != from ==> other_peers(registry, from).contains(
                JsonView::Str(#[trigger] registry[i].hex()),
            ),
    decreases registry.len(),
{
    if registry.len() > 0 {
        let rest = registry.drop_last();
        lemma_other_peers(rest, from);
        let l = other_peers(registry, from);
        let lr = other_peers(rest, from);
        if registry.last() != from {
            assert(l == lr.push(JsonView::Str(registry.last().hex())));
            if JsonView::Str(registry.last().hex()) == JsonView::Str(from.hex()) {
                lemma_hex_injective(registry.last(), from);
            }
            assert forall|x: JsonView| l.contains(x) implies x == JsonView::Str(registry.last().hex())
                || lr.contains(x) by {
                let k = choose|k: int| 0 <= k < l.len() && l[k] == x;
                if k < lr.len() {
                    assert(lr[k] == x);
                }
            }
            assert forall|i: int| 0 <= i < registry.len() && registry[i] != from implies l.contains(
                JsonView::Str(#[trigger] registry[i].hex()),
            ) by {
                if i == registry.len() - 1 {
                    assert(l[lr.len() as int] == JsonView::Str(registry[i].hex()));
                } else {
                    assert(rest[i] == registry[i]);
                    let k = choose|k: int| 0 <= k < lr.len() && lr[k] == JsonView::Str(registry[i].hex());
                    assert(l[k] == lr[k]);
                }
            }
        } else {
            assert forall|i: int| 0 <= i < registry.len() && registry[i] != from implies l.contains(
                JsonView::Str(#[trigger] registry[i].hex()),
            ) by {
                assert(i < registry.len() - 1);
                assert(rest[i] == registry[i]);
            }
        }
    }
}

/// What a target gets passed on reads back as the request that was sent: the
/// added `from` field changes none of it.
pub proof fn lemma_forward_reads_as_request(r: RequestView, from: ObjectId)
    requires
        r.target matches Some(t) ==> t.len() == 12,
    ensures
        request_from_json(forward_json(r, from)) == Some(r),
{
    reveal_strlit("content");
    reveal_strlit("event");
    reveal_strlit("from");
    reveal_strlit("id");
    reveal_strlit("target");
    let base = seq![
        ("content"@, opt_str(r.content)),
        ("event"@, JsonView::Str(event_name(r.event))),
        ("from"@, JsonView::Str(from.hex())),
        ("id"@, JsonView::Str(r.id)),
    ];
    let fields = match r.target {
        Some(t) => base.push(("target"@, JsonView::Str(crate::objectid::hex_encode(t)))),
        None => base,
    };
    assert(forward_json(r, from) == JsonView::Object(fields));
    assert(fields[0].0 == "content"@ && fields[1].0 == "event"@ && fields[2].0 == "from"@ && fields[3].0 == "id"@);
    assert("content"@.len() == 7 && "event"@.len() == 5 && "from"@.len() == 4 && "id"@.len() == 2);
    assert("target"@.len() == 6);
    assert(is_last_key(fields, "content"@, 0));
    lemma_last_key_unique(fields, "content"@, 0);
    assert(is_last_key(fields, "event"@, 1));
    lemma_last_key_unique(fields, "event"@, 1);
    assert(is_last_key(fields, "id"@, 3));
    lemma_last_key_unique(fields, "id"@, 3);
    lemma_event_name_round_trip(r.event);
    match r.target {
        Some(t) => {
            assert(is_last_key(fields, "target"@, 4));
            lemma_last_key_unique(fields, "target"@, 4);
            crate::objectid::lemma_hex_round_trip(t);
        },
        None => {
            assert forall|i: int| 0 <= i < fields.len() implies fields[i].0 != "target"@ by {}
        },
    }
}

/// Every response the server gives to a request carries that request's id.
pub proof fn lemma_response_carries_id(r: RequestView, registry: Seq<ObjectId>, from: ObjectId)
    ensures
        match route_response(r, registry, from) {
            ResponseView::Success(id, _) => id == Some(r.id),
            ResponseView::Error(id, _) => id == Some(r.id),
        },
        route_forward(r, registry, from) is Some ==> route_response(r, registry, from) is Success,
{
}

/// The fields of a request's JSON object hold what the request's getters give:
/// its content (`null` where it has none), the name of its event, its id, and the
/// text of its target where it has one (and no `target` field where it has none).
/// A response's object holds its id and its result or its error.
pub proof fn lemma_message_json_fields(r: RequestView, resp: ResponseView)
    ensures
        request_json(r) is Object,
        get_field(request_json(r)->Object_0, "content"@) == Some(opt_str(r.content)),
        get_field(request_json(r)->Object_0, "event"@) == Some(JsonView::Str(event_name(r.event))),
        get_field(request_json(r)->Object_0, "id"@) == Some(JsonView::Str(r.id)),
        r.target matches Some(t) ==> get_field(request_json(r)->Object_0, "target"@) == Some(
            JsonView::Str(crate::objectid::hex_encode(t)),
        ),
        r.target is None ==> get_field(request_json(r)->Object_0, "target"@) is None,
        response_json(resp) is Object,
        resp matches ResponseView::Success(id, v) ==> get_field(response_json(resp)->Object_0, "id"@) == Some(
            opt_str(id),
        ) && get_field(response_json(resp)->Object_0, "result"@) == Some(v) && get_field(
            response_json(resp)->Object_0,
            "error"@,
        ) is None,
        resp matches ResponseView::Error(id, e) ==> get_field(response_json(resp)->Object_0, "id"@) == Some(
            opt_str(id),
        ) && get_field(response_json(resp)->Object_0, "error"@) == Some(e) && get_field(
            response_json(resp)->Object_0,
            "result"@,
        ) is None,
{
    reveal_strlit("content");
    reveal_strlit("event");
    reveal_strlit("id");
    reveal_strlit("target");
    reveal_strlit("result");
    reveal_strlit("error");
    assert("content"@[0] == 'c' && "event"@[0] == 'e' && "id"@[0] == 'i' && "target"@[0] == 't');
    assert("result"@[0] == 'r' && "error"@[0] == 'e' && "event"@.len() == 5 && "error"@.len() == 5);
    assert("event"@[1] == 'v' && "error"@[1] == 'r');
    let f = request_json(r)->Object_0;
    lemma_get_field_at(f, 0);
    lemma_get_field_at(f, 1);
    lemma_get_field_at(f, 2);
    if r.target is Some {
        lemma_get_field_at(f, 3);
    } else {
        assert forall|i: int| 0 <= i < f.len() implies f[i].0 != "target"@ by {
            assert(f[i].0[0] != "target"@[0]);
        }
    }
    let g = response_json(resp)->Object_0;
    lemma_get_field_at(g, 0);
    lemma_get_field_at(g, 1);
    match resp {
        ResponseView::Success(_, _) => {
            assert forall|i: int| 0 <= i < g.len() implies g[i].0 != "error"@ by {
                assert(g[i].0[0] != "error"@[0]);
            }
        },
        ResponseView::Error(_, _) => {
            assert forall|i: int| 0 <= i < g.len() implies g[i].0 != "result"@ by {
                assert(g[i].0[0] != "result"@[0]);
            }
        },
    }
}

/// How the server answers an `sdp` or `candidate` request:
/// - where the target is connected, the sender is answered `"ok"` and the target
///   is passed an object that reads back as the same request, with the sender's
///   identifier under `from`;
/// - where the target is not connected, the sender gets the error 404
///   "目标不存在" and nothing is passed on;
/// - where the request names no target, the sender gets the error 400 "未指定目标"
///   and nothing is passed on.
/// So the answer is a success exactly where something is passed on.
pub proof fn lemma_relay(r: RequestView, registry: Seq<ObjectId>, from: ObjectId)
    requires
        r.event == Event::Sdp || r.event == Event::Candidate,
        r.target matches Some(t) ==> t.len() == 12,
    ensures
        r.target is Some && (exists|i: int|
            0 <= i < registry.len() && registry[i].id_bytes() == r.target.unwrap()) ==> {
            &&& route_response(r, registry, from) == ResponseView::Success(Some(r.id), JsonView::Str("ok"@))
            &&& route_forward(r, registry, from) is Some
            &&& route_forward(r, registry, from).unwrap().0 == r.target.unwrap()
            &&& request_from_json(route_forward(r, registry, from).unwrap().1) == Some(r)
            &&& route_forward(r, registry, from).unwrap().1 is Object
            &&& get_field(route_forward(r, registry, from).unwrap().1->Object_0, "from"@) == Some(
                JsonView::Str(from.hex()),
            )
        },
        r.target is Some && (forall|i: int|
            0 <= i < registry.len() ==> registry[i].id_bytes() != r.target.unwrap()) ==> {
            &&& route_response(r, registry, from) == ResponseView::Error(
                Some(r.id),
                JsonView::Object(seq![("code"@, JsonView::U64(404)), ("message"@, JsonView::Str("目标不存在"@))]),
            )
            &&& route_forward(r, registry, from) is None
        },
        r.target is None ==> {
            &&& route_response(r, registry, from) == ResponseView::Error(
                Some(r.id),
                JsonView::Object(seq![("code"@, JsonView::U64(400)), ("message"@, JsonView::Str("未指定目标"@))]),
            )
            &&& route_forward(r, registry, from) is None
        },
        (route_response(r, registry, from) is Success) <==> (route_forward(r, registry, from) is Some),
{
    if let Some(t) = r.target {
        if exists|i: int| 0 <= i < registry.len() && registry[i].id_bytes() == t {
            lemma_forward_reads_as_request(r, from);
            reveal_strlit("content");
            reveal_strlit("event");
            reveal_strlit("from");
            reveal_strlit("id");
            reveal_strlit("target");
            let f = forward_json(r, from)->Object_0;
            assert(f[2].0 == "from"@ && f[3].0 == "id"@ && f[4].0 == "target"@);
            assert("from"@.len() == 4 && "id"@.len() == 2 && "target"@.len() == 6);
            lemma_get_field_at(f, 2);
        }
    }
}

/// How the server answers the other requests: `msg` gets the error 500
/// "功能未实现"; `cmd` with the content `peers` gets the list of the other
/// connected peers, and any other `cmd` the error 404 "指令不存在". Nothing of
/// these is passed on.
pub proof fn lemma_commands(r: RequestView, registry: Seq<ObjectId>, from: ObjectId)
    ensures
        r.event == Event::Msg ==> route_response(r, registry, from) == ResponseView::Error(
            Some(r.id),
            JsonView::Object(seq![("code"@, JsonView::U64(500)), ("message"@, JsonView::Str("功能未实现"@))]),
        ),
        r.event == Event::Cmd && r.content == Some("peers"@) ==> {
            &&& route_response(r, registry, from) is Success
            &&& route_response(r, registry, from)->Success_0 == Some(r.id)
            &&& route_response(r, registry, from)->Success_1 is Array
            &&& !route_response(r, registry, from)->Success_1->Array_0.contains(JsonView::Str(from.hex()))
            &&& forall|i: int|
                0 <= i < registry.len() && registry[i] != from ==> route_response(r, registry, from)->Success_1->Array_0.contains(
                    JsonView::Str(#[trigger] registry[i].hex()),
                )
        },
        r.event == Event::Cmd && r.content != Some("peers"@) ==> route_response(r, registry, from) == ResponseView::Error(
            Some(r.id),
            JsonView::Object(seq![("code"@, JsonView::U64(404)), ("message"@, JsonView::Str("指令不存在"@))]),
        ),
        r.event == Event::Msg || r.event == Event::Cmd ==> route_forward(r, registry, from) is None,
{
    lemma_other_peers(registry, from);
}

/// A message for another peer: its identifier, and the text to send it.
pub struct Forward {
    pub target: ObjectId,
    pub text: String,
}

/// What the server does with a request: the response to the sender, and what it
/// passes on to another peer, if anything.
pub struct Outcome {
    pub response: Response,
    pub forward: Option<Forward>,
}

fn registry_has(registry: &Vec<ObjectId>, t: &ObjectId) -> (r: bool)
    ensures
        r == has_id(registry@, t.id_bytes()),
{
    let mut i: usize = 0;
    while i < registry.len()
        invariant
            i <= registry@.len(),
            forall|j: int| 0 <= j < i ==> registry@[j].id_bytes() != t.id_bytes(),
        decreases registry@.len() - i,
    {
        if registry[i].same_as(t) {
            return true;
        }
        i = i + 1;
    }
    false
}

fn other_peer_list(registry: &Vec<ObjectId>, from: &ObjectId) -> (r: Vec<JsonValue>)
    ensures
        items_view(r@) == other_peers(registry@, *from),
{
    let mut out: Vec<JsonValue> = Vec::new();
    let mut i: usize = 0;
    while i < registry.len()
        invariant
            i <= registry@.len(),
            items_view(out@) == other_peers(registry@.take(i as int), *from),
        decreases registry@.len() - i,
    {
        proof {
            assert(registry@.take(i + 1).drop_last() =~= registry@.take(i as int));
        }
        if !registry[i].same_as(from) {
            out.push(registry[i].to_json());
        }
        proof {
            assert(items_view(out@) =~= other_peers(registry@.take(i + 1), *from));
        }
        i = i + 1;
    }
    proof {
        assert(registry@.take(registry@.len() as int) =~= registry@);
    }
    out
}

fn forward_object(req: &Request, from: &ObjectId) -> (r: JsonValue)
    ensures
        r@ == forward_json(req@, *from),
{
    let mut fields: Vec<(String, JsonValue)> = Vec::new();
    push_field(&mut fields, "content", optional_string(&req.content));
    push_field(&mut fields, "event", req.event.to_json());
    push_field(&mut fields, "from", from.to_json());
    push_field(&mut fields, "id", JsonValue::Str(req.id.clone()));
    match &req.target {
        Some(t) => {
            push_field(&mut fields, "target", t.to_json());
        },
        None => {},
    }
    proof {
        lemma_object_view(fields);
        let base = seq![
            ("content"@, opt_str(req@.content)),
            ("event"@, JsonView::Str(event_name(req@.event))),
            ("from"@, JsonView::Str(from.hex())),
            ("id"@, JsonView::Str(req@.id)),
        ];
        match req@.target {
            Some(t) => {
                assert(entries_view(fields@) =~= base.push(("target"@, JsonView::Str(crate::objectid::hex_encode(t)))));
            },
            None => {
                assert(entries_view(fields@) =~= base);
            },
        }
    }
    JsonValue::Object(fields)
}

impl Response {
    /// How the server answers `req` from `from`, where `registry` lists the peers
    /// that are connected: the response, and what goes on to another peer.
    pub fn from_request(req: &Request, registry: &Vec<ObjectId>, from: ObjectId) -> (r: Result<Outcome, ()>)
        ensures
            match r {
                Ok(out) => {
                    &&& out.response@ == route_response(req@, registry@, from)
                    &&& match out.forward {
                        Some(f) => route_forward(req@, registry@, from) == Some(
                            (f.target.id_bytes(), forward_json(req@, from)),
                        ) && f.text@ == json_encode(forward_json(req@, from)),
                        None => route_forward(req@, registry@, from) is None,
                    }
                },
                Err(_) => false,
            },
    {
        let id = Some(req.id.clone());
        match req.event {
            Event::Cmd => {
                let is_peers = match &req.content {
                    Some(c) => str_eq(c.as_str(), "peers"),
                    None => false,
                };
                if is_peers {
                    let peers = other_peer_list(registry, &from);
                    proof {
                        lemma_array_view(peers);
                    }
                    Ok(Outcome { response: Response::Success(id, JsonValue::Array(peers)), forward: None })
                } else {
                    Ok(Outcome { response: Response::Error(id, error_object(404, "指令不存在")), forward: None })
                }
            },
            Event::Msg => {
                Ok(Outcome { response: Response::Error(id, error_object(500, "功能未实现")), forward: None })
            },
            Event::Sdp | Event::Candidate => {
                match &req.target {
                    Some(t) => {
                        if registry_has(registry, t) {
                            let payload = forward_object(req, &from);
                            let text = payload.to_string();
                            Ok(Outcome {
                                response: Response::Success(id, JsonValue::Str("ok".to_owned())),
                                forward: Some(Forward { target: *t, text }),
                            })
                        } else {
                            Ok(Outcome { response: Response::Error(id, error_object(404, "目标不存在")), forward: None })
                        }
                    },
                    None => {
                        Ok(Outcome { response: Response::Error(id, error_object(400, "未指定目标")), forward: None })
                    },
                }
            },
        }
    }
}

} // verus!
