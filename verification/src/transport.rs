//! What one connection does with the messages that it receives: which are requests, and how their
//! replies are framed.
use crate::dispatcher::{CdpReply, CdpRequest, EventSink, ReplyView};
use crate::json::{no_entries, no_fields, whole, with_fields, Json, JsonView, NumberView};
use crate::json_text::{json_of_text, parse_json};
use vstd::prelude::*;

verus! {

/// The path prefix of a target's WebSocket.
pub open spec fn page_path(id: Seq<char>) -> Seq<char> {
    "/devtools/page/"@ + id
}

/// What a request says.
pub struct RequestView {
    pub id: int,
    pub method: Seq<char>,
    pub params: JsonView,
}

impl View for CdpRequest {
    type V = RequestView;

    open spec fn view(&self) -> RequestView {
        RequestView { id: self.id as int, method: self.method@, params: self.params@ }
    }
}

/// The request that a JSON value is: one with an unsigned id and a method. Parameters that are
/// not given are an empty object.
pub open spec fn request_of(value: JsonView) -> Option<RequestView> {
    match (value.unsigned_field("id"@), value.string_field("method"@)) {
        (Some(id), Some(method)) => Some(
            RequestView {
                id,
                method,
                params: match value.field("params"@) {
                    Some(params) => params,
                    None => no_entries(),
                },
            },
        ),
        _ => None,
    }
}

/// The request that a text is.
pub open spec fn request_of_text(text: Seq<char>) -> Option<RequestView> {
    match json_of_text(text) {
        Some(value) => request_of(value),
        None => None,
    }
}

/// Takes a JSON value as a request.
pub fn request_from(value: &Json) -> (request: Option<CdpRequest>)
    ensures
        request is Some == request_of(value@) is Some,
        request matches Some(r) ==> r@ == request_of(value@)->0,
{
    match (value.u64_field("id"), value.str_field("method")) {
        (Some(id), Some(method)) => {
            let params = match value.get("params") {
                Some(params) => params.copy(),
                None => Json::empty(),
            };
            Some(CdpRequest { id, method: method.to_owned(), params })
        },
        _ => None,
    }
}

/// Reads a text as a request.
pub fn parse_request(text: &str) -> (request: Option<CdpRequest>)
    ensures
        request is Some == request_of_text(text@) is Some,
        request matches Some(r) ==> r@ == request_of_text(text@)->0,
{
    match parse_json(text) {
        Some(value) => request_from(&value),
        None => None,
    }
}

/// The frame of a reply. A method that no domain answers is acknowledged with an empty result.
pub open spec fn reply_frame(id: int, reply: Option<ReplyView>) -> JsonView {
    match reply {
        Some(ReplyView::Result(value)) => no_entries().with("id"@, whole(id)).with(
            "result"@,
            value,
        ),
        Some(ReplyView::Error { code, message }) => no_entries().with("id"@, whole(id)).with(
            "error"@,
            no_entries().with("code"@, whole(code)).with("message"@, JsonView::Text(message)),
        ),
        None => no_entries().with("id"@, whole(id)).with("result"@, no_entries()),
    }
}

/// The reply of a domain, where one answered.
pub open spec fn reply_views(reply: Option<CdpReply>) -> Option<ReplyView> {
    match reply {
        Some(r) => Some(r@),
        None => None,
    }
}

/// Frames a reply.
pub fn envelope(id: u64, reply: Option<CdpReply>) -> (frame: Json)
    ensures
        frame@ == reply_frame(id as int, reply_views(reply)),
{
    match reply {
        Some(CdpReply::Result(value)) => Json::empty().with("id", Json::unsigned(id)).with(
            "result",
            value,
        ),
        Some(CdpReply::Error { code, message }) => Json::empty().with(
            "id",
            Json::unsigned(id),
        ).with(
            "error",
            Json::empty().with("code", Json::signed(code as i64)).with(
                "message",
                Json::Text(message),
            ),
        ),
        None => Json::empty().with("id", Json::unsigned(id)).with("result", Json::empty()),
    }
}

/// What comes from a connection.
#[derive(Debug)]
pub enum Incoming {
    /// A text message.
    Text(String),
    /// A message of another kind.
    Other,
    /// Reading failed.
    Failed,
    /// The other side is gone.
    Closed,
}

/// What is to be done about it.
#[derive(Debug)]
pub enum NextStep {
    /// Let a domain answer the request, then queue the reply.
    Answer(CdpRequest),
    /// Go on reading. `Ignore` holds whether a text came that is no request.
    Ignore { unreadable: bool },
    /// Release what the domains hold and stop.
    Finish,
}

/// Decides what to do about what came: a text that is a request is answered, everything else that
/// was read is passed over, and a failure ends the connection.
pub fn next_step(incoming: &Incoming) -> (step: NextStep)
    ensures
        step is Answer <==> (incoming matches Incoming::Text(text) && request_of_text(
            text@,
        ) is Some),
        step matches NextStep::Answer(request) ==> (incoming matches Incoming::Text(text)
            && request@ == request_of_text(text@)->0),
        step matches NextStep::Ignore { unreadable } ==> unreadable == (incoming is Text),
        step is Finish <==> (incoming is Failed || incoming is Closed),
{
    match incoming {
        Incoming::Text(text) => match parse_request(text.as_str()) {
            Some(request) => NextStep::Answer(request),
            None => NextStep::Ignore { unreadable: true },
        },
        Incoming::Other => NextStep::Ignore { unreadable: false },
        Incoming::Failed => NextStep::Finish,
        Incoming::Closed => NextStep::Finish,
    }
}

/// Queues the reply to a request behind everything that was queued while it was answered.
pub fn finish_request(id: u64, reply: Option<CdpReply>, events: &mut EventSink)
    ensures
        final(events)@ == old(events)@.push(reply_frame(id as int, reply_views(reply))),
{
    events.emit_raw(envelope(id, reply));
}

/// A frame that answers a request bears its id, and holds a result or an error but not both; the
/// reply to a method that no domain answers is an empty result.
pub proof fn reply_bears_the_id(id: int, reply: Option<ReplyView>)
    ensures
        reply_frame(id, reply).field("id"@) == Some(whole(id)),
        reply is None ==> reply_frame(id, reply).field("result"@) == Some(no_entries()),
        reply matches Some(ReplyView::Result(value)) ==> reply_frame(id, reply).field("result"@)
            == Some(value) && reply_frame(id, reply).field("error"@) is None,
        reply matches Some(ReplyView::Error { code, message }) ==> reply_frame(id, reply).field(
            "result"@,
        ) is None && reply_frame(id, reply).field("error"@) is Some,
{
    reveal_strlit("id");
    reveal_strlit("result");
    reveal_strlit("error");
    assert("id"@.len() == 2);
    assert("result"@.len() == 6);
    assert("error"@.len() == 5);
    let empty = no_entries();
    assert(crate::order::look_up(Seq::<(Seq<char>, JsonView)>::empty(), "result"@) is None);
    assert(crate::order::look_up(Seq::<(Seq<char>, JsonView)>::empty(), "error"@) is None);
    let first = empty.with("id"@, whole(id));
    crate::json::with_then_field(empty, "id"@, whole(id), "id"@);
    crate::json::with_then_field(empty, "id"@, whole(id), "result"@);
    crate::json::with_then_field(empty, "id"@, whole(id), "error"@);
    match reply {
        Some(ReplyView::Result(value)) => {
            crate::json::with_then_field(first, "result"@, value, "id"@);
            crate::json::with_then_field(first, "result"@, value, "result"@);
            crate::json::with_then_field(first, "result"@, value, "error"@);
        },
        Some(ReplyView::Error { code, message }) => {
            let error = empty.with("code"@, whole(code)).with(
                "message"@,
                JsonView::Text(message),
            );
            crate::json::with_then_field(first, "error"@, error, "id"@);
            crate::json::with_then_field(first, "error"@, error, "result"@);
            crate::json::with_then_field(first, "error"@, error, "error"@);
        },
        None => {
            crate::json::with_then_field(first, "result"@, empty, "id"@);
            crate::json::with_then_field(first, "result"@, empty, "result"@);
        },
    }
}

/// An error is framed with its code and its message.
pub proof fn errors_are_framed(id: int, code: int, message: Seq<char>)
    ensures
        ({
            let frame = reply_frame(id, Some(ReplyView::Error { code, message }));
            &&& frame.field("error"@) matches Some(error)
            &&& error.field("code"@) == Some(whole(code))
            &&& error.string_field("message"@) == Some(message)
        }),
{
    broadcast use {with_fields, no_fields};
    frame_names();
}

proof fn frame_names()
    ensures
        "id"@ != "error"@,
        "id"@ != "result"@,
        "error"@ != "result"@,
        "code"@ != "message"@,
{
    reveal_strlit("id");
    reveal_strlit("error");
    reveal_strlit("result");
    reveal_strlit("code");
    reveal_strlit("message");
    assert("id"@.len() == 2);
    assert("error"@.len() == 5);
    assert("result"@.len() == 6);
    assert("code"@.len() == 4);
    assert("message"@.len() == 7);
}


/// A message is a request exactly where it has an id, which is an unsigned whole number, and a
/// method, which is a text; whatever parameters it has go along, and without any they are empty.
pub proof fn requests_have_an_id_and_a_method(value: JsonView)
    ensures
        request_of(value) is Some <==> {
            &&& value.field("id"@) matches Some(JsonView::Number(NumberView::Whole(id)))
            &&& 0 <= id < 0x1_0000_0000_0000_0000
            &&& value.field("method"@) matches Some(JsonView::Text(_))
        },
        request_of(value) matches Some(request) ==> value.field("id"@) == Some(whole(request.id))
            && value.field("method"@) == Some(JsonView::Text(request.method)) && (
        value.field("params"@) is Some ==> value.field("params"@) == Some(request.params)) && (
        value.field("params"@) is None ==> request.params == JsonView::Object(seq![])),
{
}

} // verus!
