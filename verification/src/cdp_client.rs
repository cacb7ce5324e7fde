//! The client's side of a connection: what it sends, and what it makes of what it receives.
//!
//! A fault is told as a chain of messages, the outermost first.
use crate::base64_text::{bytes_of_base64, decode_base64, fault_of_base64};
use crate::discovery::{
    debugger_url, device_target, one_address_everywhere, page_url, target_view, DiscoveryConfig,
};
use crate::dispatcher::{event_frame, ReplyView};
use crate::domain_remo::{first_step, outcome_reply, text_array, StepView};
use crate::json::{
    no_entries, no_fields, trees, whole, with_fields, with_then_field, Json, JsonView,
};
use crate::json_text::{
    canonical, canonical_entries, deepest, depth, entry_depths, fault_of_text, json_of_text,
    json_text, plain, read_json, to_text, RAW_VALUE_KEY,
};
use crate::order::{in_order, put, table_of_ordered, text_before};
use crate::text::{joined, joined3, texts};
use crate::transport::{reply_frame, request_of, request_of_text, RequestView};
use vstd::prelude::*;

verus! {

/// The id of the one page that an app has.
pub const DEVTOOLS_PAGE_ID: &'static str = "1";

/// The WebSocket address of the one page at a host and port.
pub fn devtools_url(host_port: &str) -> (url: String)
    ensures
        url@ == page_url(host_port@, DEVTOOLS_PAGE_ID@),
{
    debugger_url(host_port, DEVTOOLS_PAGE_ID)
}

/// The frame of a request.
pub open spec fn request_frame(id: int, method: Seq<char>, params: JsonView) -> JsonView {
    no_entries().with("id"@, whole(id)).with("method"@, JsonView::Text(method)).with(
        "params"@,
        params,
    )
}

/// The entries of a request's frame, in the order of their keys.
pub open spec fn request_entries(id: int, method: Seq<char>, params: JsonView) -> Seq<
    (Seq<char>, JsonView),
> {
    seq![("id"@, whole(id)), ("method"@, JsonView::Text(method)), ("params"@, params)]
}

proof fn request_frame_entries(id: int, method: Seq<char>, params: JsonView)
    ensures
        request_frame(id, method, params) == JsonView::Object(request_entries(id, method, params)),
        in_order(request_entries(id, method, params)),
{
    reveal_strlit("id");
    reveal_strlit("method");
    reveal_strlit("params");
    assert("id"@[0] == 'i' && "method"@[0] == 'm' && "params"@[0] == 'p');
    assert(text_before("id"@, "method"@));
    assert(text_before("id"@, "params"@));
    assert(text_before("method"@, "params"@));
    crate::order::text_before_asymmetric("id"@, "method"@);
    crate::order::text_before_asymmetric("id"@, "params"@);
    crate::order::text_before_asymmetric("method"@, "params"@);
    let none: Seq<(Seq<char>, JsonView)> = seq![];
    let a = put(none, "id"@, whole(id));
    assert(a =~= seq![("id"@, whole(id))]);
    let m = JsonView::Text(method);
    assert(a.drop_first() =~= none);
    assert(put(none, "method"@, m) =~= seq![("method"@, m)]);
    let b = put(a, "method"@, m);
    assert(b =~= seq![("id"@, whole(id)), ("method"@, m)]);
    assert(b.drop_first() =~= seq![("method"@, m)]);
    assert(b.drop_first().drop_first() =~= none);
    assert(put(none, "params"@, params) =~= seq![("params"@, params)]);
    assert(put(b.drop_first(), "params"@, params) =~= seq![("method"@, m), ("params"@, params)]);
    let c = put(b, "params"@, params);
    assert(c =~= request_entries(id, method, params));
}

/// A request's frame is canonical where its parameters are, nests one container more than they do,
/// and reads as the request.
proof fn request_frame_reads(id: int, method: Seq<char>, params: JsonView)
    requires
        0 <= id <= u64::MAX,
    ensures
        canonical(request_frame(id, method, params)) == request_frame(
            id,
            method,
            canonical(params),
        ),
        plain(params) ==> plain(request_frame(id, method, params)),
        depth(request_frame(id, method, params)) == 1 + (if depth(params) > 0 {
            depth(params)
        } else {
            0
        }),
        request_of(request_frame(id, method, params)) == Some(RequestView { id, method, params }),
{
    request_frame_entries(id, method, params);
    request_frame_entries(id, method, canonical(params));
    let frame = request_frame(id, method, params);
    let entries = request_entries(id, method, params);
    assert(frame->Object_0 == entries);
    assert(canonical(whole(id)) == whole(id));
    assert(canonical(JsonView::Text(method)) == JsonView::Text(method));
    assert(canonical_entries(entries) =~= request_entries(id, method, canonical(params)));
    table_of_ordered(request_entries(id, method, canonical(params)));
    assert(plain(whole(id)));
    assert(plain(JsonView::Text(method)));
    assert(entries[0].0 != RAW_VALUE_KEY@) by {
        reveal_strlit("id");
        reveal_strlit("$serde_json::private::RawValue");
        assert("id"@.len() == 2);
        assert(RAW_VALUE_KEY@.len() == 30);
    }
    let depths = entry_depths(entries);
    assert(depth(whole(id)) == 0);
    assert(depth(JsonView::Text(method)) == 0);
    assert(depths =~= seq![0int, 0, depth(params)]);
    assert(depths.drop_last() =~= seq![0int, 0]);
    assert(seq![0int, 0].drop_last() =~= seq![0int]);
    assert(seq![0int].drop_last() =~= Seq::<int>::empty());
    assert(deepest(Seq::<int>::empty()) == 0);
    assert(deepest(seq![0int]) == 0);
    assert(deepest(seq![0int, 0]) == 0);
    assert(depth(frame) == 1 + deepest(depths));
    reveal_strlit("id");
    reveal_strlit("method");
    reveal_strlit("params");
    assert("id"@.len() == 2 && "method"@.len() == 6 && "params"@.len() == 6);
    assert("method"@[0] == 'm' && "params"@[0] == 'p');
    let first = no_entries().with("id"@, whole(id));
    let second = first.with("method"@, JsonView::Text(method));
    with_then_field(no_entries(), "id"@, whole(id), "id"@);
    with_then_field(first, "method"@, JsonView::Text(method), "id"@);
    with_then_field(first, "method"@, JsonView::Text(method), "method"@);
    with_then_field(second, "params"@, params, "id"@);
    with_then_field(second, "params"@, params, "method"@);
    with_then_field(second, "params"@, params, "params"@);
}

/// A request that was made and waits for its reply.
#[derive(Debug)]
pub struct OpenCall {
    /// The id that the reply will bear.
    pub id: u64,
    /// What is sent.
    pub frame: String,
}

/// Whether a call is the one of a method with parameters. Where the parameters are plain and nest
/// no more than 126 containers, the frame is read as just that request.
pub open spec fn calls(call: OpenCall, method: Seq<char>, params: JsonView) -> bool {
    &&& call.frame@ == json_text(request_frame(call.id as int, method, canonical(params)))
    &&& plain(canonical(params)) && depth(canonical(params)) <= 126 ==> request_of_text(call.frame@)
        == Some(RequestView { id: call.id as int, method, params: canonical(params) })
}

/// What is known after a message was received.
#[derive(Debug)]
pub enum CallStep {
    /// The message was not the reply.
    Wait,
    Done(Json),
    Failed(Vec<String>),
}

/// What is known after a message was received.
#[verifier::ext_equal]
pub enum CallStepView {
    Wait,
    Done(JsonView),
    Failed(Seq<Seq<char>>),
}

impl View for CallStep {
    type V = CallStepView;

    open spec fn view(&self) -> CallStepView {
        match self {
            CallStep::Wait => CallStepView::Wait,
            CallStep::Done(value) => CallStepView::Done(value@),
            CallStep::Failed(chain) => CallStepView::Failed(texts(chain@)),
        }
    }
}

/// What a message says to the call of an id.
pub open spec fn answer_of(message: JsonView, id: int) -> CallStepView {
    if message.unsigned_field("id"@) != Some(id) {
        CallStepView::Wait
    } else {
        match message.field("error"@) {
            Some(error) => CallStepView::Failed(
                seq![
                    match error.string_field("message"@) {
                        Some(text) => text,
                        None => "unknown CDP error"@,
                    },
                ],
            ),
            None => CallStepView::Done(message.field_or_null("result"@)),
        }
    }
}

/// What a text that was received says to the call of an id.
pub open spec fn answer_of_text(text: Seq<char>, id: int) -> CallStepView {
    match json_of_text(text) {
        Some(message) => answer_of(message, id),
        None => CallStepView::Failed(
            seq!["unparseable CDP frame: "@ + text, fault_of_text(text)],
        ),
    }
}

/// Makes what it can of a message that was received while the call of an id is open.
pub fn answer(id: u64, message: &Json) -> (step: CallStep)
    ensures
        step@ == answer_of(message@, id as int),
{
    match message.u64_field("id") {
        Some(found) => if found != id {
            return CallStep::Wait;
        },
        None => {
            return CallStep::Wait;
        },
    }
    match message.get("error") {
        Some(error) => {
            let chain = match error.str_field("message") {
                Some(text) => vec![text.to_owned()],
                None => vec!["unknown CDP error".to_owned()],
            };
            assert(texts(chain@) =~= answer_of(message@, id as int)->Failed_0);
            CallStep::Failed(chain)
        },
        None => CallStep::Done(message.field_or_null("result")),
    }
}

/// Makes what it can of a text that was received while the call of an id is open.
pub fn receive(id: u64, text: &str) -> (step: CallStep)
    ensures
        step@ == answer_of_text(text@, id as int),
{
    match read_json(text) {
        Err(fault) => {
            let chain = vec![joined("unparseable CDP frame: ", text), fault];
            assert(texts(chain@) =~= seq![
                "unparseable CDP frame: "@ + text@,
                fault_of_text(text@),
            ]);
            CallStep::Failed(chain)
        },
        Ok(message) => answer(id, &message),
    }
}

/// What a call comes to where the connection closes before its reply.
pub fn closed() -> (chain: Vec<String>)
    ensures
        texts(chain@) == seq!["CDP connection closed before a reply arrived"@],
{
    let chain = vec!["CDP connection closed before a reply arrived".to_owned()];
    assert(texts(chain@) =~= seq!["CDP connection closed before a reply arrived"@]);
    chain
}

/// The parameters of an invocation.
pub open spec fn invocation(name: Seq<char>, args: JsonView) -> JsonView {
    no_entries().with("name"@, JsonView::Text(name)).with("args"@, args)
}

/// A client on one connection, which numbers its calls.
#[derive(Debug)]
pub struct CdpClient {
    next_id: u64,
}

impl CdpClient {
    /// The id of the next call.
    pub closed spec fn next(&self) -> u64 {
        self.next_id
    }

    /// A client that has made no call.
    pub fn new() -> (client: CdpClient)
        ensures
            client.next() == 1,
    {
        CdpClient { next_id: 1 }
    }

    /// Whether there is an id for another call.
    pub fn can_call(&self) -> (can: bool)
        ensures
            can == (self.next() < u64::MAX),
    {
        self.next_id < u64::MAX
    }

    /// Makes a call of a method.
    pub fn call(&mut self, method: &str, params: Json) -> (call: OpenCall)
        requires
            old(self).next() < u64::MAX,
        ensures
            call.id == old(self).next(),
            calls(call, method@, params@),
            final(self).next() == old(self).next() + 1,
    {
        let id: u64 = self.next_id;
        self.next_id = id + 1;
        let ghost given = params@;
        let frame = Json::empty().with("id", Json::unsigned(id)).with(
            "method",
            Json::text(method),
        ).with("params", params);
        let text = to_text(&frame);
        proof {
            request_frame_reads(id as int, method@, given);
            request_frame_reads(id as int, method@, canonical(given));
        }
        OpenCall { id, frame: text }
    }

    /// Makes the call that invokes a capability.
    pub fn invoke_capability(&mut self, name: &str, args: Json) -> (call: OpenCall)
        requires
            old(self).next() < u64::MAX,
        ensures
            call.id == old(self).next(),
            calls(call, "Remo.invoke"@, invocation(name@, args@)),
            final(self).next() == old(self).next() + 1,
    {
        self.call("Remo.invoke", Json::empty().with("name", Json::text(name)).with("args", args))
    }

    /// Makes the call that lists the capabilities.
    pub fn list_capabilities(&mut self) -> (call: OpenCall)
        requires
            old(self).next() < u64::MAX,
        ensures
            call.id == old(self).next(),
            calls(call, "Remo.listCapabilities"@, no_entries()),
            final(self).next() == old(self).next() + 1,
    {
        self.call("Remo.listCapabilities", Json::empty())
    }

    /// Makes the call that captures the screen, with a quality in percent.
    pub fn capture_screenshot(&mut self, format: &str, quality_percent: u64) -> (call: OpenCall)
        requires
            old(self).next() < u64::MAX,
        ensures
            call.id == old(self).next(),
            calls(
                call,
                "Page.captureScreenshot"@,
                no_entries().with("format"@, JsonView::Text(format@)).with(
                    "quality"@,
                    whole(quality_percent as int),
                ),
            ),
            final(self).next() == old(self).next() + 1,
    {
        self.call(
            "Page.captureScreenshot",
            Json::empty().with("format", Json::text(format)).with(
                "quality",
                Json::unsigned(quality_percent),
            ),
        )
    }
}

/// What a capability gave, from what its invocation came to.
pub fn invoked(name: &str, outcome: Result<Json, Vec<String>>) -> (result: Result<
    Json,
    Vec<String>,
>)
    ensures
        match outcome {
            Ok(reply) => result matches Ok(value) && value@ == reply@.field_or_null("result"@),
            Err(chain) => result matches Err(longer) && texts(longer@) == seq![
                "capability '"@ + name@ + "' failed"@,
            ] + texts(chain@),
        },
{
    match outcome {
        Ok(reply) => Ok(reply.field_or_null("result")),
        Err(chain) => {
            let mut longer = chain;
            let ghost before = longer@;
            longer.insert(0, joined3("capability '", name, "' failed"));
            assert(texts(longer@) =~= seq!["capability '"@ + name@ + "' failed"@] + texts(before));
            Err(longer)
        },
    }
}

/// The texts among the items of an array.
pub open spec fn texts_among(items: Seq<JsonView>) -> Seq<Seq<char>>
    decreases items.len(),
{
    if items.len() == 0 {
        seq![]
    } else {
        let front = texts_among(items.drop_last());
        match items.last().string() {
            Some(text) => front.push(text),
            None => front,
        }
    }
}

/// The names that a reply lists.
pub open spec fn names_of(reply: JsonView) -> Option<Seq<Seq<char>>> {
    match reply.field("names"@) {
        Some(value) => match value.items() {
            Some(items) => Some(texts_among(items)),
            None => None,
        },
        None => None,
    }
}

/// The names of the capabilities, from the reply that lists them.
pub fn listed(reply: &Json) -> (result: Result<Vec<String>, String>)
    ensures
        match names_of(reply@) {
            Some(names) => result matches Ok(list) && texts(list@) == names,
            None => result matches Err(message) && message@
                == "Remo.listCapabilities reply missing \"names\" array"@,
        },
{
    if let Some(value) = reply.get("names") {
        if let Some(items) = value.as_array() {
            let ghost all = trees(items@);
            let mut list: Vec<String> = Vec::new();
            assert(texts(list@) =~= texts_among(all.take(0)));
            let mut i: usize = 0;
            while i < items.len()
                invariant
                    i <= items.len(),
                    all == trees(items@),
                    texts(list@) == texts_among(all.take(i as int)),
                decreases items.len() - i,
            {
                assert(all.take(i + 1).drop_last() =~= all.take(i as int));
                assert(all.take(i + 1).last() == items@[i as int]@);
                if let Some(text) = items[i].as_str() {
                    let ghost before = texts(list@);
                    list.push(text.to_owned());
                    assert(texts(list@) =~= before.push(text@));
                }
                i = i + 1;
            }
            assert(all.take(i as int) =~= all);
            return Ok(list);
        }
    }
    Err("Remo.listCapabilities reply missing \"names\" array".to_owned())
}

/// The bytes of a capture, or why there are none: a message, and its cause behind it where it has
/// one.
pub open spec fn shot_of(reply: JsonView) -> Result<Seq<u8>, Seq<Seq<char>>> {
    match reply.string_field("data"@) {
        None => Err(seq!["Page.captureScreenshot reply missing \"data\""@]),
        Some(data) => match bytes_of_base64(data) {
            None => Err(seq!["screenshot data was not valid base64"@, fault_of_base64(data)]),
            Some(bytes) => Ok(bytes),
        },
    }
}

/// The bytes of a capture, from what its data was read as.
pub fn shot(data: Result<Vec<u8>, String>) -> (result: Result<Vec<u8>, Vec<String>>)
    ensures
        match data {
            Ok(bytes) => result == Ok::<Vec<u8>, Vec<String>>(bytes),
            Err(fault) => result matches Err(chain) && texts(chain@) == seq![
                "screenshot data was not valid base64"@,
                fault@,
            ],
        },
{
    match data {
        Ok(bytes) => Ok(bytes),
        Err(fault) => {
            let chain = vec!["screenshot data was not valid base64".to_owned(), fault];
            assert(texts(chain@) =~= seq!["screenshot data was not valid base64"@, fault@]);
            Err(chain)
        },
    }
}

/// The bytes of a capture, from the reply that holds them.
pub fn captured(reply: &Json) -> (result: Result<Vec<u8>, Vec<String>>)
    ensures
        match shot_of(reply@) {
            Ok(bytes) => result matches Ok(list) && list@ == bytes,
            Err(faults) => result matches Err(chain) && texts(chain@) == faults,
        },
{
    match reply.str_field("data") {
        None => {
            let chain = vec!["Page.captureScreenshot reply missing \"data\"".to_owned()];
            assert(texts(chain@) =~= seq!["Page.captureScreenshot reply missing \"data\""@]);
            Err(chain)
        },
        Some(data) => shot(decode_base64(data)),
    }
}

/// The frame that answers a request is taken by the call of its id, which comes to the result or
/// to the error's message, and is passed over by every other call.
pub proof fn reply_reaches_its_call(id: int, reply: Option<ReplyView>, other: int)
    requires
        0 <= id <= u64::MAX,
        other != id,
    ensures
        answer_of(reply_frame(id, reply), other) == CallStepView::Wait,
        answer_of(reply_frame(id, reply), id) == (match reply {
            Some(ReplyView::Result(value)) => CallStepView::Done(value),
            Some(ReplyView::Error { code, message }) => CallStepView::Failed(seq![message]),
            None => CallStepView::Done(no_entries()),
        }),
{
    crate::transport::reply_bears_the_id(id, reply);
    assert(reply_frame(id, reply).unsigned_field("id"@) == Some(id));
    let first = no_entries().with("id"@, whole(id));
    reveal_strlit("id");
    reveal_strlit("error");
    reveal_strlit("result");
    reveal_strlit("message");
    reveal_strlit("code");
    assert("id"@.len() == 2 && "error"@.len() == 5 && "result"@.len() == 6);
    assert("code"@.len() == 4 && "message"@.len() == 7);
    match reply {
        Some(ReplyView::Error { code, message }) => {
            let inner = no_entries().with("code"@, whole(code));
            let error = inner.with("message"@, JsonView::Text(message));
            with_then_field(inner, "message"@, JsonView::Text(message), "message"@);
            with_then_field(first, "error"@, error, "error"@);
            assert(answer_of(reply_frame(id, reply), id)->Failed_0 =~= seq![message]);
        },
        None => {
            with_then_field(no_entries(), "id"@, whole(id), "error"@);
            with_then_field(first, "result"@, no_entries(), "error"@);
            assert(crate::order::look_up(Seq::<(Seq<char>, JsonView)>::empty(), "error"@) is None);
        },
        _ => {},
    }
}

/// An event answers no call.
pub proof fn events_answer_no_call(method: Seq<char>, params: JsonView, id: int)
    ensures
        answer_of(event_frame(method, params), id) == CallStepView::Wait,
{
    reveal_strlit("id");
    reveal_strlit("method");
    reveal_strlit("params");
    assert("id"@.len() == 2 && "method"@.len() == 6 && "params"@.len() == 6);
    let first = no_entries().with("method"@, JsonView::Text(method));
    with_then_field(no_entries(), "method"@, JsonView::Text(method), "id"@);
    with_then_field(first, "params"@, params, "id"@);
    assert(crate::order::look_up(Seq::<(Seq<char>, JsonView)>::empty(), "id"@) is None);
}

/// The parameters of an invocation ask the domain for just that invocation, and from the reply to
/// what the capability gave the client takes the capability's value.
pub proof fn invocation_round_trips(
    name: Seq<char>,
    args: JsonView,
    names: Seq<Seq<char>>,
    value: JsonView,
)
    ensures
        first_step("Remo.invoke"@, invocation(name, args), names) == (StepView::Invoke {
            name,
            args,
            evaluating: false,
        }),
        outcome_reply(name, false, Some(Ok(value))) matches ReplyView::Result(reply)
            && reply.field_or_null("result"@) == value,
{
    reveal_strlit("name");
    reveal_strlit("args");
    reveal_strlit("Remo.listCapabilities");
    reveal_strlit("Remo.invoke");
    assert("Remo.listCapabilities"@.len() == 21 && "Remo.invoke"@.len() == 11);
    assert("name"@[0] == 'n' && "args"@[0] == 'a');
    let first = no_entries().with("name"@, JsonView::Text(name));
    with_then_field(no_entries(), "name"@, JsonView::Text(name), "name"@);
    with_then_field(first, "args"@, args, "name"@);
    with_then_field(first, "args"@, args, "args"@);
    with_then_field(no_entries(), "result"@, value, "result"@);
}

/// The client lists just the names that the domain has.
pub proof fn listing_round_trips(params: JsonView, names: Seq<Seq<char>>)
    ensures
        first_step("Remo.listCapabilities"@, params, names) matches StepView::Reply(
            ReplyView::Result(reply),
        ) && names_of(reply) == Some(names),
{
    with_then_field(no_entries(), "names"@, text_array(names), "names"@);
    all_are_texts(names);
}

proof fn all_are_texts(names: Seq<Seq<char>>)
    ensures
        texts_among(text_array(names)->Array_0) == names,
    decreases names.len(),
{
    let items = text_array(names)->Array_0;
    if names.len() > 0 {
        assert(items.drop_last() =~= text_array(names.drop_last())->Array_0);
        all_are_texts(names.drop_last());
        assert(items.last().string() == Some(names.last()));
        assert(names.drop_last().push(names.last()) =~= names);
    } else {
        assert(texts_among(items) =~= names);
    }
}

/// The message of a call's id ends the call: with the error's message where it has an error, with
/// its result where it has none, and with null where it has neither.
pub proof fn messages_end_their_call(message: JsonView, id: int)
    requires
        message.unsigned_field("id"@) == Some(id),
    ensures
        message.field("error"@) matches Some(error) ==> (answer_of(
            message,
            id,
        ) matches CallStepView::Failed(chain) && chain.len() == 1 && (error.field(
            "message"@,
        ) matches Some(JsonView::Text(text)) ==> chain[0] == text) && (error.field("message"@) is None
            ==> chain[0] == "unknown CDP error"@)),
        message.field("error"@) is None ==> (message.field("result"@) matches Some(value)
            ==> answer_of(message, id) == CallStepView::Done(value)),
        message.field("error"@) is None && message.field("result"@) is None ==> answer_of(
            message,
            id,
        ) == CallStepView::Done(JsonView::Null),
{
}

/// A text that is no JSON fails the call, with the text and why it could not be read.
pub proof fn unreadable_frames_fail(text: Seq<char>, id: int)
    requires
        json_of_text(text) is None,
    ensures
        answer_of_text(text, id) matches CallStepView::Failed(chain) && chain.len() == 2
            && chain[0] == "unparseable CDP frame: "@ + text && chain[1] == fault_of_text(text),
{
}

/// Of a list of JSON values the texts are taken, in turn.
pub proof fn texts_are_taken_in_turn(front: Seq<JsonView>, back: Seq<JsonView>)
    ensures
        texts_among(front + back) == texts_among(front) + texts_among(back),
    decreases back.len(),
{
    if back.len() == 0 {
        assert(front + back =~= front);
    } else {
        texts_are_taken_in_turn(front, back.drop_last());
        assert((front + back).drop_last() =~= front + back.drop_last());
    }
}

/// A request's frame says its id, its method and its parameters.
pub proof fn requests_say_what_they_ask(id: int, method: Seq<char>, params: JsonView)
    ensures
        request_frame(id, method, params).field("id"@) == Some(whole(id)),
        request_frame(id, method, params).string_field("method"@) == Some(method),
        request_frame(id, method, params).field("params"@) == Some(params),
{
    broadcast use {with_fields, no_fields};
    reveal_strlit("id");
    reveal_strlit("method");
    reveal_strlit("params");
    assert("id"@.len() == 2 && "method"@.len() == 6 && "params"@.len() == 6);
    assert("method"@[0] == 'm' && "params"@[0] == 'p');
}

/// A capture fails exactly where the reply has no text under `data` or the text is no base64.
pub proof fn captures_are_base64(reply: JsonView)
    ensures
        shot_of(reply) is Ok <==> (reply.field("data"@) matches Some(JsonView::Text(data))
            && bytes_of_base64(data) is Some),
        shot_of(reply) matches Ok(bytes) ==> (reply.field("data"@) matches Some(
            JsonView::Text(data),
        ) && bytes_of_base64(data) == Some(bytes)),
        (reply.field("data"@) matches Some(JsonView::Text(data)) && bytes_of_base64(data) is None)
            ==> (shot_of(reply) matches Err(chain) && chain.len() == 2 && chain[1]
            == fault_of_base64(reply.string_field("data"@)->0)),
{
}

/// A failed invocation names its capability before everything that was said of the failure, and a
/// successful one gives what stands under `result`, or null.
pub proof fn invocations_name_what_failed(
    name: &str,
    reply: Json,
    chain: Vec<String>,
    succeeded: Result<Json, Vec<String>>,
    failed: Result<Json, Vec<String>>,
)
    requires
        call_ensures(invoked, (name, Ok(reply)), succeeded),
        call_ensures(invoked, (name, Err(chain)), failed),
    ensures
        failed matches Err(longer) && longer@.len() == chain@.len() + 1 && longer@[0]@
            == "capability '"@ + name@ + "' failed"@ && forall|i: int|
            0 <= i < chain@.len() ==> (#[trigger] longer@[i + 1])@ == chain@[i]@,
        reply@.field("result"@) matches Some(value) ==> (succeeded matches Ok(given) && given@
            == value),
        reply@.field("result"@) is None ==> (succeeded matches Ok(given) && given@ is Null),
{
    let longer = failed->Err_0;
    let told = texts(longer@);
    assert(told.len() == longer@.len());
    assert(told[0] == longer@[0]@);
    assert forall|i: int| 0 <= i < chain@.len() implies (#[trigger] longer@[i + 1])@
        == chain@[i]@ by {
        assert(told[i + 1] == texts(chain@)[i]);
    }
}

/// A reply lists names exactly where it has an array of them.
pub proof fn listings_are_arrays(reply: JsonView)
    ensures
        names_of(reply) is Some <==> reply.field("names"@) matches Some(JsonView::Array(_)),
        reply.field("names"@) matches Some(JsonView::Array(items)) ==> names_of(reply) == Some(
            texts_among(items),
        ),
{
}

/// A client that is told where an app is reaches just the page that the app advertises for its
/// device.
pub proof fn clients_reach_the_advertised_page(
    device: &str,
    place: &str,
    config: DiscoveryConfig,
    url: String,
)
    requires
        call_ensures(device_target, (device,), config),
        call_ensures(devtools_url, (place,), url),
    ensures
        target_view(config.page_title@, config.page_id@, place@).string_field(
            "webSocketDebuggerUrl"@,
        ) == Some(url@),
        url@ == "ws://"@ + place@ + "/devtools/page/1"@,
        config.page_title@ == "Remo "@ + device@,
{
    one_address_everywhere(config.page_title@, config.page_id@, place@);
    reveal_strlit("/devtools/page/1");
    reveal_strlit("/devtools/page/");
    reveal_strlit("1");
    assert("/devtools/page/"@ + "1"@ =~= "/devtools/page/1"@);
    assert("ws://"@ + place@ + "/devtools/page/"@ + "1"@ =~= "ws://"@ + place@
        + "/devtools/page/1"@);
    assert(page_url(place@, "1"@) =~= "ws://"@ + place@ + "/devtools/page/"@ + "1"@);
}

} // verus!
