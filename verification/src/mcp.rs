//! The tools for agents: what they send to a target, and what they make of its reply.
//!
//! Each use of a tool has a connection of its own, with one call on it.
use crate::cdp_client::{calls, invocation, CdpClient, OpenCall};
use crate::dispatcher::{event_frame, ReplyView};
use crate::json::{no_entries, no_fields, with_fields, Json, JsonView};
use crate::json_text::{canonical, fault_of_text, json_of_text, json_text, read_json, to_text};
use crate::text::{ends_in, joined, joined3};
use crate::transport::reply_frame;
use vstd::prelude::*;

verus! {

/// The target where none is named.
pub const DEFAULT_WS_URL: &'static str = "ws://127.0.0.1:9930/devtools/page/1";

/// How long to wait for a reply, in seconds.
pub const CALL_TIMEOUT_SECS: u64 = 20;

/// The target: the one that the first argument names, or else the environment, or else the default.
pub fn resolve_ws_url(argument: Option<String>, environment: Option<String>) -> (url: String)
    ensures
        url@ == (match (argument, environment) {
            (Some(text), _) => text@,
            (None, Some(text)) => text@,
            (None, None) => DEFAULT_WS_URL@,
        }),
{
    match argument {
        Some(text) => text,
        None => match environment {
            Some(text) => text,
            None => DEFAULT_WS_URL.to_owned(),
        },
    }
}

/// Makes the one call of a connection.
fn single_call(method: &str, params: Json) -> (call: OpenCall)
    ensures
        call.id == 1,
        calls(call, method@, params@),
{
    let mut client = CdpClient::new();
    client.call(method, params)
}

/// Makes the call of the tool that lists the capabilities.
pub fn list_capabilities() -> (call: OpenCall)
    ensures
        call.id == 1,
        calls(call, "Remo.listCapabilities"@, no_entries()),
{
    single_call("Remo.listCapabilities", Json::empty())
}

/// Makes the call of the tool that invokes a capability. Parameters that are not given are an empty
/// object.
pub fn invoke_capability(name: &str, params: Option<Json>) -> (call: OpenCall)
    ensures
        call.id == 1,
        calls(
            call,
            "Remo.invoke"@,
            invocation(
                name@,
                match params {
                    Some(value) => value@,
                    None => no_entries(),
                },
            ),
        ),
{
    let args = match params {
        Some(value) => value,
        None => Json::empty(),
    };
    single_call("Remo.invoke", Json::empty().with("name", Json::text(name)).with("args", args))
}

/// What came of a step of a call.
#[derive(Debug)]
pub enum Received {
    /// The connection did not open.
    NotConnected(String),
    /// The request was not sent.
    NotSent(String),
    /// A text message.
    Text(String),
    /// A message of another kind, as it is shown.
    NotText(String),
    /// Reading failed.
    Failed(String),
    /// The other side is gone.
    Closed,
    /// The time to wait ran out.
    TimedOut,
}

/// What a tool makes of it.
#[derive(Debug)]
pub enum ToolStep {
    /// It was not the reply.
    Wait,
    /// The result, as text.
    Done(String),
    Failed(String),
}

/// What a tool makes of it.
pub enum ToolStepView {
    Wait,
    Done(Seq<char>),
    Failed(Seq<char>),
}

impl View for ToolStep {
    type V = ToolStepView;

    open spec fn view(&self) -> ToolStepView {
        match self {
            ToolStep::Wait => ToolStepView::Wait,
            ToolStep::Done(text) => ToolStepView::Done(text@),
            ToolStep::Failed(message) => ToolStepView::Failed(message@),
        }
    }
}

/// What a tool makes of a JSON message: the reply is the message with the call's id.
pub open spec fn told(method: Seq<char>, message: JsonView) -> ToolStepView {
    if message.unsigned_field("id"@) != Some(1int) {
        ToolStepView::Wait
    } else {
        match message.field("error"@) {
            Some(error) => ToolStepView::Failed(
                method + " failed: "@ + json_text(canonical(error)),
            ),
            None => ToolStepView::Done(json_text(canonical(message.field_or_null("result"@)))),
        }
    }
}

/// What a tool makes of what came.
pub open spec fn tool_step(url: Seq<char>, method: Seq<char>, received: Received) -> ToolStepView {
    match received {
        Received::NotConnected(error) => ToolStepView::Failed(
            "failed to connect to "@ + url + ": "@ + error@,
        ),
        Received::NotSent(error) => ToolStepView::Failed(
            "failed to send "@ + method + " to "@ + url + ": "@ + error@,
        ),
        Received::Text(text) => match json_of_text(text@) {
            None => ToolStepView::Failed(
                "reply was not valid JSON ("@ + fault_of_text(text@) + "): "@ + text@,
            ),
            Some(message) => told(method, message),
        },
        Received::NotText(shown) => ToolStepView::Failed(
            "expected a text frame, got: "@ + shown@,
        ),
        Received::Failed(error) => ToolStepView::Failed(
            "websocket error reading reply: "@ + error@,
        ),
        Received::Closed => ToolStepView::Failed(
            "connection to "@ + url + " closed before a reply arrived"@,
        ),
        Received::TimedOut => ToolStepView::Failed(
            "timed out waiting for a reply to "@ + method,
        ),
    }
}

/// Makes what it can of a JSON message.
pub fn tell(method: &str, message: &Json) -> (step: ToolStep)
    ensures
        step@ == told(method@, message@),
{
    match message.u64_field("id") {
        Some(found) => if found != 1 {
            return ToolStep::Wait;
        },
        None => {
            return ToolStep::Wait;
        },
    }
    match message.get("error") {
        Some(error) => ToolStep::Failed(joined3(method, " failed: ", to_text(error).as_str())),
        None => ToolStep::Done(to_text(&message.field_or_null("result"))),
    }
}

/// Makes what it can of what came.
pub fn call_remo(url: &str, method: &str, received: &Received) -> (step: ToolStep)
    ensures
        step@ == tool_step(url@, method@, *received),
{
    match received {
        Received::NotConnected(error) => {
            let mut message = joined3("failed to connect to ", url, ": ");
            message.append(error.as_str());
            ToolStep::Failed(message)
        },
        Received::NotSent(error) => {
            let mut message = joined3("failed to send ", method, " to ");
            message.append(url);
            message.append(": ");
            message.append(error.as_str());
            ToolStep::Failed(message)
        },
        Received::Text(text) => match read_json(text.as_str()) {
            Err(fault) => {
                let mut message = joined3("reply was not valid JSON (", fault.as_str(), "): ");
                message.append(text.as_str());
                ToolStep::Failed(message)
            },
            Ok(message) => tell(method, &message),
        },
        Received::NotText(shown) => ToolStep::Failed(
            joined("expected a text frame, got: ", shown.as_str()),
        ),
        Received::Failed(error) => ToolStep::Failed(
            joined("websocket error reading reply: ", error.as_str()),
        ),
        Received::Closed => ToolStep::Failed(
            joined3("connection to ", url, " closed before a reply arrived"),
        ),
        Received::TimedOut => ToolStep::Failed(
            joined("timed out waiting for a reply to ", method),
        ),
    }
}

/// The default target is the one page at the default port of the loopback address.
pub proof fn default_target_is_the_page()
    ensures
        DEFAULT_WS_URL@ == crate::discovery::page_url(
            "127.0.0.1:9930"@,
            crate::cdp_client::DEVTOOLS_PAGE_ID@,
        ),
{
    reveal_strlit("ws://127.0.0.1:9930/devtools/page/1");
    reveal_strlit("127.0.0.1:9930");
    reveal_strlit("ws://");
    reveal_strlit("/devtools/page/");
    reveal_strlit("1");
    assert(DEFAULT_WS_URL@ =~= crate::discovery::page_url(
        "127.0.0.1:9930"@,
        crate::cdp_client::DEVTOOLS_PAGE_ID@,
    ));
}

/// A tool tells the result that a target replied with to its one call, fails with the error that
/// it replied with, and waits while replies to other calls and events come.
pub proof fn replies_are_told(
    method: Seq<char>,
    other: int,
    value: JsonView,
    code: int,
    message: Seq<char>,
    event: Seq<char>,
)
    requires
        other != 1,
    ensures
        told(method, reply_frame(1, Some(ReplyView::Result(value)))) == ToolStepView::Done(
            json_text(canonical(value)),
        ),
        told(method, reply_frame(1, None)) == ToolStepView::Done(
            json_text(canonical(no_entries())),
        ),
        ({
            let frame = reply_frame(1, Some(ReplyView::Error { code, message }));
            &&& told(method, frame) matches ToolStepView::Failed(text)
            &&& frame.field("error"@) matches Some(error)
            &&& text == method + " failed: "@ + json_text(canonical(error))
        }),
        told(method, reply_frame(other, Some(ReplyView::Result(value)))) is Wait,
        told(method, event_frame(event, value)) is Wait,
{
    broadcast use {with_fields, no_fields};
    reply_names();
}

proof fn reply_names()
    ensures
        "id"@ != "error"@,
        "id"@ != "result"@,
        "id"@ != "method"@,
        "id"@ != "params"@,
        "error"@ != "result"@,
        "error"@ != "method"@,
        "error"@ != "params"@,
        "result"@ != "method"@,
        "result"@ != "params"@,
        "method"@ != "params"@,
{
    reveal_strlit("id");
    reveal_strlit("error");
    reveal_strlit("result");
    reveal_strlit("method");
    reveal_strlit("params");
    assert("id"@.len() == 2);
    assert("error"@.len() == 5);
    assert("result"@.len() == 6);
    assert("method"@.len() == 6);
    assert("params"@.len() == 6);
    assert("result"@[0] == 'r');
    assert("method"@[0] == 'm');
    assert("params"@[0] == 'p');
}


/// Where no reply came, a tool fails with a message that ends in the reason.
pub proof fn faults_are_told(url: Seq<char>, method: Seq<char>, received: Received)
    ensures
        received matches Received::NotConnected(error) ==> (tool_step(
            url,
            method,
            received,
        ) matches ToolStepView::Failed(message) && ends_in(message, url + ": "@ + error@)),
        received matches Received::NotSent(error) ==> (tool_step(
            url,
            method,
            received,
        ) matches ToolStepView::Failed(message) && ends_in(
            message,
            method + " to "@ + url + ": "@ + error@,
        )),
        received matches Received::Failed(error) ==> (tool_step(
            url,
            method,
            received,
        ) matches ToolStepView::Failed(message) && ends_in(message, error@)),
        received matches Received::NotText(shown) ==> (tool_step(
            url,
            method,
            received,
        ) matches ToolStepView::Failed(message) && ends_in(message, shown@)),
        received is TimedOut ==> (tool_step(url, method, received) matches ToolStepView::Failed(
            message,
        ) && ends_in(message, method)),
        received is Closed ==> (tool_step(url, method, received) matches ToolStepView::Failed(
            message,
        ) && ends_in(message, url + " closed before a reply arrived"@)),
        received matches Received::Text(text) ==> (json_of_text(text@) is None ==> (tool_step(
            url,
            method,
            received,
        ) matches ToolStepView::Failed(message) && ends_in(
            message,
            fault_of_text(text@) + "): "@ + text@,
        ))),
{
    match received {
        Received::NotConnected(error) => {
            ending("failed to connect to "@, url + ": "@ + error@);
            assert("failed to connect to "@ + url + ": "@ + error@ =~= "failed to connect to "@ + (
            url + ": "@ + error@));
        },
        Received::NotSent(error) => {
            ending("failed to send "@, method + " to "@ + url + ": "@ + error@);
            assert("failed to send "@ + method + " to "@ + url + ": "@ + error@
                =~= "failed to send "@ + (method + " to "@ + url + ": "@ + error@));
        },
        Received::Failed(error) => {
            ending("websocket error reading reply: "@, error@);
        },
        Received::NotText(shown) => {
            ending("expected a text frame, got: "@, shown@);
        },
        Received::TimedOut => {
            ending("timed out waiting for a reply to "@, method);
        },
        Received::Closed => {
            ending("connection to "@, url + " closed before a reply arrived"@);
            assert("connection to "@ + url + " closed before a reply arrived"@
                =~= "connection to "@ + (url + " closed before a reply arrived"@));
        },
        Received::Text(text) => {
            let fault = fault_of_text(text@);
            ending("reply was not valid JSON ("@, fault + "): "@ + text@);
            assert("reply was not valid JSON ("@ + fault + "): "@ + text@
                =~= "reply was not valid JSON ("@ + (fault + "): "@ + text@));
        },
    }
}

proof fn ending(front: Seq<char>, back: Seq<char>)
    ensures
        ends_in(front + back, back),
{
    crate::text::ending_is_standing_last(front + back, back);
    assert((front + back).skip(front.len() as int) =~= back);
}

/// A target that is named as an argument goes before the one in the environment, and both go before
/// the default.
pub proof fn named_targets_go_first(
    argument: String,
    environment: Option<String>,
    other: String,
    by_argument: String,
    by_environment: String,
    by_default: String,
)
    requires
        call_ensures(resolve_ws_url, (Some(argument), environment), by_argument),
        call_ensures(resolve_ws_url, (None, Some(other)), by_environment),
        call_ensures(resolve_ws_url, (None, None), by_default),
    ensures
        by_argument@ == argument@,
        by_environment@ == other@,
        by_default@ == DEFAULT_WS_URL@,
{
}

} // verus!
