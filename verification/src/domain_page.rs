//! The `Page` domain: screenshots and the screencast, and the replies that a debugger's start-up
//! sequence cannot do without.
//!
//! Capturing is somebody else's work, so answering goes in steps: `begin` either replies or says
//! what to capture, and `finish_capture` makes the reply from what was captured.
use crate::base64_text::{base64_of, encode_base64};
use crate::cdp_client::shot_of;
use crate::dispatcher::{event_frame, failure, CdpReply, CdpRequest, EventSink, ReplyView};
use crate::json::{
    no_entries, no_fields, trees, whole, with_fields, with_then_field, Json, JsonView,
};
use crate::remote_object::{remote_object, remote_view};
use crate::text::{joined, same_text, texts};
use vstd::prelude::*;

verus! {

/// How long to wait between two frames of a screencast, in milliseconds.
pub const SCREENCAST_INTERVAL_MILLIS: u64 = 300;

/// The quality of a capture where none is asked for, in percent.
pub const DEFAULT_QUALITY_PERCENT: u64 = 80;

/// What to capture: in which image format, and with which quality in percent.
#[derive(Debug, PartialEq, Eq)]
pub struct CaptureSettings {
    pub format: String,
    pub quality_percent: u64,
}

/// What to capture.
#[verifier::ext_equal]
pub struct SettingsView {
    pub format: Seq<char>,
    pub quality_percent: int,
}

impl View for CaptureSettings {
    type V = SettingsView;

    open spec fn view(&self) -> SettingsView {
        SettingsView { format: self.format@, quality_percent: self.quality_percent as int }
    }
}

/// What a request asks to capture.
pub open spec fn asked_settings(params: JsonView) -> SettingsView {
    SettingsView {
        format: match params.string_field("format"@) {
            Some(format) => format,
            None => "jpeg"@,
        },
        quality_percent: match params.unsigned_field("quality"@) {
            Some(percent) => percent,
            None => DEFAULT_QUALITY_PERCENT as int,
        },
    }
}

/// What a request asks to capture.
pub fn capture_settings(params: &Json) -> (settings: CaptureSettings)
    ensures
        settings@ == asked_settings(params@),
{
    let format = match params.str_field("format") {
        Some(format) => format.to_owned(),
        None => "jpeg".to_owned(),
    };
    let quality_percent: u64 = match params.u64_field("quality") {
        Some(percent) => percent,
        None => DEFAULT_QUALITY_PERCENT,
    };
    CaptureSettings { format, quality_percent }
}

/// The first step of answering a request.
#[derive(Debug)]
pub enum PageStep {
    /// This is the reply.
    Reply(CdpReply),
    /// Capture, then `finish_capture`.
    Capture(CaptureSettings),
    /// Stop the screencast `stopped`, where there is one, start another and reply with an empty
    /// result.
    Start { stopped: Option<u32>, session: u32, settings: CaptureSettings },
    /// Stop the screencast `stopped`, where there is one, and reply with an empty result.
    Stop { stopped: Option<u32> },
}

/// The first step of answering a request.
#[verifier::ext_equal]
pub enum PageStepView {
    Reply(ReplyView),
    Capture(SettingsView),
    Start { stopped: Option<u32>, session: u32, settings: SettingsView },
    Stop { stopped: Option<u32> },
}

impl View for PageStep {
    type V = PageStepView;

    open spec fn view(&self) -> PageStepView {
        match self {
            PageStep::Reply(reply) => PageStepView::Reply(reply@),
            PageStep::Capture(settings) => PageStepView::Capture(settings@),
            PageStep::Start { stopped, session, settings } => PageStepView::Start {
                stopped: *stopped,
                session: *session,
                settings: settings@,
            },
            PageStep::Stop { stopped } => PageStepView::Stop { stopped: *stopped },
        }
    }
}

/// The session after a session.
pub open spec fn session_after(session: u32) -> u32 {
    if session == u32::MAX {
        0
    } else {
        (session + 1) as u32
    }
}

/// The first step of answering a request, with the running screencast and the next session.
pub open spec fn page_step(
    method: Seq<char>,
    params: JsonView,
    running: Option<u32>,
    next: u32,
) -> PageStepView {
    if method == "Page.captureScreenshot"@ {
        PageStepView::Capture(asked_settings(params))
    } else if method == "Page.startScreencast"@ {
        PageStepView::Start { stopped: running, session: next, settings: asked_settings(params) }
    } else if method == "Page.stopScreencast"@ {
        PageStepView::Stop { stopped: running }
    } else if method == "Network.emulateNetworkConditionsByRule"@ {
        PageStepView::Reply(
            ReplyView::Result(no_entries().with("ruleIds"@, JsonView::Array(seq![]))),
        )
    } else if method == "Runtime.callFunctionOn"@ {
        PageStepView::Reply(
            ReplyView::Result(no_entries().with("result"@, remote_view(no_entries()))),
        )
    } else if method == "CSS.getPlatformFontsForNode"@ {
        PageStepView::Reply(
            ReplyView::Result(no_entries().with("fonts"@, JsonView::Array(seq![]))),
        )
    } else if method == "CSS.getEnvironmentVariables"@ {
        PageStepView::Reply(
            ReplyView::Result(no_entries().with("environmentVariables"@, no_entries())),
        )
    } else if method == "CSS.takeComputedStyleUpdates"@ {
        PageStepView::Reply(
            ReplyView::Result(no_entries().with("nodeIds"@, JsonView::Array(seq![]))),
        )
    } else {
        PageStepView::Reply(failure("Page domain does not handle "@ + method))
    }
}

/// The methods that the domain answers.
pub open spec fn page_methods() -> Seq<Seq<char>> {
    seq![
        "Page.captureScreenshot"@,
        "Page.startScreencast"@,
        "Page.stopScreencast"@,
        "Network.emulateNetworkConditionsByRule"@,
        "Runtime.callFunctionOn"@,
        "CSS.getPlatformFontsForNode"@,
        "CSS.getEnvironmentVariables"@,
        "CSS.takeComputedStyleUpdates"@,
    ]
}

/// A captured image, with the size of the screen as JSON numbers.
#[derive(Debug)]
pub struct Screenshot {
    pub bytes: Vec<u8>,
    pub width: Json,
    pub height: Json,
}

/// A frame of a screencast.
pub open spec fn frame_event(session: u32, shot: Screenshot) -> JsonView {
    event_frame(
        "Page.screencastFrame"@,
        no_entries().with("data"@, JsonView::Text(base64_of(shot.bytes@))).with(
            "metadata"@,
            no_entries().with("deviceWidth"@, shot.width@).with("deviceHeight"@, shot.height@),
        ).with("sessionId"@, whole(session as int)),
    )
}

/// The screenshots and the screencast of one connection.
#[derive(Debug)]
pub struct PageDomain {
    screencast: Option<u32>,
    next_session_id: u32,
}

fn empty_list(name: &str) -> (json: Json)
    ensures
        json@ == no_entries().with(name@, JsonView::Array(seq![])),
{
    let items: Vec<Json> = Vec::new();
    assert(trees(items@) =~= seq![]);
    Json::empty().with(name, Json::array(items))
}

impl PageDomain {
    /// The screencast that runs.
    pub closed spec fn running(&self) -> Option<u32> {
        self.screencast
    }

    /// The session of the next screencast.
    pub closed spec fn next_session(&self) -> u32 {
        self.next_session_id
    }

    /// No screencast runs.
    pub fn new() -> (domain: PageDomain)
        ensures
            domain.running() is None,
            domain.next_session() == 1,
    {
        PageDomain { screencast: None, next_session_id: 1 }
    }

    /// The methods that the domain answers.
    pub fn methods(&self) -> (list: Vec<String>)
        ensures
            texts(list@) == page_methods(),
    {
        let list = vec![
            "Page.captureScreenshot".to_owned(),
            "Page.startScreencast".to_owned(),
            "Page.stopScreencast".to_owned(),
            "Network.emulateNetworkConditionsByRule".to_owned(),
            "Runtime.callFunctionOn".to_owned(),
            "CSS.getPlatformFontsForNode".to_owned(),
            "CSS.getEnvironmentVariables".to_owned(),
            "CSS.takeComputedStyleUpdates".to_owned(),
        ];
        assert(texts(list@) =~= page_methods());
        list
    }

    /// Starts a screencast in the place of one that runs.
    pub fn start_screencast(&mut self, params: &Json) -> (step: PageStep)
        ensures
            step@ == (PageStepView::Start {
                stopped: old(self).running(),
                session: old(self).next_session(),
                settings: asked_settings(params@),
            }),
            final(self).running() == Some(old(self).next_session()),
            final(self).next_session() == session_after(old(self).next_session()),
    {
        let session: u32 = self.next_session_id;
        self.next_session_id = if session == u32::MAX {
            0
        } else {
            session + 1
        };
        let stopped = self.screencast;
        self.screencast = Some(session);
        PageStep::Start { stopped, session, settings: capture_settings(params) }
    }

    /// Stops the screencast that runs, where one does.
    pub fn stop_screencast(&mut self) -> (step: PageStep)
        ensures
            step@ == (PageStepView::Stop { stopped: old(self).running() }),
            final(self).running() is None,
            final(self).next_session() == old(self).next_session(),
    {
        let stopped = self.screencast;
        self.screencast = None;
        PageStep::Stop { stopped }
    }

    /// The connection closes: the screencast that runs is to be stopped.
    pub fn reset(&mut self) -> (stopped: Option<u32>)
        ensures
            stopped == old(self).running(),
            final(self).running() is None,
            final(self).next_session() == old(self).next_session(),
    {
        let stopped = self.screencast;
        self.screencast = None;
        stopped
    }

    /// The first step of answering a request. At most one screencast runs: starting one stops the
    /// other.
    pub fn begin(&mut self, request: &CdpRequest) -> (step: PageStep)
        ensures
            step@ == page_step(
                request.method@,
                request.params@,
                old(self).running(),
                old(self).next_session(),
            ),
            step@ matches PageStepView::Start { session, .. } ==> final(self).running() == Some(
                session,
            ) && final(self).next_session() == session_after(session),
            step@ is Stop ==> final(self).running() is None && final(self).next_session() == old(
                self,
            ).next_session(),
            !(step@ is Start) && !(step@ is Stop) ==> *final(self) == *old(self),
    {
        let method = request.method.as_str();
        let params = &request.params;
        if same_text(method, "Page.captureScreenshot") {
            PageStep::Capture(capture_settings(params))
        } else if same_text(method, "Page.startScreencast") {
            self.start_screencast(params)
        } else if same_text(method, "Page.stopScreencast") {
            self.stop_screencast()
        } else if same_text(method, "Network.emulateNetworkConditionsByRule") {
            PageStep::Reply(CdpReply::ok(empty_list("ruleIds")))
        } else if same_text(method, "Runtime.callFunctionOn") {
            PageStep::Reply(
                CdpReply::ok(Json::empty().with("result", remote_object(&Json::empty()))),
            )
        } else if same_text(method, "CSS.getPlatformFontsForNode") {
            PageStep::Reply(CdpReply::ok(empty_list("fonts")))
        } else if same_text(method, "CSS.getEnvironmentVariables") {
            PageStep::Reply(
                CdpReply::ok(Json::empty().with("environmentVariables", Json::empty())),
            )
        } else if same_text(method, "CSS.takeComputedStyleUpdates") {
            PageStep::Reply(CdpReply::ok(empty_list("nodeIds")))
        } else {
            PageStep::Reply(CdpReply::error(joined("Page domain does not handle ", method)))
        }
    }

    /// The reply from what was captured. A client takes just the captured bytes from it.
    pub fn finish_capture(bytes: Option<Vec<u8>>) -> (reply: CdpReply)
        ensures
            reply@ == (match bytes {
                Some(list) => ReplyView::Result(
                    no_entries().with("data"@, JsonView::Text(base64_of(list@))),
                ),
                None => failure("screenshot capture failed"@),
            }),
            bytes matches Some(list) ==> (reply@ matches ReplyView::Result(value) && shot_of(value)
                == Ok::<Seq<u8>, Seq<Seq<char>>>(list@)),
    {
        match bytes {
            Some(list) => {
                let data = encode_base64(list.as_slice());
                proof {
                    with_then_field(no_entries(), "data"@, JsonView::Text(data@), "data"@);
                }
                CdpReply::ok(Json::empty().with("data", Json::Text(data)))
            },
            None => CdpReply::error("screenshot capture failed".to_owned()),
        }
    }

    /// Queues a frame of a screencast. Where nothing was captured there is no frame.
    pub fn screencast_frame(session: u32, shot: Option<Screenshot>, events: &mut EventSink)
        ensures
            final(events)@ == (match shot {
                Some(s) => old(events)@.push(frame_event(session, s)),
                None => old(events)@,
            }),
    {
        if let Some(s) = shot {
            let data = encode_base64(s.bytes.as_slice());
            events.emit(
                "Page.screencastFrame",
                Json::empty().with("data", Json::Text(data)).with(
                    "metadata",
                    Json::empty().with("deviceWidth", s.width).with("deviceHeight", s.height),
                ).with("sessionId", Json::unsigned(session as u64)),
            );
        }
    }
}

impl Default for PageDomain {
    fn default() -> (domain: PageDomain)
        ensures
            domain.running() is None,
            domain.next_session() == 1,
    {
        PageDomain::new()
    }
}

/// A capture is in the format and of the quality that are asked for; without them it is a JPEG of
/// four fifths of the full quality.
pub proof fn captures_are_as_asked(params: JsonView)
    ensures
        params.field("format"@) matches Some(JsonView::Text(format)) ==> asked_settings(
            params,
        ).format == format,
        params.field("format"@) is None ==> asked_settings(params).format == seq![
            'j',
            'p',
            'e',
            'g',
        ],
        params.field("quality"@) matches Some(value) ==> (value.unsigned() matches Some(percent)
            ==> asked_settings(params).quality_percent == percent),
        params.field("quality"@) is None ==> 5 * asked_settings(params).quality_percent == 4 * 100,
{
    reveal_strlit("jpeg");
    assert("jpeg"@ =~= seq!['j', 'p', 'e', 'g']);
}

/// A frame of a screencast carries the bytes that were captured, the size of the screen and the
/// session.
pub proof fn frames_carry_the_capture(session: u32, shot: Screenshot)
    ensures
        ({
            let frame = frame_event(session, shot);
            &&& frame.string_field("method"@) == Some("Page.screencastFrame"@)
            &&& frame.field("params"@) matches Some(params)
            &&& params.string_field("data"@) == Some(base64_of(shot.bytes@))
            &&& params.unsigned_field("sessionId"@) == Some(session as int)
            &&& params.field("metadata"@) matches Some(metadata)
            &&& metadata.field("deviceWidth"@) == Some(shot.width@)
            &&& metadata.field("deviceHeight"@) == Some(shot.height@)
        }),
{
    broadcast use {with_fields, no_fields};
    page_names();
}

proof fn page_names()
    ensures
        "method"@ != "params"@,
        "data"@ != "metadata"@,
        "data"@ != "sessionId"@,
        "metadata"@ != "sessionId"@,
        "deviceWidth"@ != "deviceHeight"@,
        "Page.captureScreenshot"@ != "Page.startScreencast"@,
        "Page.captureScreenshot"@ != "Page.stopScreencast"@,
        "Page.captureScreenshot"@ != "Network.emulateNetworkConditionsByRule"@,
        "Page.captureScreenshot"@ != "Runtime.callFunctionOn"@,
        "Page.captureScreenshot"@ != "CSS.getPlatformFontsForNode"@,
        "Page.captureScreenshot"@ != "CSS.getEnvironmentVariables"@,
        "Page.captureScreenshot"@ != "CSS.takeComputedStyleUpdates"@,
        "Page.startScreencast"@ != "Page.stopScreencast"@,
        "Page.startScreencast"@ != "Network.emulateNetworkConditionsByRule"@,
        "Page.startScreencast"@ != "Runtime.callFunctionOn"@,
        "Page.startScreencast"@ != "CSS.getPlatformFontsForNode"@,
        "Page.startScreencast"@ != "CSS.getEnvironmentVariables"@,
        "Page.startScreencast"@ != "CSS.takeComputedStyleUpdates"@,
        "Page.stopScreencast"@ != "Network.emulateNetworkConditionsByRule"@,
        "Page.stopScreencast"@ != "Runtime.callFunctionOn"@,
        "Page.stopScreencast"@ != "CSS.getPlatformFontsForNode"@,
        "Page.stopScreencast"@ != "CSS.getEnvironmentVariables"@,
        "Page.stopScreencast"@ != "CSS.takeComputedStyleUpdates"@,
        "Network.emulateNetworkConditionsByRule"@ != "Runtime.callFunctionOn"@,
        "Network.emulateNetworkConditionsByRule"@ != "CSS.getPlatformFontsForNode"@,
        "Network.emulateNetworkConditionsByRule"@ != "CSS.getEnvironmentVariables"@,
        "Network.emulateNetworkConditionsByRule"@ != "CSS.takeComputedStyleUpdates"@,
        "Runtime.callFunctionOn"@ != "CSS.getPlatformFontsForNode"@,
        "Runtime.callFunctionOn"@ != "CSS.getEnvironmentVariables"@,
        "Runtime.callFunctionOn"@ != "CSS.takeComputedStyleUpdates"@,
        "CSS.getPlatformFontsForNode"@ != "CSS.getEnvironmentVariables"@,
        "CSS.getPlatformFontsForNode"@ != "CSS.takeComputedStyleUpdates"@,
        "CSS.getEnvironmentVariables"@ != "CSS.takeComputedStyleUpdates"@,
{
    reveal_strlit("method");
    reveal_strlit("params");
    reveal_strlit("data");
    reveal_strlit("metadata");
    reveal_strlit("sessionId");
    reveal_strlit("deviceWidth");
    reveal_strlit("deviceHeight");
    reveal_strlit("Page.captureScreenshot");
    reveal_strlit("Page.startScreencast");
    reveal_strlit("Page.stopScreencast");
    reveal_strlit("Network.emulateNetworkConditionsByRule");
    reveal_strlit("Runtime.callFunctionOn");
    reveal_strlit("CSS.getPlatformFontsForNode");
    reveal_strlit("CSS.getEnvironmentVariables");
    reveal_strlit("CSS.takeComputedStyleUpdates");
    assert("method"@.len() == 6);
    assert("params"@.len() == 6);
    assert("data"@.len() == 4);
    assert("metadata"@.len() == 8);
    assert("sessionId"@.len() == 9);
    assert("deviceWidth"@.len() == 11);
    assert("deviceHeight"@.len() == 12);
    assert("Page.captureScreenshot"@.len() == 22);
    assert("Page.startScreencast"@.len() == 20);
    assert("Page.stopScreencast"@.len() == 19);
    assert("Network.emulateNetworkConditionsByRule"@.len() == 38);
    assert("Runtime.callFunctionOn"@.len() == 22);
    assert("CSS.getPlatformFontsForNode"@.len() == 27);
    assert("CSS.getEnvironmentVariables"@.len() == 27);
    assert("CSS.takeComputedStyleUpdates"@.len() == 28);
    assert("method"@[0] == 'm');
    assert("params"@[0] == 'p');
    assert("Page.captureScreenshot"@[0] == 'P');
    assert("Runtime.callFunctionOn"@[0] == 'R');
    assert("CSS.getPlatformFontsForNode"@[7] == 'P');
    assert("CSS.getEnvironmentVariables"@[7] == 'E');
}


/// Starting a screencast stops the one that runs and goes on with a fresh session; stopping stops
/// the one that runs; capturing leaves it alone.
pub proof fn screencasts_replace_one_another(params: JsonView, running: Option<u32>, next: u32)
    ensures
        page_step("Page.startScreencast"@, params, running, next) matches PageStepView::Start {
            stopped,
            session,
            settings,
        } && stopped == running && session == next && settings == asked_settings(params),
        page_step("Page.stopScreencast"@, params, running, next) matches PageStepView::Stop {
            stopped,
        } && stopped == running,
        page_step("Page.captureScreenshot"@, params, running, next) matches PageStepView::Capture(
            settings,
        ) && settings == asked_settings(params),
        next < u32::MAX ==> session_after(next) == next + 1,
        session_after(next) != next,
{
    page_names();
}

/// What a debugger asks at its start is answered with the empty shape that it expects, whatever
/// runs.
pub proof fn empty_shapes_are_answered(params: JsonView, running: Option<u32>, next: u32)
    ensures
        page_step(
            "Network.emulateNetworkConditionsByRule"@,
            params,
            running,
            next,
        ) matches PageStepView::Reply(ReplyView::Result(value)) && value.field("ruleIds"@) == Some(
            JsonView::Array(seq![]),
        ),
        page_step("Runtime.callFunctionOn"@, params, running, next) matches PageStepView::Reply(
            ReplyView::Result(value),
        ) && value.field("result"@) == Some(remote_view(no_entries())),
        page_step("CSS.getPlatformFontsForNode"@, params, running, next) matches PageStepView::Reply(
            ReplyView::Result(value),
        ) && value.field("fonts"@) == Some(JsonView::Array(seq![])),
        page_step("CSS.getEnvironmentVariables"@, params, running, next) matches PageStepView::Reply(
            ReplyView::Result(value),
        ) && value.field("environmentVariables"@) == Some(JsonView::Object(seq![])),
        page_step("CSS.takeComputedStyleUpdates"@, params, running, next) matches PageStepView::Reply(
            ReplyView::Result(value),
        ) && value.field("nodeIds"@) == Some(JsonView::Array(seq![])),
{
    broadcast use {with_fields, no_fields};
    page_names();
}

/// A method that the domain does not list is refused by name.
pub proof fn other_methods_are_refused(
    method: Seq<char>,
    params: JsonView,
    running: Option<u32>,
    next: u32,
)
    requires
        !page_methods().contains(method),
    ensures
        page_step(method, params, running, next) matches PageStepView::Reply(
            ReplyView::Error { code, message },
        ) && message == "Page domain does not handle "@ + method,
{
    let all = page_methods();
    assert(all[0] != method && all[1] != method && all[2] != method && all[3] != method && all[4]
        != method && all[5] != method && all[6] != method && all[7] != method);
}

} // verus!
