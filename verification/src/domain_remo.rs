//! The `Remo` domain: listing and invoking capabilities, directly and from a debugger's console.
//!
//! A capability may take its time, so answering goes in two steps: `begin` either replies or says
//! which capability to invoke, and `finish` makes the reply from what came back.
use crate::capabilities::{
    child_path, children, children_of, classify, node_at, prefix_below, ChildKind, Node, NodeView,
};
use crate::console_expr::{console_expr, parse_console_expr, ConsoleExpr, ExprView};
use crate::dispatcher::{event_frame, failure, CdpReply, CdpRequest, EventSink, ReplyView};
use crate::json::{no_entries, no_fields, trees, whole, with_fields, Json, JsonView};
use crate::order::keyed;
use crate::remote_object::{remote_object, remote_view};
use crate::text::{
    after_prefix, begins_with, chars_of, ends_in, joined, joined3, rest_after, same_text,
    slice_text, texts,
};
use std::sync::Arc;
use vstd::prelude::*;

verus! {

/// What a capability gave: nothing where there is none of that name, or its result, or why it
/// failed.
pub type Outcome = Option<Result<Json, String>>;

/// What a capability gave.
pub type OutcomeView = Option<Result<JsonView, Seq<char>>>;

/// What a capability gave.
pub open spec fn outcome_view(outcome: Outcome) -> OutcomeView {
    match outcome {
        None => None,
        Some(Ok(value)) => Some(Ok(value@)),
        Some(Err(message)) => Some(Err(message@)),
    }
}

/// Whatever holds capabilities that can be invoked by name.
pub trait CapabilityInvoker {
    /// Invokes the capability of a name: nothing where there is none of that name.
    fn invoke(&self, name: &str, params: Json) -> Outcome;

    /// Every name that can be invoked, in no particular order.
    fn list(&self) -> Vec<String>;
}

/// The methods that the domain answers.
pub open spec fn remo_methods() -> Seq<Seq<char>> {
    seq![
        "Remo.invoke"@,
        "Remo.listCapabilities"@,
        "Runtime.enable"@,
        "Runtime.evaluate"@,
        "Runtime.getProperties"@,
    ]
}

/// The id of the one execution context that the domain announces.
pub const REMO_EXECUTION_CONTEXT_ID: u64 = 1;

/// The texts of a sequence as a JSON array.
pub open spec fn text_array(list: Seq<Seq<char>>) -> JsonView {
    JsonView::Array(Seq::new(list.len(), |i: int| JsonView::Text(list[i])))
}

/// The texts of a list as a JSON array.
pub fn array_of_texts(list: &Vec<String>) -> (array: Json)
    ensures
        array@ == text_array(texts(list@)),
{
    let ghost goal = text_array(texts(list@))->Array_0;
    let mut items: Vec<Json> = Vec::new();
    let mut i: usize = 0;
    while i < list.len()
        invariant
            i <= list.len(),
            goal == text_array(texts(list@))->Array_0,
            items@.len() == i,
            forall|j: int| 0 <= j < i ==> (#[trigger] items@[j])@ == goal[j],
        decreases list.len() - i,
    {
        items.push(Json::text(list[i].as_str()));
        i = i + 1;
    }
    assert(trees(items@) =~= goal);
    Json::array(items)
}

/// How a failed evaluation is reported: as an exception of the given class.
pub open spec fn thrown(class: Seq<char>, description: Seq<char>) -> JsonView {
    no_entries().with("result"@, no_entries().with("type"@, JsonView::Text("undefined"@))).with(
        "exceptionDetails"@,
        no_entries().with("exceptionId"@, whole(1)).with("text"@, JsonView::Text("Uncaught"@)).with(
            "lineNumber"@,
            whole(0),
        ).with("columnNumber"@, whole(0)).with(
            "exception"@,
            no_entries().with("type"@, JsonView::Text("object"@)).with(
                "subtype"@,
                JsonView::Text("error"@),
            ).with("className"@, JsonView::Text(class)).with(
                "description"@,
                JsonView::Text(description),
            ),
        ),
    )
}

fn throw(class: &str, description: &str) -> (json: Json)
    ensures
        json@ == thrown(class@, description@),
{
    Json::empty().with("result", Json::empty().with("type", Json::text("undefined"))).with(
        "exceptionDetails",
        Json::empty().with("exceptionId", Json::unsigned(1)).with(
            "text",
            Json::text("Uncaught"),
        ).with("lineNumber", Json::unsigned(0)).with("columnNumber", Json::unsigned(0)).with(
            "exception",
            Json::empty().with("type", Json::text("object")).with(
                "subtype",
                Json::text("error"),
            ).with("className", Json::text(class)).with("description", Json::text(description)),
        ),
    )
}

/// A failed evaluation, as an exception with a message.
pub fn evaluate_exception(message: &str) -> (json: Json)
    ensures
        json@ == thrown("Error"@, message@),
{
    throw("Error", message)
}

/// What a call gets where side effects are forbidden.
pub fn side_effect_exception() -> (json: Json)
    ensures
        json@ == thrown(
            "EvalError"@,
            "EvalError: Possible side effect in Remo capability call"@,
        ),
{
    throw("EvalError", "EvalError: Possible side effect in Remo capability call")
}

/// A successful evaluation.
pub fn evaluate_success(value: &Json) -> (json: Json)
    ensures
        json@ == no_entries().with("result"@, remote_view(value@)),
{
    Json::empty().with("result", remote_object(value))
}

/// The object id of a path: the path itself, marked.
pub open spec fn object_id(path: Seq<char>) -> Seq<char> {
    "remo:"@ + path
}

/// How a child is listed in the preview of its namespace.
pub open spec fn child_preview(child: (Seq<char>, ChildKind)) -> JsonView {
    no_entries().with("name"@, JsonView::Text(child.0)).with(
        "type"@,
        JsonView::Text(
            match child.1 {
                ChildKind::Namespace => "object"@,
                ChildKind::Capability => "function"@,
            },
        ),
    ).with(
        "value"@,
        JsonView::Text(
            match child.1 {
                ChildKind::Namespace => "Object"@,
                ChildKind::Capability => "ƒ"@,
            },
        ),
    )
}

/// The object that stands for a namespace: its id lets it be expanded.
pub open spec fn namespace_view(path: Seq<char>, list: Seq<(Seq<char>, ChildKind)>) -> JsonView {
    no_entries().with("type"@, JsonView::Text("object"@)).with(
        "className"@,
        JsonView::Text("Object"@),
    ).with("description"@, JsonView::Text("Object"@)).with(
        "objectId"@,
        JsonView::Text(object_id(path)),
    ).with(
        "preview"@,
        no_entries().with("type"@, JsonView::Text("object"@)).with(
            "description"@,
            JsonView::Text("Object"@),
        ).with("overflow"@, JsonView::Bool(false)).with(
            "properties"@,
            JsonView::Array(Seq::new(list.len(), |i: int| child_preview(list[i]))),
        ),
    )
}

/// The object that stands for a namespace.
pub fn namespace_remote_object(path: &str, list: &Vec<(String, ChildKind)>) -> (object: Json)
    ensures
        object@ == namespace_view(path@, keyed(list@)),
{
    let ghost all = keyed(list@);
    let ghost goal = Seq::new(all.len(), |i: int| child_preview(all[i]));
    let mut properties: Vec<Json> = Vec::new();
    let mut i: usize = 0;
    while i < list.len()
        invariant
            i <= list.len(),
            all == keyed(list@),
            goal == Seq::new(all.len(), |i: int| child_preview(all[i])),
            properties@.len() == i,
            forall|j: int| 0 <= j < i ==> (#[trigger] properties@[j])@ == goal[j],
        decreases list.len() - i,
    {
        assert(all[i as int] == (list@[i as int].0@, list@[i as int].1));
        let name = Json::text(list[i].0.as_str());
        let property = match list[i].1 {
            ChildKind::Namespace => Json::empty().with("name", name).with(
                "type",
                Json::text("object"),
            ).with("value", Json::text("Object")),
            ChildKind::Capability => Json::empty().with("name", name).with(
                "type",
                Json::text("function"),
            ).with("value", Json::text("ƒ")),
        };
        properties.push(property);
        i = i + 1;
    }
    assert(trees(properties@) =~= goal);
    let id = joined("remo:", path);
    Json::empty().with("type", Json::text("object")).with("className", Json::text("Object")).with(
        "description",
        Json::text("Object"),
    ).with("objectId", Json::Text(id)).with(
        "preview",
        Json::empty().with("type", Json::text("object")).with(
            "description",
            Json::text("Object"),
        ).with("overflow", Json::Bool(false)).with("properties", Json::array(properties)),
    )
}

/// What follows the last dot of a name; the whole name where it has none.
pub open spec fn last_segment(name: Seq<char>) -> Seq<char>
    decreases name.len(),
{
    if name.len() == 0 || name.last() == '.' {
        seq![]
    } else {
        last_segment(name.drop_last()).push(name.last())
    }
}

fn leaf_of(name: &str) -> (leaf: String)
    ensures
        leaf@ == last_segment(name@),
{
    let chars = chars_of(name);
    let mut start: usize = chars.len();
    assert(chars@.take(chars@.len() as int) =~= chars@);
    assert(last_segment(chars@) + chars@.skip(chars@.len() as int) =~= last_segment(chars@));
    while start > 0 && chars[start - 1] != '.'
        invariant
            start <= chars.len(),
            last_segment(chars@) == last_segment(chars@.take(start as int)) + chars@.skip(
                start as int,
            ),
        decreases start,
    {
        let ghost front = chars@.take(start as int);
        assert(front.drop_last() =~= chars@.take(start - 1));
        assert(last_segment(front.drop_last()).push(front.last()) + chars@.skip(start as int)
            =~= last_segment(front.drop_last()) + chars@.skip(start - 1));
        start = start - 1;
    }
    let leaf = slice_text(&chars, start, chars.len());
    assert(Seq::<char>::empty() + chars@.skip(start as int) =~= leaf@);
    leaf
}

/// The object that stands for a capability: a function, described with its last segment as its
/// name and with its full name as its body.
pub open spec fn function_view(name: Seq<char>) -> JsonView {
    no_entries().with("type"@, JsonView::Text("function"@)).with(
        "className"@,
        JsonView::Text("Function"@),
    ).with(
        "description"@,
        JsonView::Text(
            "function "@ + last_segment(name) + "() { [remo capability: "@ + name + "] }"@,
        ),
    )
}

/// The object that stands for a capability.
pub fn function_remote_object(full_name: &str) -> (object: Json)
    ensures
        object@ == function_view(full_name@),
{
    let mut description = joined3("function ", leaf_of(full_name).as_str(), "() { [remo capability: ");
    description.append(full_name);
    description.append("] }");
    Json::empty().with("type", Json::text("function")).with(
        "className",
        Json::text("Function"),
    ).with("description", Json::Text(description))
}

/// What a reference to a path evaluates to.
pub open spec fn reference_view(path: Seq<char>, names: Seq<Seq<char>>) -> JsonView {
    match node_at(path, names) {
        NodeView::Missing => thrown(
            "Error"@,
            "remo."@ + path + " is not a registered capability or namespace"@,
        ),
        NodeView::Capability => no_entries().with("result"@, function_view(path)),
        NodeView::Namespace(list) => no_entries().with("result"@, namespace_view(path, list)),
    }
}

/// What a typed text that the console does not understand gets.
pub open spec fn grammar_message(expression: Seq<char>) -> Seq<char> {
    "Remo's Console understands `remo` (browse registered capabilities/namespaces) and `remo.<dotted.capability.name>({...})` (call one) — this isn't a real JS engine, so arbitrary expressions aren't supported. Args must be strict JSON (double-quoted keys/strings). Got: "@
        + expression
}

/// The first step of an answer: the reply, or the capability to invoke for it. `evaluating` tells
/// an evaluation, whose failures are exceptions, from a plain invocation.
#[derive(Debug)]
pub enum RemoStep {
    Reply(CdpReply),
    Invoke { name: String, args: Json, evaluating: bool },
}

/// The first step of an answer.
#[verifier::ext_equal]
pub enum StepView {
    Reply(ReplyView),
    Invoke { name: Seq<char>, args: JsonView, evaluating: bool },
}

impl View for RemoStep {
    type V = StepView;

    open spec fn view(&self) -> StepView {
        match self {
            RemoStep::Reply(reply) => StepView::Reply(reply@),
            RemoStep::Invoke { name, args, evaluating } => StepView::Invoke {
                name: name@,
                args: args@,
                evaluating: *evaluating,
            },
        }
    }
}

/// The first step of evaluating a typed text, from what it says.
pub open spec fn evaluate_parsed(
    expression: Seq<char>,
    parsed: Option<ExprView>,
    without_side_effects: bool,
    names: Seq<Seq<char>>,
) -> StepView {
    match parsed {
        Some(ExprView::Reference(path)) => StepView::Reply(
            ReplyView::Result(reference_view(path, names)),
        ),
        Some(ExprView::Invoke { name, args }) => if without_side_effects {
            StepView::Reply(
                ReplyView::Result(
                    thrown(
                        "EvalError"@,
                        "EvalError: Possible side effect in Remo capability call"@,
                    ),
                ),
            )
        } else {
            StepView::Invoke { name, args, evaluating: true }
        },
        None => StepView::Reply(
            ReplyView::Result(thrown("Error"@, grammar_message(expression))),
        ),
    }
}

/// Whether an evaluation asks for no side effects.
pub open spec fn forbids_side_effects(params: JsonView) -> bool {
    params.truth_field("throwOnSideEffect"@) == Some(true)
}

/// The first step of `Runtime.evaluate`.
pub open spec fn evaluate_step(params: JsonView, names: Seq<Seq<char>>) -> StepView {
    match params.string_field("expression"@) {
        None => StepView::Reply(
            ReplyView::Result(
                thrown("Error"@, "Runtime.evaluate requires a string \"expression\" param"@),
            ),
        ),
        Some(expression) => evaluate_parsed(
            expression,
            console_expr(expression),
            forbids_side_effects(params),
            names,
        ),
    }
}

/// The first step of `Remo.invoke`.
pub open spec fn invoke_step(params: JsonView) -> StepView {
    match params.string_field("name"@) {
        None => StepView::Reply(failure("Remo.invoke requires a string \"name\" param"@)),
        Some(name) => StepView::Invoke {
            name,
            args: params.field_or_null("args"@),
            evaluating: false,
        },
    }
}

/// A child as a property of its namespace.
pub open spec fn descriptor(
    path: Seq<char>,
    child: (Seq<char>, ChildKind),
    names: Seq<Seq<char>>,
) -> JsonView {
    let full = child_path(path, child.0);
    no_entries().with("name"@, JsonView::Text(child.0)).with(
        "value"@,
        match child.1 {
            ChildKind::Namespace => namespace_view(full, children(full, names)),
            ChildKind::Capability => function_view(full),
        },
    ).with("writable"@, JsonView::Bool(false)).with("configurable"@, JsonView::Bool(false)).with(
        "enumerable"@,
        JsonView::Bool(true),
    )
}

/// The reply to `Runtime.getProperties`: the children of the path that the object id holds.
pub open spec fn properties_reply(params: JsonView, names: Seq<Seq<char>>) -> ReplyView {
    match params.string_field("objectId"@) {
        None => failure("Runtime.getProperties requires a string \"objectId\" param"@),
        Some(id) => match rest_after(id, "remo:"@) {
            None => failure("unrecognized objectId: "@ + id),
            Some(path) => {
                let list = children(path, names);
                ReplyView::Result(
                    no_entries().with(
                        "result"@,
                        JsonView::Array(
                            Seq::new(list.len(), |i: int| descriptor(path, list[i], names)),
                        ),
                    ),
                )
            },
        },
    }
}

/// What is announced when the console is opened: its one execution context.
pub open spec fn context_event() -> JsonView {
    event_frame(
        "Runtime.executionContextCreated"@,
        no_entries().with(
            "context"@,
            no_entries().with("id"@, whole(REMO_EXECUTION_CONTEXT_ID as int)).with(
                "origin"@,
                JsonView::Text("remo://native"@),
            ).with("name"@, JsonView::Text("remo"@)).with(
                "uniqueId"@,
                JsonView::Text("remo-native-context"@),
            ).with(
                "auxData"@,
                no_entries().with("isDefault"@, JsonView::Bool(true)).with(
                    "type"@,
                    JsonView::Text("default"@),
                ),
            ),
        ),
    )
}

/// The first step of answering a request, given the names there are.
pub open spec fn first_step(
    method: Seq<char>,
    params: JsonView,
    names: Seq<Seq<char>>,
) -> StepView {
    if method == "Remo.listCapabilities"@ {
        StepView::Reply(ReplyView::Result(no_entries().with("names"@, text_array(names))))
    } else if method == "Remo.invoke"@ {
        invoke_step(params)
    } else if method == "Runtime.getProperties"@ {
        StepView::Reply(properties_reply(params, names))
    } else if method == "Runtime.enable"@ {
        StepView::Reply(ReplyView::Result(no_entries()))
    } else if method == "Runtime.evaluate"@ {
        evaluate_step(params, names)
    } else {
        StepView::Reply(failure("Remo domain does not handle "@ + method))
    }
}

/// The events that answering a request emits.
pub open spec fn emitted(method: Seq<char>) -> Seq<JsonView> {
    if method == "Runtime.enable"@ {
        seq![context_event()]
    } else {
        seq![]
    }
}

/// The reply from what a capability gave.
pub open spec fn outcome_reply(
    name: Seq<char>,
    evaluating: bool,
    outcome: OutcomeView,
) -> ReplyView {
    match outcome {
        None => if evaluating {
            ReplyView::Result(thrown("Error"@, "no such capability: "@ + name))
        } else {
            failure("no such capability: "@ + name)
        },
        Some(Ok(value)) => if evaluating {
            ReplyView::Result(no_entries().with("result"@, remote_view(value)))
        } else {
            ReplyView::Result(no_entries().with("result"@, value))
        },
        Some(Err(message)) => if evaluating {
            ReplyView::Result(thrown("Error"@, message))
        } else {
            failure(message)
        },
    }
}

/// What a reference to a path evaluates to.
pub fn evaluate_reference(path: &str, names: &Vec<String>) -> (json: Json)
    ensures
        json@ == reference_view(path@, texts(names@)),
{
    match classify(path, names) {
        Node::Missing => evaluate_exception(
            joined3("remo.", path, " is not a registered capability or namespace").as_str(),
        ),
        Node::Capability => Json::empty().with("result", function_remote_object(path)),
        Node::Namespace(list) => Json::empty().with(
            "result",
            namespace_remote_object(path, &list),
        ),
    }
}

/// What a typed text says, where it says anything.
pub open spec fn parsed_view(parsed: Option<ConsoleExpr>) -> Option<ExprView> {
    match parsed {
        Some(expr) => Some(expr@),
        None => None,
    }
}

/// The first step of evaluating a typed text, from what it was read as.
pub fn evaluate_expr(
    expression: &str,
    parsed: Option<ConsoleExpr>,
    without_side_effects: bool,
    names: &Vec<String>,
) -> (step: RemoStep)
    ensures
        step@ == evaluate_parsed(
            expression@,
            parsed_view(parsed),
            without_side_effects,
            texts(names@),
        ),
{
    match parsed {
        Some(ConsoleExpr::Reference(path)) => RemoStep::Reply(
            CdpReply::ok(evaluate_reference(path.as_str(), names)),
        ),
        Some(ConsoleExpr::Invoke { name, args }) => if without_side_effects {
            RemoStep::Reply(CdpReply::ok(side_effect_exception()))
        } else {
            RemoStep::Invoke { name, args, evaluating: true }
        },
        None => RemoStep::Reply(
            CdpReply::ok(
                evaluate_exception(
                    joined(
                        "Remo's Console understands `remo` (browse registered capabilities/namespaces) and `remo.<dotted.capability.name>({...})` (call one) — this isn't a real JS engine, so arbitrary expressions aren't supported. Args must be strict JSON (double-quoted keys/strings). Got: ",
                        expression,
                    ).as_str(),
                ),
            ),
        ),
    }
}

/// The first step of `Runtime.evaluate`. It never ends in an error of the protocol: what fails is
/// reported as an exception inside a result.
pub fn evaluate(params: &Json, names: &Vec<String>) -> (step: RemoStep)
    ensures
        step@ == evaluate_step(params@, texts(names@)),
{
    let expression = match params.str_field("expression") {
        Some(text) => text.to_owned(),
        None => return RemoStep::Reply(
            CdpReply::ok(
                evaluate_exception("Runtime.evaluate requires a string \"expression\" param"),
            ),
        ),
    };
    let without_side_effects = match params.bool_field("throwOnSideEffect") {
        Some(flag) => flag,
        None => false,
    };
    let parsed = parse_console_expr(expression.as_str());
    assert(parsed_view(parsed) == console_expr(expression@));
    evaluate_expr(expression.as_str(), parsed, without_side_effects, names)
}

/// The first step of `Remo.invoke`.
pub fn invoke(params: &Json) -> (step: RemoStep)
    ensures
        step@ == invoke_step(params@),
{
    match params.str_field("name") {
        None => RemoStep::Reply(
            CdpReply::error("Remo.invoke requires a string \"name\" param".to_owned()),
        ),
        Some(name) => RemoStep::Invoke {
            name: name.to_owned(),
            args: params.field_or_null("args"),
            evaluating: false,
        },
    }
}

/// Answers `Runtime.getProperties`: the children of a namespace, each expandable in turn.
pub fn get_properties(params: &Json, names: &Vec<String>) -> (reply: CdpReply)
    ensures
        reply@ == properties_reply(params@, texts(names@)),
{
    let id = match params.str_field("objectId") {
        Some(id) => id,
        None => return CdpReply::error(
            "Runtime.getProperties requires a string \"objectId\" param".to_owned(),
        ),
    };
    let path = match after_prefix(id, "remo:") {
        Some(path) => path,
        None => return CdpReply::error(joined("unrecognized objectId: ", id)),
    };
    let list = children_of(path.as_str(), names);
    let prefix = prefix_below(path.as_str());
    let ghost known = texts(names@);
    let ghost all = keyed(list@);
    let ghost goal = Seq::new(all.len(), |i: int| descriptor(path@, all[i], known));
    let mut descriptors: Vec<Json> = Vec::new();
    let mut i: usize = 0;
    while i < list.len()
        invariant
            i <= list.len(),
            known == texts(names@),
            all == keyed(list@),
            prefix@ == crate::capabilities::below(path@),
            goal == Seq::new(all.len(), |i: int| descriptor(path@, all[i], known)),
            descriptors@.len() == i,
            forall|j: int| 0 <= j < i ==> (#[trigger] descriptors@[j])@ == goal[j],
        decreases list.len() - i,
    {
        assert(all[i as int] == (list@[i as int].0@, list@[i as int].1));
        let full = joined(prefix.as_str(), list[i].0.as_str());
        let value = match list[i].1 {
            ChildKind::Namespace => namespace_remote_object(
                full.as_str(),
                &children_of(full.as_str(), names),
            ),
            ChildKind::Capability => function_remote_object(full.as_str()),
        };
        descriptors.push(
            Json::empty().with("name", Json::text(list[i].0.as_str())).with("value", value).with(
                "writable",
                Json::Bool(false),
            ).with("configurable", Json::Bool(false)).with("enumerable", Json::Bool(true)),
        );
        i = i + 1;
    }
    assert(trees(descriptors@) =~= goal);
    CdpReply::ok(Json::empty().with("result", Json::array(descriptors)))
}

/// The first step of answering a request, given the names there are.
pub fn begin(request: &CdpRequest, names: &Vec<String>, events: &mut EventSink) -> (step: RemoStep)
    ensures
        step@ == first_step(request.method@, request.params@, texts(names@)),
        final(events)@ == old(events)@ + emitted(request.method@),
{
    let method = request.method.as_str();
    proof {
        reveal_strlit("Remo.listCapabilities");
        reveal_strlit("Remo.invoke");
        reveal_strlit("Runtime.getProperties");
        reveal_strlit("Runtime.enable");
        assert("Remo.listCapabilities"@.len() == 21);
        assert("Remo.invoke"@.len() == 11);
        assert("Runtime.getProperties"@.len() == 21);
        assert("Runtime.enable"@.len() == 14);
        assert(events@ + Seq::<JsonView>::empty() =~= events@);
    }
    if same_text(method, "Remo.listCapabilities") {
        RemoStep::Reply(CdpReply::ok(Json::empty().with("names", array_of_texts(names))))
    } else if same_text(method, "Remo.invoke") {
        invoke(&request.params)
    } else if same_text(method, "Runtime.getProperties") {
        RemoStep::Reply(get_properties(&request.params, names))
    } else if same_text(method, "Runtime.enable") {
        let context = Json::empty().with("id", Json::unsigned(REMO_EXECUTION_CONTEXT_ID)).with(
            "origin",
            Json::text("remo://native"),
        ).with("name", Json::text("remo")).with(
            "uniqueId",
            Json::text("remo-native-context"),
        ).with(
            "auxData",
            Json::empty().with("isDefault", Json::Bool(true)).with(
                "type",
                Json::text("default"),
            ),
        );
        let ghost before = events@;
        events.emit(
            "Runtime.executionContextCreated",
            Json::empty().with("context", context),
        );
        assert(events@ =~= before + seq![context_event()]);
        RemoStep::Reply(CdpReply::empty())
    } else if same_text(method, "Runtime.evaluate") {
        evaluate(&request.params, names)
    } else {
        RemoStep::Reply(CdpReply::error(joined("Remo domain does not handle ", method)))
    }
}

/// Makes the reply from what a capability gave.
pub fn finish(name: &str, evaluating: bool, outcome: Outcome) -> (reply: CdpReply)
    ensures
        reply@ == outcome_reply(name@, evaluating, outcome_view(outcome)),
{
    match outcome {
        None => {
            let message = joined("no such capability: ", name);
            if evaluating {
                CdpReply::ok(evaluate_exception(message.as_str()))
            } else {
                CdpReply::error(message)
            }
        },
        Some(Ok(value)) => if evaluating {
            CdpReply::ok(evaluate_success(&value))
        } else {
            CdpReply::ok(Json::empty().with("result", value))
        },
        Some(Err(message)) => if evaluating {
            CdpReply::ok(evaluate_exception(message.as_str()))
        } else {
            CdpReply::error(message)
        },
    }
}

/// The methods that the domain answers.
pub fn remo_method_list() -> (list: Vec<String>)
    ensures
        texts(list@) == remo_methods(),
{
    let list = vec![
        "Remo.invoke".to_owned(),
        "Remo.listCapabilities".to_owned(),
        "Runtime.enable".to_owned(),
        "Runtime.evaluate".to_owned(),
        "Runtime.getProperties".to_owned(),
    ];
    assert(texts(list@) =~= remo_methods());
    list
}

/// The domain over whatever holds the capabilities.
pub struct RemoDomain<I: CapabilityInvoker> {
    invoker: Arc<I>,
}

impl<I: CapabilityInvoker> RemoDomain<I> {
    /// What holds the capabilities.
    pub closed spec fn source(&self) -> I {
        *self.invoker
    }

    /// The domain over `invoker`.
    pub fn new(invoker: Arc<I>) -> (domain: RemoDomain<I>)
        ensures
            domain.source() == *invoker,
    {
        RemoDomain { invoker }
    }

    /// The methods that the domain answers.
    pub fn methods(&self) -> (list: Vec<String>)
        ensures
            texts(list@) == remo_methods(),
    {
        remo_method_list()
    }

    /// Answers a request. The names are those listed now, and where a capability is invoked the
    /// reply is made from what it gave.
    pub fn respond(&self, request: &CdpRequest, events: &mut EventSink) -> (reply: CdpReply)
        ensures
            answered(self.source(), request.method@, request.params@, reply@),
            final(events)@ == old(events)@ + emitted(request.method@),
    {
        let names = self.invoker.list();
        match begin(request, &names, events) {
            RemoStep::Reply(reply) => reply,
            RemoStep::Invoke { name, args, evaluating } => {
                let ghost handed = args;
                let outcome = self.invoker.invoke(name.as_str(), args);
                assert(given_by(self.source(), name@, handed@, outcome));
                finish(name.as_str(), evaluating, outcome)
            },
        }
    }
}

/// Whether `outcome` is what `invoker` may give where it is handed a name and arguments.
pub open spec fn given_by<I: CapabilityInvoker>(
    invoker: I,
    name: Seq<char>,
    args: JsonView,
    outcome: Outcome,
) -> bool {
    exists|n: &str, a: Json| #[trigger]
        call_ensures(I::invoke, (&invoker, n, a), outcome) && n@ == name && a@ == args
}

/// Whether a reply is that of a first step: the step's own, or the one made from what `invoker` may
/// give for the invocation that the step asks for.
pub open spec fn step_answered<I: CapabilityInvoker>(
    invoker: I,
    step: StepView,
    reply: ReplyView,
) -> bool {
    match step {
        StepView::Reply(own) => reply == own,
        StepView::Invoke { name, args, evaluating } => exists|outcome: Outcome| #[trigger]
            given_by(invoker, name, args, outcome) && reply == outcome_reply(
                name,
                evaluating,
                outcome_view(outcome),
            ),
    }
}

/// Whether a reply is that of a request over whatever `invoker` may list and give.
pub open spec fn answered<I: CapabilityInvoker>(
    invoker: I,
    method: Seq<char>,
    params: JsonView,
    reply: ReplyView,
) -> bool {
    exists|names: Vec<String>| #[trigger]
        call_ensures(I::list, (&invoker,), names) && step_answered(
            invoker,
            first_step(method, params, texts(names@)),
            reply,
        )
}

/// `Runtime.evaluate` always gives a result, whatever was typed, whatever is registered and
/// whatever a capability gave.
pub proof fn evaluate_is_never_an_error<I: CapabilityInvoker>(
    invoker: I,
    params: JsonView,
    names: Seq<Seq<char>>,
    reply: ReplyView,
)
    requires
        step_answered(invoker, evaluate_step(params, names), reply),
    ensures
        reply is Result,
{
}

/// Where side effects are forbidden, evaluating never invokes a capability.
pub proof fn no_side_effects_where_forbidden(params: JsonView, names: Seq<Seq<char>>)
    requires
        forbids_side_effects(params),
    ensures
        evaluate_step(params, names) is Reply,
{
}

/// The object id of a namespace gives its own children back.
pub proof fn object_id_gives_the_children(
    params: JsonView,
    path: Seq<char>,
    names: Seq<Seq<char>>,
)
    requires
        params.string_field("objectId"@) == Some(object_id(path)),
    ensures
        properties_reply(params, names) == ReplyView::Result(
            no_entries().with(
                "result"@,
                JsonView::Array(
                    Seq::new(
                        children(path, names).len(),
                        |i: int| descriptor(path, children(path, names)[i], names),
                    ),
                ),
            ),
        ),
{
    let prefix = "remo:"@;
    assert(object_id(path).subrange(0, prefix.len() as int) =~= prefix);
    assert(object_id(path).skip(prefix.len() as int) =~= path);
    let list = children(path, names);
    assert(Seq::new(list.len(), |i: int| descriptor(path, list[i], names)) =~= Seq::new(
        children(path, names).len(),
        |i: int| descriptor(path, children(path, names)[i], names),
    ));
}

/// Texts become the items of an array, in their order.
pub proof fn texts_become_items(list: Seq<Seq<char>>)
    ensures
        text_array(list) matches JsonView::Array(items) && items.len() == list.len() && forall|i: int|
            0 <= i < list.len() ==> (#[trigger] items[i]).string() == Some(list[i]),
{
}

/// Whether a value reports a failed evaluation: the result is undefined, and the exception bears a
/// class and a description.
pub open spec fn reports(value: JsonView, class: Seq<char>, description: Seq<char>) -> bool {
    &&& value.field("result"@) matches Some(result)
    &&& result.string_field("type"@) == Some("undefined"@)
    &&& value.field("exceptionDetails"@) matches Some(details)
    &&& details.string_field("text"@) == Some("Uncaught"@)
    &&& details.field("exceptionId"@) == Some(whole(1))
    &&& details.field("lineNumber"@) == Some(whole(0))
    &&& details.field("columnNumber"@) == Some(whole(0))
    &&& details.field("exception"@) matches Some(exception)
    &&& exception.string_field("type"@) == Some("object"@)
    &&& exception.string_field("subtype"@) == Some("error"@)
    &&& exception.string_field("className"@) == Some(class)
    &&& exception.string_field("description"@) == Some(description)
}

/// A failed evaluation is reported with its class and its description.
pub proof fn exceptions_say_what_failed(class: Seq<char>, description: Seq<char>)
    ensures
        reports(thrown(class, description), class, description),
{
    broadcast use {with_fields, no_fields};
    remo_names();
}

proof fn remo_names()
    ensures
        "type"@ != "subtype"@,
        "type"@ != "className"@,
        "type"@ != "description"@,
        "type"@ != "objectId"@,
        "type"@ != "preview"@,
        "subtype"@ != "className"@,
        "subtype"@ != "description"@,
        "subtype"@ != "objectId"@,
        "subtype"@ != "preview"@,
        "className"@ != "description"@,
        "className"@ != "objectId"@,
        "className"@ != "preview"@,
        "description"@ != "objectId"@,
        "description"@ != "preview"@,
        "objectId"@ != "preview"@,
        "type"@ != "overflow"@,
        "type"@ != "properties"@,
        "description"@ != "overflow"@,
        "description"@ != "properties"@,
        "overflow"@ != "properties"@,
        "name"@ != "type"@,
        "name"@ != "value"@,
        "name"@ != "writable"@,
        "name"@ != "configurable"@,
        "name"@ != "enumerable"@,
        "type"@ != "value"@,
        "type"@ != "writable"@,
        "type"@ != "configurable"@,
        "type"@ != "enumerable"@,
        "value"@ != "writable"@,
        "value"@ != "configurable"@,
        "value"@ != "enumerable"@,
        "writable"@ != "configurable"@,
        "writable"@ != "enumerable"@,
        "configurable"@ != "enumerable"@,
        "result"@ != "exceptionDetails"@,
        "exceptionId"@ != "text"@,
        "exceptionId"@ != "lineNumber"@,
        "exceptionId"@ != "columnNumber"@,
        "exceptionId"@ != "exception"@,
        "text"@ != "lineNumber"@,
        "text"@ != "columnNumber"@,
        "text"@ != "exception"@,
        "lineNumber"@ != "columnNumber"@,
        "lineNumber"@ != "exception"@,
        "columnNumber"@ != "exception"@,
        "id"@ != "origin"@,
        "id"@ != "name"@,
        "id"@ != "uniqueId"@,
        "id"@ != "auxData"@,
        "origin"@ != "name"@,
        "origin"@ != "uniqueId"@,
        "origin"@ != "auxData"@,
        "name"@ != "uniqueId"@,
        "name"@ != "auxData"@,
        "uniqueId"@ != "auxData"@,
        "isDefault"@ != "type"@,
        "method"@ != "params"@,
        "Remo.invoke"@ != "Remo.listCapabilities"@,
        "Remo.invoke"@ != "Runtime.enable"@,
        "Remo.invoke"@ != "Runtime.evaluate"@,
        "Remo.invoke"@ != "Runtime.getProperties"@,
        "Remo.listCapabilities"@ != "Runtime.enable"@,
        "Remo.listCapabilities"@ != "Runtime.evaluate"@,
        "Remo.listCapabilities"@ != "Runtime.getProperties"@,
        "Runtime.enable"@ != "Runtime.evaluate"@,
        "Runtime.enable"@ != "Runtime.getProperties"@,
        "Runtime.evaluate"@ != "Runtime.getProperties"@,
{
    reveal_strlit("type");
    reveal_strlit("subtype");
    reveal_strlit("className");
    reveal_strlit("description");
    reveal_strlit("objectId");
    reveal_strlit("preview");
    reveal_strlit("overflow");
    reveal_strlit("properties");
    reveal_strlit("name");
    reveal_strlit("value");
    reveal_strlit("writable");
    reveal_strlit("configurable");
    reveal_strlit("enumerable");
    reveal_strlit("result");
    reveal_strlit("exceptionDetails");
    reveal_strlit("exceptionId");
    reveal_strlit("text");
    reveal_strlit("lineNumber");
    reveal_strlit("columnNumber");
    reveal_strlit("exception");
    reveal_strlit("id");
    reveal_strlit("origin");
    reveal_strlit("uniqueId");
    reveal_strlit("auxData");
    reveal_strlit("isDefault");
    reveal_strlit("method");
    reveal_strlit("params");
    reveal_strlit("Remo.invoke");
    reveal_strlit("Remo.listCapabilities");
    reveal_strlit("Runtime.enable");
    reveal_strlit("Runtime.evaluate");
    reveal_strlit("Runtime.getProperties");
    assert("type"@.len() == 4);
    assert("subtype"@.len() == 7);
    assert("className"@.len() == 9);
    assert("description"@.len() == 11);
    assert("objectId"@.len() == 8);
    assert("preview"@.len() == 7);
    assert("overflow"@.len() == 8);
    assert("properties"@.len() == 10);
    assert("name"@.len() == 4);
    assert("value"@.len() == 5);
    assert("writable"@.len() == 8);
    assert("configurable"@.len() == 12);
    assert("enumerable"@.len() == 10);
    assert("result"@.len() == 6);
    assert("exceptionDetails"@.len() == 16);
    assert("exceptionId"@.len() == 11);
    assert("text"@.len() == 4);
    assert("lineNumber"@.len() == 10);
    assert("columnNumber"@.len() == 12);
    assert("exception"@.len() == 9);
    assert("id"@.len() == 2);
    assert("origin"@.len() == 6);
    assert("uniqueId"@.len() == 8);
    assert("auxData"@.len() == 7);
    assert("isDefault"@.len() == 9);
    assert("method"@.len() == 6);
    assert("params"@.len() == 6);
    assert("Remo.invoke"@.len() == 11);
    assert("Remo.listCapabilities"@.len() == 21);
    assert("Runtime.enable"@.len() == 14);
    assert("Runtime.evaluate"@.len() == 16);
    assert("Runtime.getProperties"@.len() == 21);
    assert("subtype"@[0] == 's');
    assert("preview"@[0] == 'p');
    assert("name"@[0] == 'n');
    assert("type"@[0] == 't');
    assert("method"@[0] == 'm');
    assert("params"@[0] == 'p');
    assert("Remo.listCapabilities"@[1] == 'e');
    assert("Runtime.getProperties"@[1] == 'u');
}


/// Whether a value stands for a namespace: it can be expanded by its id, and its preview lists the
/// children in order, namespaces as objects and capabilities as functions.
pub open spec fn stands_for_namespace(
    value: JsonView,
    path: Seq<char>,
    list: Seq<(Seq<char>, ChildKind)>,
) -> bool {
    &&& value.string_field("type"@) == Some("object"@)
    &&& value.string_field("className"@) == Some("Object"@)
    &&& value.string_field("description"@) == Some("Object"@)
    &&& value.string_field("objectId"@) == Some("remo:"@ + path)
    &&& value.field("preview"@) matches Some(preview)
    &&& preview.string_field("type"@) == Some("object"@)
    &&& preview.string_field("description"@) == Some("Object"@)
    &&& preview.truth_field("overflow"@) == Some(false)
    &&& preview.field("properties"@) matches Some(JsonView::Array(properties))
    &&& properties.len() == list.len()
    &&& forall|i: int|
        0 <= i < list.len() ==> {
            &&& (#[trigger] properties[i]).string_field("name"@) == Some(list[i].0)
            &&& list[i].1 == ChildKind::Capability ==> properties[i].string_field("type"@) == Some(
                "function"@,
            ) && properties[i].string_field("value"@) == Some(seq!['ƒ'])
            &&& list[i].1 == ChildKind::Namespace ==> properties[i].string_field("type"@) == Some(
                "object"@,
            ) && properties[i].string_field("value"@) == Some("Object"@)
        }
}

/// A namespace can be expanded by its id, and previews its children in order.
pub proof fn namespaces_preview_their_children(path: Seq<char>, list: Seq<(Seq<char>, ChildKind)>)
    ensures
        stands_for_namespace(namespace_view(path, list), path, list),
{
    broadcast use {with_fields, no_fields};
    remo_names();
    reveal_strlit("ƒ");
    assert("ƒ"@ =~= seq!['ƒ']);
    assert forall|i: int| 0 <= i < list.len() implies {
        &&& (#[trigger] child_preview(list[i])).string_field("name"@) == Some(list[i].0)
        &&& list[i].1 == ChildKind::Capability ==> child_preview(list[i]).string_field("type"@)
            == Some("function"@) && child_preview(list[i]).string_field("value"@) == Some(seq!['ƒ'])
        &&& list[i].1 == ChildKind::Namespace ==> child_preview(list[i]).string_field("type"@)
            == Some("object"@) && child_preview(list[i]).string_field("value"@) == Some("Object"@)
    } by {}
}

/// The last segment of a name is what stands behind its last dot.
pub proof fn last_segments_stand_last(front: Seq<char>, leaf: Seq<char>)
    requires
        forall|i: int| 0 <= i < leaf.len() ==> #[trigger] leaf[i] != '.',
    ensures
        last_segment(front + seq!['.'] + leaf) == leaf,
        last_segment(leaf) == leaf,
    decreases leaf.len(),
{
    let name = front + seq!['.'] + leaf;
    if leaf.len() == 0 {
        assert(name.last() == '.');
    } else {
        let shorter = leaf.drop_last();
        assert forall|i: int| 0 <= i < shorter.len() implies #[trigger] shorter[i] != '.' by {
            assert(shorter[i] == leaf[i]);
        }
        last_segments_stand_last(front, shorter);
        assert(leaf[leaf.len() - 1] != '.');
        assert(name.last() == leaf.last());
        assert(name.drop_last() =~= front + seq!['.'] + shorter);
        assert(shorter.push(leaf.last()) =~= leaf);
    }
}

/// A capability is shown as a function, under its last segment and with its whole name.
pub proof fn capabilities_are_functions(front: Seq<char>, leaf: Seq<char>)
    requires
        forall|i: int| 0 <= i < leaf.len() ==> #[trigger] leaf[i] != '.',
    ensures
        ({
            let name = front + seq!['.'] + leaf;
            let value = function_view(name);
            &&& value.string_field("type"@) == Some("function"@)
            &&& value.string_field("className"@) == Some("Function"@)
            &&& value.string_field("description"@) == Some(
                "function "@ + leaf + "() { [remo capability: "@ + name + "] }"@,
            )
            &&& value.field("objectId"@) is None
        }),
{
    broadcast use {with_fields, no_fields};
    remo_names();
    last_segments_stand_last(front, leaf);
}

/// A reference gives the function of a capability, the object of a namespace, and an exception
/// where the path is neither.
pub proof fn references_give_what_is_there(path: Seq<char>, names: Seq<Seq<char>>)
    ensures
        ({
            let value = reference_view(path, names);
            &&& node_at(path, names) is Missing <==> value.field("exceptionDetails"@) is Some
            &&& node_at(path, names) is Missing ==> reports(
                value,
                "Error"@,
                "remo."@ + path + " is not a registered capability or namespace"@,
            )
            &&& node_at(path, names) is Capability ==> value.field("result"@) == Some(
                function_view(path),
            )
            &&& node_at(path, names) matches NodeView::Namespace(list) ==> (value.field(
                "result"@,
            ) matches Some(result) && stands_for_namespace(result, path, list))
        }),
{
    broadcast use {with_fields, no_fields};
    remo_names();
    match node_at(path, names) {
        NodeView::Missing => {
            exceptions_say_what_failed(
                "Error"@,
                "remo."@ + path + " is not a registered capability or namespace"@,
            );
        },
        NodeView::Namespace(list) => {
            namespaces_preview_their_children(path, list);
        },
        NodeView::Capability => {},
    }
}

/// A child is listed as a property that can be seen but not changed: a namespace with its own
/// children, a capability as a function under its full name.
pub proof fn children_are_properties(
    path: Seq<char>,
    child: (Seq<char>, ChildKind),
    names: Seq<Seq<char>>,
)
    ensures
        ({
            let property = descriptor(path, child, names);
            let full = if path.len() > 0 {
                path + seq!['.'] + child.0
            } else {
                child.0
            };
            &&& property.string_field("name"@) == Some(child.0)
            &&& property.truth_field("writable"@) == Some(false)
            &&& property.truth_field("configurable"@) == Some(false)
            &&& property.truth_field("enumerable"@) == Some(true)
            &&& child.1 == ChildKind::Capability ==> property.field("value"@) == Some(
                function_view(full),
            )
            &&& child.1 == ChildKind::Namespace ==> (property.field("value"@) matches Some(value)
                && stands_for_namespace(value, full, children(full, names)))
        }),
{
    broadcast use {with_fields, no_fields};
    remo_names();
    reveal_strlit(".");
    assert("."@ =~= seq!['.']);
    let full = child_path(path, child.0);
    if path.len() > 0 {
        assert(full =~= path + seq!['.'] + child.0);
    } else {
        assert(full =~= child.0);
    }
    namespaces_preview_their_children(full, children(full, names));
}

/// The properties of an object are the children of the path in its id, one for one; an id that is
/// not marked as the domain's own is refused.
pub proof fn properties_are_the_children(params: JsonView, id: Seq<char>, names: Seq<Seq<char>>)
    requires
        params.string_field("objectId"@) == Some(id),
    ensures
        properties_reply(params, names) is Error <==> !begins_with(id, "remo:"@),
        begins_with(id, "remo:"@) ==> (properties_reply(params, names) matches ReplyView::Result(
            value,
        ) && ({
            let path = id.skip(5);
            let list = children(path, names);
            &&& value.field("result"@) matches Some(JsonView::Array(items))
            &&& items.len() == list.len()
            &&& forall|i: int|
                0 <= i < list.len() ==> #[trigger] items[i] == descriptor(path, list[i], names)
        })),
{
    broadcast use {with_fields, no_fields};
    reveal_strlit("remo:");
    assert("remo:"@.len() == 5);
}

/// Opening the console, and nothing else, is followed by the announcement of the one context.
pub proof fn the_context_is_announced(method: Seq<char>)
    ensures
        method != "Runtime.enable"@ ==> emitted(method).len() == 0,
        method == "Runtime.enable"@ ==> emitted(method).len() == 1 && ({
            let event = emitted(method)[0];
            &&& event.string_field("method"@) == Some("Runtime.executionContextCreated"@)
            &&& event.field("params"@) matches Some(params)
            &&& params.field("context"@) matches Some(context)
            &&& context.field("id"@) == Some(whole(1))
            &&& context.string_field("origin"@) == Some("remo://native"@)
            &&& context.string_field("name"@) == Some("remo"@)
            &&& context.string_field("uniqueId"@) == Some("remo-native-context"@)
            &&& context.field("auxData"@) matches Some(data)
            &&& data.truth_field("isDefault"@) == Some(true)
            &&& data.string_field("type"@) == Some("default"@)
        }),
{
    broadcast use {with_fields, no_fields};
    remo_names();
}

/// What a capability gave is told as it is to a plain invocation, and as an object to an
/// evaluation; why it failed, or that there is none of its name, is an error there and an exception
/// here.
pub proof fn outcomes_are_told(name: Seq<char>, value: JsonView, message: Seq<char>)
    ensures
        outcome_reply(name, false, Some(Ok(value))) matches ReplyView::Result(reply)
            && reply.field("result"@) == Some(value),
        outcome_reply(name, true, Some(Ok(value))) matches ReplyView::Result(reply)
            && reply.field("result"@) == Some(remote_view(value)) && reply.field(
            "exceptionDetails"@,
        ) is None,
        outcome_reply(name, false, Some(Err(message))) matches ReplyView::Error {
            code,
            message: told,
        } && told == message,
        outcome_reply(name, true, Some(Err(message))) matches ReplyView::Result(reply) && reports(
            reply,
            "Error"@,
            message,
        ),
        outcome_reply(name, false, None) matches ReplyView::Error { code, message: told } && told
            == "no such capability: "@ + name,
        outcome_reply(name, true, None) matches ReplyView::Result(reply) && reports(
            reply,
            "Error"@,
            "no such capability: "@ + name,
        ),
{
    broadcast use {with_fields, no_fields};
    remo_names();
    exceptions_say_what_failed("Error"@, message);
    exceptions_say_what_failed("Error"@, "no such capability: "@ + name);
}

/// What is typed decides the evaluation: a call invokes its capability with its arguments unless
/// side effects are forbidden, and a text that is not understood is told back in an exception.
pub proof fn typed_text_decides(params: JsonView, expression: Seq<char>, names: Seq<Seq<char>>)
    requires
        params.string_field("expression"@) == Some(expression),
    ensures
        console_expr(expression) matches Some(ExprView::Invoke { name, args }) ==> {
            &&& params.truth_field("throwOnSideEffect"@) != Some(true) ==> evaluate_step(
                params,
                names,
            ) == (StepView::Invoke { name, args, evaluating: true })
            &&& params.truth_field("throwOnSideEffect"@) == Some(true) ==> (evaluate_step(
                params,
                names,
            ) matches StepView::Reply(ReplyView::Result(value)) && reports(
                value,
                "EvalError"@,
                "EvalError: Possible side effect in Remo capability call"@,
            ))
        },
        console_expr(expression) matches Some(ExprView::Reference(path)) ==> evaluate_step(
            params,
            names,
        ) == StepView::Reply(ReplyView::Result(reference_view(path, names))),
        console_expr(expression) is None ==> (evaluate_step(params, names) matches StepView::Reply(
            ReplyView::Result(value),
        ) && value.field("exceptionDetails"@) matches Some(details) && details.field(
            "exception"@,
        ) matches Some(exception) && exception.string_field("description"@) matches Some(text)
            && ends_in(text, expression)),
{
    exceptions_say_what_failed(
        "EvalError"@,
        "EvalError: Possible side effect in Remo capability call"@,
    );
    let message = grammar_message(expression);
    exceptions_say_what_failed("Error"@, message);
    assert(message.subrange(
        message.len() - expression.len(),
        message.len() as int,
    ) =~= expression);
}

/// An invocation names its capability by a text, and its arguments are null where none are given.
pub proof fn invocations_name_their_capability(params: JsonView)
    ensures
        invoke_step(params) is Invoke <==> params.field("name"@) matches Some(JsonView::Text(_)),
        invoke_step(params) matches StepView::Invoke { name, args, evaluating } ==> {
            &&& params.field("name"@) == Some(JsonView::Text(name))
            &&& params.field("args"@) is Some ==> params.field("args"@) == Some(args)
            &&& params.field("args"@) is None ==> args is Null
            &&& !evaluating
        },
{
}

/// A method that the domain does not list is refused by name.
pub proof fn other_methods_are_refused(
    method: Seq<char>,
    params: JsonView,
    names: Seq<Seq<char>>,
)
    requires
        !remo_methods().contains(method),
    ensures
        first_step(method, params, names) matches StepView::Reply(
            ReplyView::Error { code, message },
        ) && message == "Remo domain does not handle "@ + method,
{
    let all = remo_methods();
    assert(all[0] != method && all[1] != method && all[2] != method && all[3] != method && all[4]
        != method);
}

/// Opening the console is acknowledged with an empty result.
pub proof fn opening_is_acknowledged(params: JsonView, names: Seq<Seq<char>>)
    ensures
        first_step("Runtime.enable"@, params, names) == StepView::Reply(
            ReplyView::Result(JsonView::Object(seq![])),
        ),
{
    remo_names();
}

} // verus!
