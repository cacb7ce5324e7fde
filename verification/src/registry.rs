//! Capabilities by name.
use crate::dispatcher::{failure, ReplyView};
use crate::domain_remo::{
    answered, first_step, given_by, outcome_reply, outcome_view, step_answered, text_array,
    CapabilityInvoker, Outcome, RemoDomain,
};
use crate::json::{no_entries, no_fields, with_fields, Json, JsonView};
use crate::tables::{get_slot, insert_slot, new_slots, slot_names, slots};
use crate::text::{begins_with, ends_in, joined, texts};
use std::sync::Arc;
use vstd::prelude::*;

verus! {

/// Handlers by name: a table of names, and the handlers that it points to.
pub struct HandlerTable<H> {
    names: dashmap::DashMap<String, usize>,
    handlers: Vec<H>,
}

impl<H> HandlerTable<H> {
    /// The handler under each name.
    pub closed spec fn table(&self) -> Map<Seq<char>, H> {
        Map::new(
            |name: Seq<char>| slots(self.names).contains_key(name),
            |name: Seq<char>| self.handlers@[slots(self.names)[name] as int],
        )
    }

    /// Each name has a handler of its own.
    #[verifier::type_invariant]
    spec fn well_formed(self) -> bool {
        &&& forall|name: Seq<char>| #[trigger]
            slots(self.names).contains_key(name) ==> slots(self.names)[name] < self.handlers@.len()
        &&& forall|a: Seq<char>, b: Seq<char>|
            #![trigger slots(self.names)[a], slots(self.names)[b]]
            slots(self.names).contains_key(a) && slots(self.names).contains_key(b) && slots(
                self.names,
            )[a] == slots(self.names)[b] ==> a == b
    }

    /// No handlers.
    pub fn new() -> (handlers: HandlerTable<H>)
        ensures
            handlers.table() == Map::<Seq<char>, H>::empty(),
    {
        let names = new_slots();
        assert forall|name: Seq<char>| !slots(names).contains_key(name) by {
            assert(!slots(names).dom().contains(name));
        }
        let handlers = HandlerTable { names, handlers: Vec::new() };
        assert(handlers.table() =~= Map::<Seq<char>, H>::empty());
        handlers
    }

    /// Registers a handler under a name, in the place of one that was there.
    pub fn register(&mut self, name: String, handler: H)
        ensures
            final(self).table() == old(self).table().insert(name@, handler),
    {
        proof {
            use_type_invariant(&*self);
        }
        let ghost before = self.table();
        let mut names = new_slots();
        assert forall|n: Seq<char>| !slots(names).contains_key(n) by {
            assert(!slots(names).dom().contains(n));
        }
        let mut handlers: Vec<H> = Vec::new();
        std::mem::swap(&mut self.names, &mut names);
        std::mem::swap(&mut self.handlers, &mut handlers);
        match get_slot(&names, name.as_str()) {
            Some(slot) => {
                handlers.set(slot, handler);
            },
            None => {
                let slot: usize = handlers.len();
                handlers.push(handler);
                insert_slot(&mut names, name, slot);
            },
        }
        self.handlers = handlers;
        self.names = names;
        assert(self.table() =~= before.insert(name@, handler));
    }

    /// The handler under a name.
    pub fn find(&self, name: &str) -> (handler: Option<&H>)
        ensures
            handler is Some == self.table().contains_key(name@),
            handler matches Some(h) ==> *h == self.table()[name@],
    {
        proof {
            use_type_invariant(self);
        }
        match get_slot(&self.names, name) {
            Some(slot) => Some(&self.handlers[slot]),
            None => None,
        }
    }

    /// The names, each once, in no particular order.
    pub fn list(&self) -> (names: Vec<String>)
        ensures
            texts(names@).no_duplicates(),
            texts(names@).to_set() == self.table().dom(),
    {
        let names = slot_names(&self.names);
        assert(self.table().dom() =~= slots(self.names).dom());
        names
    }
}

/// What a capability gives.
#[derive(Debug)]
pub enum HandlerOutput {
    Json(Json),
    Binary { metadata: Json, data: Vec<u8> },
}

/// Why a capability failed.
#[derive(Debug)]
pub enum HandlerError {
    InvalidParams(String),
    Internal(String),
}

/// What a capability is.
pub trait CapabilityHandler {
    /// Does what the capability does.
    fn handle(&self, params: Json) -> Result<HandlerOutput, HandlerError>;
}

/// The capabilities of an app.
pub struct CapabilityRegistry<H: CapabilityHandler> {
    handlers: HandlerTable<H>,
}

impl<H: CapabilityHandler> CapabilityRegistry<H> {
    /// The capability under each name.
    pub closed spec fn table(&self) -> Map<Seq<char>, H> {
        self.handlers.table()
    }

    /// No capabilities.
    pub fn new() -> (registry: CapabilityRegistry<H>)
        ensures
            registry.table() == Map::<Seq<char>, H>::empty(),
    {
        CapabilityRegistry { handlers: HandlerTable::new() }
    }

    /// Registers a capability under a name, in the place of one that was there.
    pub fn register(&mut self, name: String, handler: H)
        ensures
            final(self).table() == old(self).table().insert(name@, handler),
    {
        self.handlers.register(name, handler);
    }

    /// Invokes the capability under a name; nothing where there is none.
    pub fn invoke(&self, name: &str, params: Json) -> (result: Option<
        Result<HandlerOutput, HandlerError>,
    >)
        ensures
            result is Some == self.table().contains_key(name@),
            result matches Some(given) ==> call_ensures(
                H::handle,
                (&self.table()[name@], params),
                given,
            ),
    {
        match self.handlers.find(name) {
            Some(handler) => Some(handler.handle(params)),
            None => None,
        }
    }

    /// The names, each once, in no particular order.
    pub fn list(&self) -> (names: Vec<String>)
        ensures
            texts(names@).no_duplicates(),
            texts(names@).to_set() == self.table().dom(),
    {
        self.handlers.list()
    }
}

/// What a request gets for a capability that gives bytes.
pub open spec fn binary_refusal() -> Seq<char> {
    "this capability returns binary data, which Remo.invoke does not carry — expose it as a dedicated CDP method instead (see Page.captureScreenshot)"@
}

/// What a request gets for what a capability gave.
pub open spec fn carries(
    result: Result<HandlerOutput, HandlerError>,
    value: Result<Json, String>,
) -> bool {
    match result {
        Ok(HandlerOutput::Json(json)) => value == Ok::<Json, String>(json),
        Ok(HandlerOutput::Binary { metadata, data }) => value matches Err(message) && message@
            == binary_refusal(),
        Err(HandlerError::InvalidParams(text)) => value matches Err(message) && message@
            == "invalid params: "@ + text@,
        Err(HandlerError::Internal(text)) => value matches Err(message) && message@
            == "internal error: "@ + text@,
    }
}

/// What a request gets for what a capability gave: its JSON, or why there is none.
pub fn carried(result: Result<HandlerOutput, HandlerError>) -> (value: Result<Json, String>)
    ensures
        carries(result, value),
{
    match result {
        Ok(HandlerOutput::Json(value)) => Ok(value),
        Ok(HandlerOutput::Binary { metadata: _, data: _ }) => Err(
            "this capability returns binary data, which Remo.invoke does not carry — expose it as a dedicated CDP method instead (see Page.captureScreenshot)".to_owned(),
        ),
        Err(HandlerError::InvalidParams(message)) => Err(
            joined("invalid params: ", message.as_str()),
        ),
        Err(HandlerError::Internal(message)) => Err(joined("internal error: ", message.as_str())),
    }
}

/// A registry as what holds the capabilities of a domain.
pub struct RegistryInvoker<H: CapabilityHandler>(pub CapabilityRegistry<H>);

impl<H: CapabilityHandler> CapabilityInvoker for RegistryInvoker<H> {
    fn invoke(&self, name: &str, params: Json) -> (outcome: Outcome)
        ensures
            outcome is Some == self.0.table().contains_key(name@),
            outcome matches Some(value) ==> exists|given: Result<HandlerOutput, HandlerError>|
                #[trigger] call_ensures(H::handle, (&self.0.table()[name@], params), given)
                    && carries(given, value),
    {
        match self.0.invoke(name, params) {
            Some(result) => Some(carried(result)),
            None => None,
        }
    }

    fn list(&self) -> (names: Vec<String>)
        ensures
            texts(names@).no_duplicates(),
            texts(names@).to_set() == self.0.table().dom(),
    {
        self.0.list()
    }
}

/// The domain over a registry.
pub fn remo_domain<H: CapabilityHandler>(registry: CapabilityRegistry<H>) -> (domain: RemoDomain<
    RegistryInvoker<H>,
>)
    ensures
        domain.source().0 == registry,
{
    RemoDomain::new(Arc::new(RegistryInvoker(registry)))
}

/// What `Remo.invoke` is answered for what a capability gave.
pub open spec fn invocation_reply(given: Result<HandlerOutput, HandlerError>) -> ReplyView {
    match given {
        Ok(HandlerOutput::Json(json)) => ReplyView::Result(no_entries().with("result"@, json@)),
        Ok(HandlerOutput::Binary { metadata, data }) => failure(binary_refusal()),
        Err(HandlerError::InvalidParams(text)) => failure("invalid params: "@ + text@),
        Err(HandlerError::Internal(text)) => failure("internal error: "@ + text@),
    }
}

/// The domain over a registry lists the names of the registry, each once.
pub proof fn registry_names_are_listed<H: CapabilityHandler>(
    invoker: RegistryInvoker<H>,
    params: JsonView,
    reply: ReplyView,
)
    requires
        answered(invoker, "Remo.listCapabilities"@, params, reply),
    ensures
        exists|names: Seq<Seq<char>>| #[trigger]
            names.no_duplicates() && names.to_set() == invoker.0.table().dom() && reply
                == ReplyView::Result(no_entries().with("names"@, text_array(names))),
{
    let names = choose|names: Vec<String>| #[trigger]
        call_ensures(RegistryInvoker::<H>::list, (&invoker,), names) && step_answered(
            invoker,
            first_step("Remo.listCapabilities"@, params, texts(names@)),
            reply,
        );
    assert(texts(names@).no_duplicates());
}

/// The domain over a registry answers an invocation by what the capability of that name may give
/// for just those arguments, and a name without a capability with an error that names it.
pub proof fn registry_answers_invocations<H: CapabilityHandler>(
    invoker: RegistryInvoker<H>,
    params: JsonView,
    name: Seq<char>,
    reply: ReplyView,
)
    requires
        answered(invoker, "Remo.invoke"@, params, reply),
        params.string_field("name"@) == Some(name),
    ensures
        !invoker.0.table().contains_key(name) ==> reply == failure("no such capability: "@ + name),
        invoker.0.table().contains_key(name) ==> exists|
            args: Json,
            given: Result<HandlerOutput, HandlerError>,
        | #[trigger]
            call_ensures(H::handle, (&invoker.0.table()[name], args), given) && args@
                == params.field_or_null("args"@) && reply == invocation_reply(given),
{
    reveal_strlit("Remo.listCapabilities");
    reveal_strlit("Remo.invoke");
    assert("Remo.listCapabilities"@.len() == 21 && "Remo.invoke"@.len() == 11);
    let names = choose|names: Vec<String>| #[trigger]
        call_ensures(RegistryInvoker::<H>::list, (&invoker,), names) && step_answered(
            invoker,
            first_step("Remo.invoke"@, params, texts(names@)),
            reply,
        );
    let args = params.field_or_null("args"@);
    let outcome = choose|outcome: Outcome| #[trigger]
        given_by(invoker, name, args, outcome) && reply == outcome_reply(
            name,
            false,
            outcome_view(outcome),
        );
    let (n, a) = choose|n: &str, a: Json| #[trigger]
        call_ensures(RegistryInvoker::<H>::invoke, (&invoker, n, a), outcome) && n@ == name && a@
            == args;
    assert(outcome is Some == invoker.0.table().contains_key(n@));
    if let Some(value) = outcome {
        let given = choose|given: Result<HandlerOutput, HandlerError>| #[trigger]
            call_ensures(H::handle, (&invoker.0.table()[n@], a), given) && carries(given, value);
        assert(reply == invocation_reply(given));
    }
}

/// What a capability held in memory is.
pub trait SyncHandler {
    /// Does what the capability does.
    fn call(&self, params: Json) -> Result<Json, String>;
}

/// Capabilities held in memory.
pub struct InMemoryCapabilities<H: SyncHandler> {
    handlers: HandlerTable<H>,
}

impl<H: SyncHandler> InMemoryCapabilities<H> {
    /// The capability under each name.
    pub closed spec fn table(&self) -> Map<Seq<char>, H> {
        self.handlers.table()
    }

    /// No capabilities.
    pub fn new() -> (capabilities: InMemoryCapabilities<H>)
        ensures
            capabilities.table() == Map::<Seq<char>, H>::empty(),
    {
        InMemoryCapabilities { handlers: HandlerTable::new() }
    }

    /// Registers a capability under a name, in the place of one that was there.
    pub fn register(&mut self, name: String, handler: H)
        ensures
            final(self).table() == old(self).table().insert(name@, handler),
    {
        self.handlers.register(name, handler);
    }
}

impl<H: SyncHandler> CapabilityInvoker for InMemoryCapabilities<H> {
    fn invoke(&self, name: &str, params: Json) -> (outcome: Outcome)
        ensures
            outcome is Some == self.table().contains_key(name@),
            outcome matches Some(given) ==> call_ensures(
                H::call,
                (&self.table()[name@], params),
                given,
            ),
    {
        match self.handlers.find(name) {
            Some(handler) => Some(handler.call(params)),
            None => None,
        }
    }

    fn list(&self) -> (names: Vec<String>)
        ensures
            texts(names@).no_duplicates(),
            texts(names@).to_set() == self.table().dom(),
    {
        self.handlers.list()
    }
}

/// The JSON that a capability gave is the result; bytes are refused, and a failure is told by its
/// kind and its message.
pub proof fn invocations_tell_what_was_given(
    json: Json,
    metadata: Json,
    data: Vec<u8>,
    text: String,
)
    ensures
        invocation_reply(Ok(HandlerOutput::Json(json))) matches ReplyView::Result(value)
            && value.field("result"@) == Some(json@),
        invocation_reply(Ok(HandlerOutput::Binary { metadata, data })) is Error,
        invocation_reply(Err(HandlerError::InvalidParams(text))) matches ReplyView::Error {
            code,
            message,
        } && begins_with(message, "invalid params: "@) && ends_in(message, text@),
        invocation_reply(Err(HandlerError::Internal(text))) matches ReplyView::Error {
            code,
            message,
        } && begins_with(message, "internal error: "@) && ends_in(message, text@),
{
    broadcast use {with_fields, no_fields};
    let a = "invalid params: "@ + text@;
    let b = "internal error: "@ + text@;
    assert(a.subrange(0, "invalid params: "@.len() as int) =~= "invalid params: "@);
    assert(b.subrange(0, "internal error: "@.len() as int) =~= "internal error: "@);
    assert(a.subrange(a.len() - text@.len(), a.len() as int) =~= text@);
    assert(b.subrange(b.len() - text@.len(), b.len() as int) =~= text@);
}

} // verus!
