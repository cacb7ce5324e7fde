//! Requests and replies of the debugging protocol, which domain answers which method, and what
//! answering costs.
use crate::json::{no_entries, no_fields, with_fields, Json, JsonView};
use crate::order::{keyed, look_up, put, put_item, put_then_look_up};
use crate::text::{same_text, texts};
use vstd::prelude::*;

verus! {

/// One inbound request.
#[derive(Debug)]
pub struct CdpRequest {
    pub id: u64,
    pub method: String,
    pub params: Json,
}

/// A domain's answer to one request.
#[derive(Debug)]
pub enum CdpReply {
    Result(Json),
    Error { code: i32, message: String },
}

/// What a reply says.
#[verifier::ext_equal]
pub enum ReplyView {
    Result(JsonView),
    Error { code: int, message: Seq<char> },
}

/// The code of every error that a domain answers with.
pub const ERROR_CODE: i32 = -32000;

/// The error with the code that domains use.
pub open spec fn failure(message: Seq<char>) -> ReplyView {
    ReplyView::Error { code: ERROR_CODE as int, message }
}

impl View for CdpReply {
    type V = ReplyView;

    open spec fn view(&self) -> ReplyView {
        match self {
            CdpReply::Result(value) => ReplyView::Result(value@),
            CdpReply::Error { code, message } => ReplyView::Error {
                code: *code as int,
                message: message@,
            },
        }
    }
}

impl CdpReply {
    /// A result.
    pub fn ok(value: Json) -> (reply: CdpReply)
        ensures
            reply@ == ReplyView::Result(value@),
    {
        CdpReply::Result(value)
    }

    /// The result without entries.
    pub fn empty() -> (reply: CdpReply)
        ensures
            reply@ == ReplyView::Result(no_entries()),
    {
        CdpReply::Result(Json::empty())
    }

    /// An error with a message.
    pub fn error(message: String) -> (reply: CdpReply)
        ensures
            reply@ == failure(message@),
    {
        CdpReply::Error { code: ERROR_CODE, message }
    }
}

/// The frame of an event, which answers no request.
pub open spec fn event_frame(method: Seq<char>, params: JsonView) -> JsonView {
    no_entries().with("method"@, JsonView::Text(method)).with("params"@, params)
}

/// The frames of one connection that wait to be sent: replies and events, in one queue.
#[derive(Debug)]
pub struct EventSink {
    pub frames: Vec<Json>,
}

impl View for EventSink {
    type V = Seq<JsonView>;

    open spec fn view(&self) -> Seq<JsonView> {
        crate::json::trees(self.frames@)
    }
}

impl EventSink {
    /// The empty queue.
    pub fn new() -> (sink: EventSink)
        ensures
            sink@ == Seq::<JsonView>::empty(),
    {
        let sink = EventSink { frames: Vec::new() };
        assert(sink@ =~= Seq::<JsonView>::empty());
        sink
    }

    /// Queues an event.
    pub fn emit(&mut self, method: &str, params: Json)
        ensures
            final(self)@ == old(self)@.push(event_frame(method@, params@)),
    {
        self.emit_raw(Json::empty().with("method", Json::text(method)).with("params", params));
    }

    /// Queues a frame as it is.
    pub fn emit_raw(&mut self, frame: Json)
        ensures
            final(self)@ == old(self)@.push(frame@),
    {
        let ghost before = self@;
        self.frames.push(frame);
        assert(self@ =~= before.push(frame@));
    }
}

/// What the answers to one method have cost.
#[derive(Clone, Copy, Debug, PartialEq, Eq)]
pub struct Stat {
    pub count: u64,
    pub total_micros: u64,
    pub max_micros: u64,
}

/// An answer that takes this long is slow.
pub const SLOW_REQUEST_MICROS: u64 = 50_000;

/// How many methods a session's report lists.
pub const REPORTED_METHODS: usize = 5;

/// What one method cost over a session.
#[derive(Debug, PartialEq, Eq)]
pub struct MethodCost {
    pub method: String,
    pub count: u64,
    pub total_ms: u64,
    pub max_ms: u64,
}

/// What a session cost: over all methods, and for the most expensive ones, the most expensive
/// first.
#[derive(Debug, PartialEq, Eq)]
pub struct SessionReport {
    pub requests: u64,
    pub total_ms: u64,
    pub methods: Vec<MethodCost>,
}

/// Which domain answers which method, and what the answers have cost so far.
#[derive(Debug)]
pub struct Dispatcher {
    routes: Vec<(String, usize)>,
    domains: usize,
    stats: Vec<(String, Stat)>,
    requests: u64,
    total_micros: u64,
    next_id: u64,
}

/// How often the methods of a table were answered.
pub open spec fn count_sum(stats: Seq<(Seq<char>, Stat)>) -> int
    decreases stats.len(),
{
    if stats.len() == 0 {
        0
    } else {
        stats[0].1.count + count_sum(stats.drop_first())
    }
}

/// How long answering the methods of a table took.
pub open spec fn micros_sum(stats: Seq<(Seq<char>, Stat)>) -> int
    decreases stats.len(),
{
    if stats.len() == 0 {
        0
    } else {
        stats[0].1.total_micros + micros_sum(stats.drop_first())
    }
}

/// The cost of a method with one more answer.
pub open spec fn one_more(before: Option<Stat>, micros: u64) -> Stat {
    match before {
        None => Stat { count: 1, total_micros: micros, max_micros: micros },
        Some(stat) => Stat {
            count: (stat.count + 1) as u64,
            total_micros: (stat.total_micros + micros) as u64,
            max_micros: if stat.max_micros < micros {
                micros
            } else {
                stat.max_micros
            },
        },
    }
}

/// The ranking with one more method: behind those that cost as much or more, before those that
/// cost less.
pub open spec fn ranked_in(
    ranking: Seq<(Seq<char>, Stat)>,
    entry: (Seq<char>, Stat),
) -> Seq<(Seq<char>, Stat)>
    decreases ranking.len(),
{
    if ranking.len() == 0 || ranking.last().1.total_micros >= entry.1.total_micros {
        ranking.push(entry)
    } else {
        ranked_in(ranking.drop_last(), entry).push(ranking.last())
    }
}

/// The methods by their cost, the most expensive first.
pub open spec fn ranking(stats: Seq<(Seq<char>, Stat)>) -> Seq<(Seq<char>, Stat)>
    decreases stats.len(),
{
    if stats.len() == 0 {
        seq![]
    } else {
        ranked_in(ranking(stats.drop_last()), stats.last())
    }
}

/// Whether no method costs more than one that stands before it.
pub open spec fn descending(ranking: Seq<(Seq<char>, Stat)>) -> bool {
    forall|i: int, j: int|
        0 <= i < j < ranking.len() ==> (#[trigger] ranking[i]).1.total_micros >= (
        #[trigger] ranking[j]).1.total_micros
}

proof fn ranked_in_descends(ranking: Seq<(Seq<char>, Stat)>, entry: (Seq<char>, Stat))
    requires
        descending(ranking),
    ensures
        descending(ranked_in(ranking, entry)),
        ranked_in(ranking, entry).to_multiset() == ranking.to_multiset().insert(entry),
        ranked_in(ranking, entry).len() == ranking.len() + 1,
        ranking.len() > 0 && ranking.last().1.total_micros < entry.1.total_micros ==> ranked_in(
            ranking,
            entry,
        ).last() == ranking.last(),
    decreases ranking.len(),
{
    broadcast use vstd::seq_lib::group_to_multiset_ensures;

    if ranking.len() == 0 || ranking.last().1.total_micros >= entry.1.total_micros {
        let result = ranking.push(entry);
        assert forall|i: int, j: int| 0 <= i < j < result.len() implies (
        #[trigger] result[i]).1.total_micros >= (#[trigger] result[j]).1.total_micros by {
            if j == ranking.len() {
                if i < ranking.len() - 1 {
                    assert(ranking[i].1.total_micros >= ranking[ranking.len()
                        - 1].1.total_micros);
                }
            }
        }
    } else {
        let front = ranking.drop_last();
        let last = ranking.last();
        ranked_in_descends(front, entry);
        let inner = ranked_in(front, entry);
        let result = inner.push(last);
        assert(ranking =~= front.push(last));
        assert(result.to_multiset() =~= ranking.to_multiset().insert(entry));
        assert forall|i: int| 0 <= i < inner.len() implies (#[trigger] inner[i]).1.total_micros
            >= last.1.total_micros by {
            let x = inner[i];
            assert(inner.to_multiset().count(x) > 0) by {
                assert(inner.contains(x));
            }
            if x != entry {
                assert(front.to_multiset().count(x) > 0);
                assert(front.contains(x));
                let k = choose|k: int| 0 <= k < front.len() && front[k] == x;
                assert(ranking[k].1.total_micros >= ranking[ranking.len() - 1].1.total_micros);
            }
        }
        assert forall|i: int, j: int| 0 <= i < j < result.len() implies (
        #[trigger] result[i]).1.total_micros >= (#[trigger] result[j]).1.total_micros by {
            if j < inner.len() {
                assert(inner[i].1.total_micros >= inner[j].1.total_micros);
            } else {
                assert(inner[i].1.total_micros >= last.1.total_micros);
            }
        }
    }
}

/// The ranking holds each method of the table once more, and no method in it costs more than one
/// before it.
pub proof fn ranking_descends(stats: Seq<(Seq<char>, Stat)>)
    ensures
        descending(ranking(stats)),
        ranking(stats).to_multiset() == stats.to_multiset(),
        ranking(stats).len() == stats.len(),
    decreases stats.len(),
{
    broadcast use vstd::seq_lib::group_to_multiset_ensures;

    if stats.len() > 0 {
        ranking_descends(stats.drop_last());
        ranked_in_descends(ranking(stats.drop_last()), stats.last());
        assert(stats =~= stats.drop_last().push(stats.last()));
    } else {
        assert(stats =~= seq![]);
    }
}

/// Putting a method's cost into a table changes the sums by the difference to its cost before.
proof fn put_changes_sums(stats: Seq<(Seq<char>, Stat)>, method: Seq<char>, stat: Stat)
    ensures
        count_sum(put(stats, method, stat)) == count_sum(stats) + stat.count - (match look_up(
            stats,
            method,
        ) {
            Some(old) => old.count as int,
            None => 0,
        }) || !crate::order::in_order(stats),
        micros_sum(put(stats, method, stat)) == micros_sum(stats) + stat.total_micros - (
        match look_up(stats, method) {
            Some(old) => old.total_micros as int,
            None => 0,
        }) || !crate::order::in_order(stats),
    decreases stats.len(),
{
    if crate::order::in_order(stats) {
        let result = put(stats, method, stat);
        if stats.len() == 0 {
            assert(result.drop_first() =~= seq![]);
            assert(count_sum(result.drop_first()) == 0);
            assert(micros_sum(result.drop_first()) == 0);
        } else if stats[0].0 == method {
            assert(result.drop_first() =~= stats.drop_first());
        } else if crate::order::text_before(method, stats[0].0) {
            assert(result.drop_first() =~= stats);
            if look_up(stats, method) is Some {
                let at = crate::order::key_of_look_up(stats, method);
                assert(crate::order::text_before(stats[0].0, stats[at].0));
                crate::order::text_before_asymmetric(method, stats[0].0);
            }
        } else {
            crate::order::rest_in_order(stats);
            put_changes_sums(stats.drop_first(), method, stat);
            assert(result.drop_first() =~= put(stats.drop_first(), method, stat));
        }
    }
}

/// The cost of a method is part of the sums.
proof fn stat_within_sums(stats: Seq<(Seq<char>, Stat)>, method: Seq<char>)
    ensures
        count_sum(stats) >= 0,
        micros_sum(stats) >= 0,
        look_up(stats, method) matches Some(stat) ==> stat.count <= count_sum(stats)
            && stat.total_micros <= micros_sum(stats),
    decreases stats.len(),
{
    if stats.len() > 0 {
        stat_within_sums(stats.drop_first(), method);
    }
}

/// The domain that each method of a table is routed to: for the methods listed, the new one.
pub open spec fn routed(
    routes: Seq<(Seq<char>, usize)>,
    methods: Seq<Seq<char>>,
    domain: usize,
) -> Seq<(Seq<char>, usize)>
    decreases methods.len(),
{
    if methods.len() == 0 {
        routes
    } else {
        put(routed(routes, methods.drop_last(), domain), methods.last(), domain)
    }
}

proof fn routed_looks_up(
    routes: Seq<(Seq<char>, usize)>,
    methods: Seq<Seq<char>>,
    domain: usize,
    method: Seq<char>,
)
    ensures
        methods.contains(method) ==> look_up(routed(routes, methods, domain), method) == Some(
            domain,
        ),
        !methods.contains(method) ==> look_up(routed(routes, methods, domain), method) == look_up(
            routes,
            method,
        ),
    decreases methods.len(),
{
    if methods.len() > 0 {
        let front = methods.drop_last();
        routed_looks_up(routes, front, domain, method);
        put_then_look_up(routed(routes, front, domain), methods.last(), domain, method);
        if methods.contains(method) && methods.last() != method {
            let i = choose|i: int| 0 <= i < methods.len() && methods[i] == method;
            assert(front[i] == method);
        }
        if front.contains(method) {
            let i = choose|i: int| 0 <= i < front.len() && front[i] == method;
            assert(methods[i] == method);
        }
        assert(methods[methods.len() - 1] == methods.last());
    }
}

impl Dispatcher {
    /// The cost of every method answered so far.
    pub closed spec fn costs(&self) -> Seq<(Seq<char>, Stat)> {
        keyed(self.stats@)
    }

    /// The domain that answers a method.
    pub closed spec fn route(&self, method: Seq<char>) -> Option<usize> {
        look_up(keyed(self.routes@), method)
    }

    /// How many domains are registered.
    pub closed spec fn domain_count(&self) -> nat {
        self.domains as nat
    }

    /// The next id that a client did not choose.
    pub closed spec fn synthetic_id(&self) -> u64 {
        self.next_id
    }

    /// Each method stands once among the costs, and their sums fit.
    pub closed spec fn well_formed(&self) -> bool {
        &&& crate::order::in_order(self.costs())
        &&& count_sum(self.costs()) == self.requests
        &&& micros_sum(self.costs()) == self.total_micros
    }

    /// A dispatcher without domains.
    pub fn new() -> (dispatcher: Dispatcher)
        ensures
            dispatcher.well_formed(),
            dispatcher.costs() == Seq::<(Seq<char>, Stat)>::empty(),
            dispatcher.domain_count() == 0,
            dispatcher.synthetic_id() == 1,
            forall|method: Seq<char>| #[trigger] dispatcher.route(method) is None,
    {
        let dispatcher = Dispatcher {
            routes: Vec::new(),
            domains: 0,
            stats: Vec::new(),
            requests: 0,
            total_micros: 0,
            next_id: 1,
        };
        assert(dispatcher.costs() =~= Seq::<(Seq<char>, Stat)>::empty());
        dispatcher
    }

    /// Whether no domain answers one of `methods` yet and none of them is listed twice.
    pub open spec fn all_free(&self, methods: Seq<Seq<char>>) -> bool {
        &&& forall|i: int| 0 <= i < methods.len() ==> self.route(#[trigger] methods[i]) is None
        &&& methods.no_duplicates()
    }

    /// Whether no domain answers one of `methods` yet and none of them is listed twice.
    pub fn claims_are_free(&self, methods: &Vec<String>) -> (free: bool)
        ensures
            free == self.all_free(texts(methods@)),
    {
        let ghost all = texts(methods@);
        let mut i: usize = 0;
        while i < methods.len()
            invariant
                i <= methods.len(),
                all == texts(methods@),
                forall|k: int| 0 <= k < i ==> self.route(#[trigger] all[k]) is None,
                forall|k: int, l: int| 0 <= k < l < i ==> all[k] != all[l],
            decreases methods.len() - i,
        {
            assert(all[i as int] == methods@[i as int]@);
            if self.domain_of(methods[i].as_str()).is_some() {
                return false;
            }
            let mut j: usize = 0;
            while j < i
                invariant
                    j <= i < methods.len(),
                    all == texts(methods@),
                    forall|k: int| 0 <= k < j ==> all[k] != all[i as int],
                decreases i - j,
            {
                assert(all[j as int] == methods@[j as int]@);
                assert(all[i as int] == methods@[i as int]@);
                if same_text(methods[j].as_str(), methods[i].as_str()) {
                    return false;
                }
                j = j + 1;
            }
            i = i + 1;
        }
        true
    }

    /// Registers one more domain for the methods that it answers. A method that two domains
    /// answer is a wiring mistake. From then on the domain gets its methods, every domain that was
    /// there keeps its own, and no other method gets a domain.
    pub fn register(&mut self, methods: &Vec<String>) -> (domain: usize)
        requires
            old(self).all_free(texts(methods@)),
            old(self).domain_count() < usize::MAX,
            old(self).well_formed(),
        ensures
            domain == old(self).domain_count(),
            final(self).domain_count() == old(self).domain_count() + 1,
            final(self).costs() == old(self).costs(),
            final(self).synthetic_id() == old(self).synthetic_id(),
            final(self).well_formed(),
            forall|method: Seq<char>| #[trigger]
                final(self).route(method) == (if texts(methods@).contains(method) {
                    Some(domain)
                } else {
                    old(self).route(method)
                }),
            forall|i: int|
                0 <= i < methods@.len() ==> final(self).route((#[trigger] methods@[i])@) == Some(
                    domain,
                ),
            forall|method: Seq<char>|
                old(self).route(method) is Some ==> #[trigger] final(self).route(method) == old(
                    self,
                ).route(method),
            forall|method: Seq<char>|
                old(self).route(method) is None && !texts(methods@).contains(method)
                    ==> #[trigger] final(self).route(method) is None,
    {
        let ghost all = texts(methods@);
        let ghost before = keyed(self.routes@);
        let domain: usize = self.domains;
        let mut i: usize = 0;
        while i < methods.len()
            invariant
                i <= methods.len(),
                all == texts(methods@),
                keyed(self.routes@) == routed(before, all.take(i as int), domain),
                self.domains == old(self).domains,
                self.stats == old(self).stats,
                self.requests == old(self).requests,
                self.total_micros == old(self).total_micros,
                self.next_id == old(self).next_id,
            decreases methods.len() - i,
        {
            assert(all.take(i + 1).drop_last() =~= all.take(i as int));
            put_item(&mut self.routes, methods[i].clone(), domain);
            i = i + 1;
        }
        assert(all.take(i as int) =~= all);
        self.domains = domain + 1;
        assert forall|method: Seq<char>| #[trigger]
            self.route(method) == (if all.contains(method) {
                Some(domain)
            } else {
                old(self).route(method)
            }) by {
            routed_looks_up(before, all, domain, method);
        }
        assert forall|i: int| 0 <= i < methods@.len() implies self.route(
            (#[trigger] methods@[i])@,
        ) == Some(domain) by {
            assert(all[i] == methods@[i]@);
            assert(all.contains(methods@[i]@));
        }
        assert forall|method: Seq<char>| old(self).route(method) is Some implies #[trigger]
            self.route(method) == old(self).route(method) by {
            if all.contains(method) {
                let i = choose|i: int| 0 <= i < all.len() && all[i] == method;
                assert(old(self).route(all[i]) is None);
            }
        }
        domain
    }

    /// The domain that answers a method. A method that none answers is acknowledged with an empty
    /// result.
    pub fn domain_of(&self, method: &str) -> (domain: Option<usize>)
        ensures
            domain == self.route(method@),
    {
        look_up_item(&self.routes, method)
    }

    /// The domain that a request is dispatched to.
    pub fn dispatch(&self, request: &CdpRequest) -> (domain: Option<usize>)
        ensures
            domain == self.route(request.method@),
    {
        self.domain_of(request.method.as_str())
    }

    /// The next id for what the dispatcher itself has to correlate. After the greatest id comes
    /// zero.
    pub fn next_synthetic_id(&mut self) -> (id: u64)
        requires
            old(self).well_formed(),
        ensures
            id == old(self).synthetic_id(),
            final(self).synthetic_id() == (if id == u64::MAX {
                0
            } else {
                id + 1
            }),
            final(self).costs() == old(self).costs(),
            final(self).domain_count() == old(self).domain_count(),
            final(self).well_formed(),
            forall|method: Seq<char>| #[trigger]
                final(self).route(method) == old(self).route(method),
    {
        let id: u64 = self.next_id;
        self.next_id = id.wrapping_add(1);
        id
    }

    /// Whether one more answer that took `micros` can be added up.
    pub fn has_room(&self, micros: u64) -> (room: bool)
        requires
            self.well_formed(),
        ensures
            room == (count_sum(self.costs()) < u64::MAX && micros_sum(self.costs()) + micros
                <= u64::MAX),
    {
        self.requests < u64::MAX && self.total_micros <= u64::MAX - micros
    }

    /// Adds one answer to the cost of its method. The result says whether the answer was slow.
    pub fn record(&mut self, method: &str, micros: u64) -> (slow: bool)
        requires
            old(self).well_formed(),
            count_sum(old(self).costs()) < u64::MAX,
            micros_sum(old(self).costs()) + micros <= u64::MAX,
        ensures
            slow == (micros >= SLOW_REQUEST_MICROS),
            final(self).well_formed(),
            final(self).costs() == put(
                old(self).costs(),
                method@,
                one_more(look_up(old(self).costs(), method@), micros),
            ),
            count_sum(final(self).costs()) == count_sum(old(self).costs()) + 1,
            micros_sum(final(self).costs()) == micros_sum(old(self).costs()) + micros,
            final(self).domain_count() == old(self).domain_count(),
            final(self).synthetic_id() == old(self).synthetic_id(),
            forall|m: Seq<char>| #[trigger] final(self).route(m) == old(self).route(m),
    {
        let ghost before = self.costs();
        proof {
            stat_within_sums(before, method@);
        }
        let stat = match look_up_item(&self.stats, method) {
            None => Stat { count: 1, total_micros: micros, max_micros: micros },
            Some(stat) => Stat {
                count: stat.count + 1,
                total_micros: stat.total_micros + micros,
                max_micros: if stat.max_micros < micros {
                    micros
                } else {
                    stat.max_micros
                },
            },
        };
        proof {
            put_changes_sums(before, method@, stat);
            crate::order::put_keeps_order(before, method@, stat);
        }
        put_item(&mut self.stats, method.to_owned(), stat);
        self.requests = self.requests + 1;
        self.total_micros = self.total_micros + micros;
        micros >= SLOW_REQUEST_MICROS
    }

    /// What the session has cost, where anything was answered.
    pub fn session_report(&self) -> (report: Option<SessionReport>)
        requires
            self.well_formed(),
        ensures
            report is None <==> self.costs().len() == 0,
            report matches Some(r) ==> {
                &&& r.requests == count_sum(self.costs())
                &&& r.total_ms == micros_sum(self.costs()) / 1000
                &&& r.methods@.len() == (if self.costs().len() < REPORTED_METHODS {
                    self.costs().len()
                } else {
                    REPORTED_METHODS as nat
                })
                &&& forall|i: int|
                    0 <= i < r.methods@.len() ==> {
                        let entry = ranking(self.costs())[i];
                        &&& (#[trigger] r.methods@[i]).method@ == entry.0
                        &&& r.methods@[i].count == entry.1.count
                        &&& r.methods@[i].total_ms == entry.1.total_micros / 1000
                        &&& r.methods@[i].max_ms == entry.1.max_micros / 1000
                    }
            },
    {
        if self.stats.len() == 0 {
            assert(self.costs().len() == 0);
            return None;
        }
        let ranked = rank(&self.stats);
        proof {
            ranking_descends(self.costs());
        }
        let mut methods: Vec<MethodCost> = Vec::new();
        let mut i: usize = 0;
        while i < ranked.len() && i < REPORTED_METHODS
            invariant
                i <= ranked.len(),
                i <= REPORTED_METHODS,
                keyed(ranked@) == ranking(self.costs()),
                methods@.len() == i,
                forall|j: int|
                    0 <= j < i ==> {
                        let entry = ranking(self.costs())[j];
                        &&& (#[trigger] methods@[j]).method@ == entry.0
                        &&& methods@[j].count == entry.1.count
                        &&& methods@[j].total_ms == entry.1.total_micros / 1000
                        &&& methods@[j].max_ms == entry.1.max_micros / 1000
                    },
            decreases ranked.len() - i,
        {
            assert(keyed(ranked@)[i as int] == (ranked@[i as int].0@, ranked@[i as int].1));
            let stat = ranked[i].1;
            methods.push(
                MethodCost {
                    method: ranked[i].0.clone(),
                    count: stat.count,
                    total_ms: stat.total_micros / 1000,
                    max_ms: stat.max_micros / 1000,
                },
            );
            i = i + 1;
        }
        Some(
            SessionReport { requests: self.requests, total_ms: self.total_micros / 1000, methods },
        )
    }
}

/// The value under a key of a table.
pub fn look_up_item<V: Copy>(table: &Vec<(String, V)>, key: &str) -> (found: Option<V>)
    ensures
        found == look_up(keyed(table@), key@),
{
    let ghost all = keyed(table@);
    let mut i: usize = 0;
    while i < table.len()
        invariant
            i <= table.len(),
            all == keyed(table@),
            forall|j: int| 0 <= j < i ==> (#[trigger] all[j]).0 != key@,
        decreases table.len() - i,
    {
        assert(all[i as int] == (table@[i as int].0@, table@[i as int].1));
        if same_text(table[i].0.as_str(), key) {
            proof {
                crate::order::look_up_after(all, key@, i as int);
                assert(all.skip(i as int)[0] == all[i as int]);
            }
            return Some(table[i].1);
        }
        i = i + 1;
    }
    proof {
        crate::order::look_up_after(all, key@, i as int);
    }
    None
}

proof fn ranked_in_at(ranking: Seq<(Seq<char>, Stat)>, entry: (Seq<char>, Stat), at: int)
    requires
        0 <= at <= ranking.len(),
        at > 0 ==> ranking[at - 1].1.total_micros >= entry.1.total_micros,
        forall|j: int|
            at <= j < ranking.len() ==> (#[trigger] ranking[j]).1.total_micros
                < entry.1.total_micros,
    ensures
        ranked_in(ranking, entry) == ranking.insert(at, entry),
    decreases ranking.len(),
{
    if at == ranking.len() {
        assert(ranking.insert(at, entry) =~= ranking.push(entry));
    } else {
        let front = ranking.drop_last();
        assert(ranking[ranking.len() - 1] == ranking.last());
        assert forall|j: int| at <= j < front.len() implies (#[trigger] front[j]).1.total_micros
            < entry.1.total_micros by {
            assert(front[j] == ranking[j]);
        }
        ranked_in_at(front, entry, at);
        assert(front.insert(at, entry).push(ranking.last()) =~= ranking.insert(at, entry));
    }
}

/// The methods by their cost, the most expensive first.
fn rank(stats: &Vec<(String, Stat)>) -> (ranked: Vec<(String, Stat)>)
    ensures
        keyed(ranked@) == ranking(keyed(stats@)),
{
    let ghost all = keyed(stats@);
    let mut ranked: Vec<(String, Stat)> = Vec::new();
    assert(keyed(ranked@) =~= ranking(all.take(0)));
    let mut i: usize = 0;
    while i < stats.len()
        invariant
            i <= stats.len(),
            all == keyed(stats@),
            keyed(ranked@) == ranking(all.take(i as int)),
        decreases stats.len() - i,
    {
        let ghost before = keyed(ranked@);
        let stat = stats[i].1;
        let mut at: usize = ranked.len();
        while at > 0 && ranked[at - 1].1.total_micros < stat.total_micros
            invariant
                at <= ranked.len(),
                forall|j: int|
                    at <= j < ranked@.len() ==> (#[trigger] ranked@[j]).1.total_micros
                        < stat.total_micros,
            decreases at,
        {
            at = at - 1;
        }
        proof {
            let entry = (stats@[i as int].0@, stat);
            assert(all[i as int] == entry);
            assert(all.take(i + 1).drop_last() =~= all.take(i as int));
            assert forall|j: int| at <= j < before.len() implies (
            #[trigger] before[j]).1.total_micros < stat.total_micros by {
                assert(before[j].1 == ranked@[j].1);
            }
            if at > 0 {
                assert(before[at - 1].1 == ranked@[at - 1].1);
            }
            ranked_in_at(before, entry, at as int);
        }
        ranked.insert(at, (stats[i].0.clone(), stat));
        assert(keyed(ranked@) =~= before.insert(at as int, (stats@[i as int].0@, stat)));
        i = i + 1;
    }
    assert(all.take(i as int) =~= all);
    ranked
}

impl Default for Dispatcher {
    fn default() -> (dispatcher: Dispatcher)
        ensures
            dispatcher.well_formed(),
            dispatcher.costs() == Seq::<(Seq<char>, Stat)>::empty(),
            dispatcher.domain_count() == 0,
            dispatcher.synthetic_id() == 1,
            forall|method: Seq<char>| #[trigger] dispatcher.route(method) is None,
    {
        Dispatcher::new()
    }
}

/// An event says its method and its parameters, and has no id.
pub proof fn events_say_their_method(method: Seq<char>, params: JsonView)
    ensures
        event_frame(method, params).string_field("method"@) == Some(method),
        event_frame(method, params).field("params"@) == Some(params),
        event_frame(method, params).field("id"@) is None,
{
    broadcast use {with_fields, no_fields};
    reveal_strlit("id");
    reveal_strlit("method");
    reveal_strlit("params");
    assert("id"@.len() == 2 && "method"@.len() == 6 && "params"@.len() == 6);
    assert("method"@[0] == 'm' && "params"@[0] == 'p');
}

/// A domain's error has its message and the code that servers keep for themselves.
pub proof fn errors_have_one_code(message: Seq<char>)
    ensures
        failure(message) == (ReplyView::Error { code: -32000, message }),
{
}

/// Each answer counts once, adds what it took, and is what took longest where nothing before took
/// longer.
pub proof fn answers_add_up(stat: Stat, micros: u64)
    requires
        stat.count < u64::MAX,
        stat.total_micros + micros <= u64::MAX,
    ensures
        one_more(Some(stat), micros).count == stat.count + 1,
        one_more(Some(stat), micros).total_micros == stat.total_micros + micros,
        one_more(Some(stat), micros).max_micros >= micros,
        one_more(Some(stat), micros).max_micros >= stat.max_micros,
        one_more(Some(stat), micros).max_micros == micros || one_more(
            Some(stat),
            micros,
        ).max_micros == stat.max_micros,
        one_more(None, micros).count == 1,
        one_more(None, micros).total_micros == micros,
        one_more(None, micros).max_micros == micros,
{
}

/// The sums over two tables are the sums over both.
pub proof fn sums_add_up(
    front: Seq<(Seq<char>, Stat)>,
    back: Seq<(Seq<char>, Stat)>,
    one: (Seq<char>, Stat),
)
    ensures
        count_sum(front + back) == count_sum(front) + count_sum(back),
        micros_sum(front + back) == micros_sum(front) + micros_sum(back),
        count_sum(seq![one]) == one.1.count,
        micros_sum(seq![one]) == one.1.total_micros,
    decreases front.len(),
{
    assert(seq![one].drop_first() =~= seq![]);
    assert(count_sum(seq![one].drop_first()) == 0);
    assert(micros_sum(seq![one].drop_first()) == 0);
    if front.len() == 0 {
        assert(front + back =~= back);
    } else {
        sums_add_up(front.drop_first(), back, one);
        assert((front + back).drop_first() =~= front.drop_first() + back);
    }
}

/// The methods of a cost, in turn.
pub open spec fn of_cost(list: Seq<(Seq<char>, Stat)>, micros: u64) -> Seq<(Seq<char>, Stat)>
    decreases list.len(),
{
    if list.len() == 0 {
        seq![]
    } else if list.last().1.total_micros == micros {
        of_cost(list.drop_last(), micros).push(list.last())
    } else {
        of_cost(list.drop_last(), micros)
    }
}

proof fn ranked_in_keeps_turns(
    list: Seq<(Seq<char>, Stat)>,
    entry: (Seq<char>, Stat),
    micros: u64,
)
    ensures
        of_cost(ranked_in(list, entry), micros) == (if entry.1.total_micros == micros {
            of_cost(list, micros).push(entry)
        } else {
            of_cost(list, micros)
        }),
    decreases list.len(),
{
    if list.len() == 0 || list.last().1.total_micros >= entry.1.total_micros {
        assert(list.push(entry).drop_last() =~= list);
    } else {
        let front = ranked_in(list.drop_last(), entry);
        ranked_in_keeps_turns(list.drop_last(), entry, micros);
        assert(front.push(list.last()).drop_last() =~= front);
    }
}

/// Methods of one cost are ranked in the order of the table.
pub proof fn ranking_keeps_turns(stats: Seq<(Seq<char>, Stat)>, micros: u64)
    ensures
        of_cost(ranking(stats), micros) == of_cost(stats, micros),
    decreases stats.len(),
{
    if stats.len() > 0 {
        ranking_keeps_turns(stats.drop_last(), micros);
        ranked_in_keeps_turns(ranking(stats.drop_last()), stats.last(), micros);
    }
}

/// A session's report tells of all requests, and of at most five methods, each as the
/// table has it and none of which took longer than one before it.
pub proof fn reports_list_the_costliest(dispatcher: &Dispatcher, report: Option<SessionReport>)
    requires
        call_ensures(Dispatcher::session_report, (dispatcher,), report),
    ensures
        report is Some <==> dispatcher.costs().len() > 0,
        report matches Some(r) ==> {
            &&& r.requests == count_sum(dispatcher.costs())
            &&& r.methods@.len() <= 5
            &&& r.methods@.len() < 5 ==> r.methods@.len() == dispatcher.costs().len()
            &&& forall|i: int, j: int|
                0 <= i < j < r.methods@.len() ==> (#[trigger] r.methods@[i]).total_ms >= (
                #[trigger] r.methods@[j]).total_ms
            &&& forall|i: int|
                0 <= i < r.methods@.len() ==> exists|k: int|
                    0 <= k < dispatcher.costs().len() && (#[trigger] r.methods@[i]).method@ == (
                    #[trigger] dispatcher.costs()[k]).0 && r.methods@[i].count
                        == dispatcher.costs()[k].1.count && r.methods@[i].total_ms
                        == dispatcher.costs()[k].1.total_micros / 1000 && r.methods@[i].max_ms
                        == dispatcher.costs()[k].1.max_micros / 1000
        },
{
    broadcast use vstd::seq_lib::group_to_multiset_ensures;

    let stats = dispatcher.costs();
    let ranked = ranking(stats);
    ranking_descends(stats);
    if let Some(r) = report {
        assert forall|i: int, j: int| 0 <= i < j < r.methods@.len() implies (
        #[trigger] r.methods@[i]).total_ms >= (#[trigger] r.methods@[j]).total_ms by {
            assert(ranked[i].1.total_micros >= ranked[j].1.total_micros);
        }
        assert forall|i: int| 0 <= i < r.methods@.len() implies exists|k: int|
            0 <= k < stats.len() && (#[trigger] r.methods@[i]).method@ == (
            #[trigger] stats[k]).0 && r.methods@[i].count == stats[k].1.count
                && r.methods@[i].total_ms == stats[k].1.total_micros / 1000 && r.methods@[i].max_ms
                == stats[k].1.max_micros / 1000 by {
            assert(ranked.contains(ranked[i]));
            assert(stats.to_multiset().count(ranked[i]) > 0);
            assert(stats.contains(ranked[i]));
            let k = choose|k: int| 0 <= k < stats.len() && stats[k] == ranked[i];
            assert(r.methods@[i].method@ == stats[k].0);
        }
    }
}

} // verus!
