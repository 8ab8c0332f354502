//! Observability: correlation contexts that link causally related events,
//! the events themselves, and the shared append-only log they are sent to.
use vstd::prelude::*;
use vstd::hash_map::StringHashMap;
use std::sync::{Arc, Mutex};
use crate::clock::unix_time_micros;

verus! {

/// `std::sync::Mutex`, carried as an opaque value.
#[verifier::external_type_specification]
#[verifier::external_body]
#[verifier::reject_recursive_types(T)]
pub struct ExMutex<T: ?Sized>(Mutex<T>);

/// A trace/span identifier pair, with the span it was derived from.
#[derive(Debug)]
pub struct CorrelationContext {
    pub trace_id: String,
    pub span_id: String,
    pub parent_id: Option<String>,
}

/// How serious an event is.
#[derive(Debug, Clone, Copy, PartialEq, Eq, Structural)]
pub enum EventSeverity {
    Debug,
    Info,
    Warning,
    Error,
    Critical,
}

/// One entry of the event log.
#[derive(Debug)]
pub struct Event {
    /// Microseconds since the Unix epoch at which the event was created.
    pub timestamp: u64,
    pub severity: EventSeverity,
    pub category: String,
    pub message: String,
    pub context: CorrelationContext,
    pub data: Option<String>,
}

/// A log shared between its holders: appending through one handle is seen
/// through every clone of it.
#[derive(Clone)]
pub struct EventLog {
    pub events: Arc<Mutex<Vec<Event>>>,
}

/// A new random identifier: `uuid::Uuid::new_v4`, written in the hyphenated
/// lower-case form of its `Display`, which is always 36 characters long.
/// Nothing else is claimed of the value.
#[verifier::external_body]
pub(crate) fn fresh_identifier() -> (id: String)
    ensures
        id@.len() == 36,
{
    uuid::Uuid::new_v4().to_string()
}

impl Clone for CorrelationContext {
    fn clone(&self) -> (copy: Self)
        ensures
            copy == *self,
    {
        CorrelationContext {
            trace_id: self.trace_id.clone(),
            span_id: self.span_id.clone(),
            parent_id: match &self.parent_id {
                Some(parent) => Some(parent.clone()),
                None => None,
            },
        }
    }
}

impl Clone for Event {
    fn clone(&self) -> (copy: Self)
        ensures
            copy == *self,
    {
        Event {
            timestamp: self.timestamp,
            severity: self.severity,
            category: self.category.clone(),
            message: self.message.clone(),
            context: self.context.clone(),
            data: match &self.data {
                Some(data) => Some(data.clone()),
                None => None,
            },
        }
    }
}

impl CorrelationContext {
    /// A root context: a fresh trace with a fresh span and no parent.
    pub fn new() -> (context: Self)
        ensures
            context.parent_id.is_none(),
            context.trace_id@.len() == 36,
            context.span_id@.len() == 36,
    {
        CorrelationContext { trace_id: fresh_identifier(), span_id: fresh_identifier(), parent_id: None }
    }

    /// A context derived from this one: the same trace, a fresh span, and
    /// this context's span as its parent.
    pub fn child(&self) -> (context: Self)
        ensures
            context.trace_id@ == self.trace_id@,
            context.span_id@.len() == 36,
            context.parent_id.is_some(),
            context.parent_id.unwrap()@ == self.span_id@,
    {
        CorrelationContext {
            trace_id: self.trace_id.clone(),
            span_id: fresh_identifier(),
            parent_id: Some(self.span_id.clone()),
        }
    }
}

impl Event {
    /// An event stamped with the current time.
    pub fn new(
        severity: EventSeverity,
        category: String,
        message: String,
        context: CorrelationContext,
        data: Option<String>,
    ) -> (event: Self)
        ensures
            event.severity == severity,
            event.category == category,
            event.message == message,
            event.context == context,
            event.data == data,
    {
        Event { timestamp: unix_time_micros(), severity, category, message, context, data }
    }
}

impl EventLog {
    /// An empty log behind `Arc::new(Mutex::new(..))`.
    #[verifier::external_body]
    pub fn new() -> (log: Self) {
        EventLog { events: Arc::new(Mutex::new(Vec::new())) }
    }

    /// Appends an event under `Mutex::lock`. The log is shared, so nothing
    /// is claimed of what it holds afterwards; a poisoned lock drops the
    /// event.
    #[verifier::external_body]
    pub fn add(&self, event: Event) {
        if let Ok(mut events) = self.events.lock() {
            events.push(event);
        }
    }

    /// A copy of the events held at the moment of the call, read under
    /// `Mutex::lock`; empty where the lock is poisoned.
    #[verifier::external_body]
    pub fn get_all(&self) -> (events: Vec<Event>) {
        if let Ok(events) = self.events.lock() {
            events.clone()
        } else {
            Vec::new()
        }
    }

    /// Empties the log under `Mutex::lock`.
    #[verifier::external_body]
    pub fn clear(&self) {
        if let Ok(mut events) = self.events.lock() {
            events.clear();
        }
    }
}

/// The events of a run, linked from effect to cause and from cause to
/// effects by their spans.
pub struct CausalGraph {
    /// Each event under its span.
    pub events: StringHashMap<Event>,
    /// The parent span of each span that has one.
    pub parent_map: StringHashMap<String>,
    /// The child spans of each span that has some, in the order in which
    /// they were added.
    pub children_map: StringHashMap<Vec<String>>,
}

/// The child spans recorded for a span; none for a span that has no record.
pub open spec fn children_of(children_map: Map<Seq<char>, Vec<String>>, span: Seq<char>) -> Seq<
    Seq<char>,
> {
    if children_map.contains_key(span) {
        Seq::new(children_map[span]@.len(), |i: int| children_map[span]@[i]@)
    } else {
        Seq::empty()
    }
}

/// The events from a span back toward the root: the event of the span, then
/// that of its parent, and so on, for as long as events are known and at
/// most `fuel` of them.
pub open spec fn chain_back(
    events: Map<Seq<char>, Event>,
    parent_map: Map<Seq<char>, String>,
    span: Seq<char>,
    fuel: nat,
) -> Seq<Event>
    decreases fuel,
{
    if fuel == 0 || !events.contains_key(span) {
        Seq::empty()
    } else if parent_map.contains_key(span) {
        seq![events[span]] + chain_back(events, parent_map, parent_map[span]@, (fuel - 1) as nat)
    } else {
        seq![events[span]]
    }
}

/// The events of those among the first `n` spans of a list that have one,
/// in list order.
pub open spec fn known_events(events: Map<Seq<char>, Event>, spans: Seq<Seq<char>>, n: int) -> Seq<
    Event,
>
    decreases n,
{
    if n <= 0 {
        Seq::empty()
    } else if events.contains_key(spans[n - 1]) {
        known_events(events, spans, n - 1).push(events[spans[n - 1]])
    } else {
        known_events(events, spans, n - 1)
    }
}

/// Those among the first `n` spans of a list that have an event, in list
/// order.
pub open spec fn known_spans(events: Map<Seq<char>, Event>, spans: Seq<Seq<char>>, n: int) -> Seq<
    Seq<char>,
>
    decreases n,
{
    if n <= 0 {
        Seq::empty()
    } else if events.contains_key(spans[n - 1]) {
        known_spans(events, spans, n - 1).push(spans[n - 1])
    } else {
        known_spans(events, spans, n - 1)
    }
}

/// The events found breadth-first below the spans of a queue: the known
/// children of the first span, then whatever follows from the rest of the
/// queue with those children appended, for at most `fuel` spans taken from
/// the queue.
pub open spec fn consequences(
    events: Map<Seq<char>, Event>,
    children_map: Map<Seq<char>, Vec<String>>,
    queue: Seq<Seq<char>>,
    fuel: nat,
) -> Seq<Event>
    decreases fuel,
{
    if fuel == 0 || queue.len() == 0 {
        Seq::empty()
    } else {
        let children = children_of(children_map, queue[0]);
        known_events(events, children, children.len() as int) + consequences(
            events,
            children_map,
            queue.drop_first() + known_spans(events, children, children.len() as int),
            (fuel - 1) as nat,
        )
    }
}

/// The characters of each span of a list.
pub open spec fn span_views(spans: Seq<String>) -> Seq<Seq<char>> {
    Seq::new(spans.len(), |i: int| spans[i]@)
}

/// A copy of a list of spans.
fn copy_spans(spans: &Vec<String>) -> (copy: Vec<String>)
    ensures
        span_views(copy@) == span_views(spans@),
{
    let mut copy: Vec<String> = Vec::new();
    let mut i: usize = 0;
    while i < spans.len()
        invariant
            i <= spans@.len(),
            copy@.len() == i,
            forall|j: int| 0 <= j < i ==> (#[trigger] copy@[j])@ == spans@[j]@,
        decreases spans@.len() - i,
    {
        copy.push(spans[i].clone());
        i += 1;
    }
    assert(span_views(copy@) =~= span_views(spans@));
    copy
}

impl CausalGraph {
    /// A graph without events.
    pub fn new() -> (graph: Self)
        ensures
            graph.events@ == Map::<Seq<char>, Event>::empty(),
            graph.parent_map@ == Map::<Seq<char>, String>::empty(),
            graph.children_map@ == Map::<Seq<char>, Vec<String>>::empty(),
    {
        CausalGraph {
            events: StringHashMap::new(),
            parent_map: StringHashMap::new(),
            children_map: StringHashMap::new(),
        }
    }

    /// Records an event under its span. An event with a parent span is
    /// linked to it in both directions.
    pub fn add_event(&mut self, event: Event)
        ensures
            final(self).events@ == old(self).events@.insert(event.context.span_id@, event),
            match event.context.parent_id {
                Some(parent) => {
                    &&& final(self).parent_map@ == old(self).parent_map@.insert(
                        event.context.span_id@,
                        parent,
                    )
                    &&& final(self).children_map@.dom() == old(self).children_map@.dom().insert(
                        parent@,
                    )
                    &&& children_of(final(self).children_map@, parent@) == children_of(
                        old(self).children_map@,
                        parent@,
                    ).push(event.context.span_id@)
                    &&& forall|span: Seq<char>|
                        span != parent@ && old(self).children_map@.contains_key(span) ==> #[trigger]
                            final(self).children_map@[span] == old(self).children_map@[span]
                },
                None => {
                    &&& final(self).parent_map@ == old(self).parent_map@
                    &&& final(self).children_map@ == old(self).children_map@
                },
            },
    {
        let span_id = event.context.span_id.clone();
        if let Some(parent_id) = &event.context.parent_id {
            self.parent_map.insert(span_id.clone(), parent_id.clone());
            let mut children = match self.children_map.get(parent_id.as_str()) {
                Some(held) => copy_spans(held),
                None => Vec::new(),
            };
            let ghost before = span_views(children@);
            assert(before =~= children_of(old(self).children_map@, parent_id@));
            children.push(span_id.clone());
            assert(span_views(children@) =~= before.push(span_id@));
            self.children_map.insert(parent_id.clone(), children);
            assert(children_of(self.children_map@, parent_id@) =~= span_views(children@));
        }
        self.events.insert(span_id, event);
    }

    /// Number of events.
    pub fn size(&self) -> (count: usize)
        ensures
            count == self.events@.len(),
    {
        self.events.len()
    }

    /// The chain of events that led to the event of a span, root first and
    /// the event itself last. The chain ends where a parent's event is not
    /// known, and holds at most as many events as the graph does.
    pub fn get_causal_chain(&self, span_id: String) -> (chain: Vec<Event>)
        ensures
            chain@ == chain_back(
                self.events@,
                self.parent_map@,
                span_id@,
                self.events@.len(),
            ).reverse(),
    {
        let ghost whole = chain_back(self.events@, self.parent_map@, span_id@, self.events@.len());
        let mut back: Vec<Event> = Vec::new();
        let mut current: Option<String> = Some(span_id);
        let mut fuel: usize = self.events.len();
        while fuel > 0 && current.is_some()
            invariant
                whole == chain_back(self.events@, self.parent_map@, span_id@, self.events@.len()),
                match current {
                    Some(id) => whole == back@ + chain_back(
                        self.events@,
                        self.parent_map@,
                        id@,
                        fuel as nat,
                    ),
                    None => whole == back@,
                },
            decreases fuel, (if current.is_some() { 1int } else { 0int }),
        {
            let id = match current {
                Some(id) => id,
                None => String::new(),
            };
            match self.events.get(id.as_str()) {
                Some(event) => {
                    back.push(event.clone());
                    current = match self.parent_map.get(id.as_str()) {
                        Some(parent) => Some(parent.clone()),
                        None => None,
                    };
                    fuel = fuel - 1;
                    let ghost reached = current;
                    proof {
                        match reached {
                            Some(next) => {
                                assert(whole =~= back@ + chain_back(
                                    self.events@,
                                    self.parent_map@,
                                    next@,
                                    fuel as nat,
                                ));
                            },
                            None => {
                                assert(whole =~= back@);
                            },
                        }
                    }
                },
                None => {
                    current = None;
                    assert(whole =~= back@);
                },
            }
        }
        let ghost reached = current;
        proof {
            match reached {
                Some(id) => {
                    assert(fuel == 0);
                    assert(whole =~= back@);
                },
                None => {},
            }
        }
        let mut chain: Vec<Event> = Vec::new();
        let ghost all = back@;
        while back.len() > 0
            invariant
                back@.len() <= all.len(),
                back@ == all.take(back@.len() as int),
                chain@.len() == all.len() - back@.len(),
                forall|k: int| 0 <= k < chain@.len() ==> chain@[k] == all[all.len() - 1 - k],
            decreases back@.len(),
        {
            match back.pop() {
                Some(event) => {
                    chain.push(event);
                },
                None => {},
            }
        }
        assert(chain@ =~= all.reverse());
        chain
    }

    /// Every known event downstream of a span, breadth first: the events of
    /// its children, then those of their children, and so on. At most one
    /// span more than the graph holds events is expanded.
    pub fn get_consequences(&self, span_id: String) -> (found: Vec<Event>)
        ensures
            found@ == consequences(
                self.events@,
                self.children_map@,
                seq![span_id@],
                (self.events@.len() + 1) as nat,
            ),
    {
        let ghost whole = consequences(
            self.events@,
            self.children_map@,
            seq![span_id@],
            (self.events@.len() + 1) as nat,
        );
        let mut found: Vec<Event> = Vec::new();
        let mut queue: Vec<String> = Vec::new();
        queue.push(span_id);
        let mut head: usize = 0;
        let mut fuel: u128 = self.events.len() as u128 + 1;
        assert(span_views(queue@).subrange(0, 1) =~= seq![span_id@]);
        while fuel > 0 && head < queue.len()
            invariant
                head <= queue@.len(),
                whole == found@ + consequences(
                    self.events@,
                    self.children_map@,
                    span_views(queue@).subrange(head as int, queue@.len() as int),
                    fuel as nat,
                ),
            decreases fuel,
        {
            let ghost pending = span_views(queue@).subrange(head as int, queue@.len() as int);
            let ghost before_found = found@;
            let ghost before_queue = span_views(queue@);
            let ghost children = children_of(self.children_map@, pending[0]);
            assert(pending[0] == queue@[head as int]@);
            match self.children_map.get(queue[head].as_str()) {
                Some(listed) => {
                    let mut k: usize = 0;
                    assert(span_views(listed@) =~= children);
                    while k < listed.len()
                        invariant
                            k <= listed@.len(),
                            head < queue@.len(),
                            span_views(listed@) == children,
                            found@ == before_found + known_events(self.events@, children, k as int),
                            span_views(queue@) == before_queue + known_spans(
                                self.events@,
                                children,
                                k as int,
                            ),
                        decreases listed@.len() - k,
                    {
                        let child = &listed[k];
                        assert(child@ == children[k as int]);
                        let ghost queue_then = span_views(queue@);
                        match self.events.get(child.as_str()) {
                            Some(event) => {
                                found.push(event.clone());
                                queue.push(child.clone());
                                assert(span_views(queue@) =~= queue_then.push(child@));
                            },
                            None => {},
                        }
                        assert(found@ =~= before_found + known_events(
                            self.events@,
                            children,
                            k + 1,
                        ));
                        assert(span_views(queue@) =~= before_queue + known_spans(
                            self.events@,
                            children,
                            k + 1,
                        ));
                        k += 1;
                    }
                },
                None => {
                    assert(found@ =~= before_found + known_events(self.events@, children, 0));
                    assert(span_views(queue@) =~= before_queue + known_spans(
                        self.events@,
                        children,
                        0,
                    ));
                },
            }
            head = head + 1;
            fuel = fuel - 1;
            proof {
                let added = known_spans(self.events@, children, children.len() as int);
                assert(span_views(queue@).subrange(head as int, queue@.len() as int)
                    =~= pending.drop_first() + added);
                assert(whole =~= found@ + consequences(
                    self.events@,
                    self.children_map@,
                    pending.drop_first() + added,
                    fuel as nat,
                ));
            }
        }
        proof {
            assert(consequences(
                self.events@,
                self.children_map@,
                span_views(queue@).subrange(head as int, queue@.len() as int),
                fuel as nat,
            ) =~= Seq::<Event>::empty());
            assert(whole =~= found@);
        }
        found
    }
}

} // verus!
