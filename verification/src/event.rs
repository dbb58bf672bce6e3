//! Events and hat identifiers: the immutable records that flow through the
//! dispatch loop, carrying a routing topic, a payload, and optional source
//! and target hats.

use vstd::prelude::*;
use crate::topic::Topic;

verus! {

/// Stable identifier referencing a hat by key.
#[derive(Debug, Clone, Eq, Hash)]
pub struct HatId(String);

impl View for HatId {
    type V = Seq<char>;

    closed spec fn view(&self) -> Seq<char> {
        self.0@
    }
}

impl PartialEq for HatId {
    fn eq(&self, other: &HatId) -> (r: bool) {
        self.0 == other.0
    }
}

impl vstd::std_specs::cmp::PartialEqSpecImpl for HatId {
    open spec fn obeys_eq_spec() -> bool {
        true
    }

    open spec fn eq_spec(&self, other: &HatId) -> bool {
        self@ == other@
    }
}

impl HatId {
    /// Creates a hat identifier from its key.
    pub fn new(id: String) -> (r: HatId)
        ensures
            r@ == id@,
    {
        HatId(id)
    }

    /// Returns the identifier as a string slice.
    pub fn as_str(&self) -> (r: &str)
        ensures
            r@ == self@,
    {
        self.0.as_str()
    }

    /// Returns a copy with the same key.
    pub fn duplicate(&self) -> (r: HatId)
        ensures
            r@ == self@,
    {
        HatId(self.0.clone())
    }
}

/// The mathematical value of an event.
pub ghost struct EventView {
    pub topic: Seq<char>,
    pub payload: Seq<char>,
    pub ts: int,
    pub source: Option<Seq<char>>,
    pub target: Option<Seq<char>>,
}

/// An immutable event record: a routing topic, a payload, a timestamp in
/// milliseconds, and optional source and target hats.
#[derive(Debug, Clone)]
pub struct Event {
    pub topic: Topic,
    pub payload: String,
    pub ts: u64,
    pub source: Option<HatId>,
    pub target: Option<HatId>,
}

impl View for Event {
    type V = EventView;

    open spec fn view(&self) -> EventView {
        EventView {
            topic: self.topic@,
            payload: self.payload@,
            ts: self.ts as int,
            source: match self.source {
                Some(h) => Some(h@),
                None => None,
            },
            target: match self.target {
                Some(h) => Some(h@),
                None => None,
            },
        }
    }
}

impl Event {
    /// Creates an event with the given topic and payload, no source, no
    /// target, and a zero timestamp.
    pub fn new(topic: Topic, payload: String) -> (e: Event)
        ensures
            e@.topic == topic@,
            e@.payload == payload@,
            e@.ts == 0,
            e@.source.is_none(),
            e@.target.is_none(),
    {
        Event { topic, payload, ts: 0, source: None, target: None }
    }

    /// Attributes the event to a source hat.
    pub fn with_source(self, source: HatId) -> (e: Event)
        ensures
            e@ == (EventView { source: Some(source@), ..self@ }),
    {
        Event { source: Some(source), ..self }
    }

    /// Addresses the event to a target hat.
    pub fn with_target(self, target: HatId) -> (e: Event)
        ensures
            e@ == (EventView { target: Some(target@), ..self@ }),
    {
        Event { target: Some(target), ..self }
    }

    /// Stamps the event with a timestamp in milliseconds.
    pub fn with_ts(self, ts: u64) -> (e: Event)
        ensures
            e@ == (EventView { ts: ts as int, ..self@ }),
    {
        Event { ts, ..self }
    }
}

} // verus!
