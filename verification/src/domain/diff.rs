//! Planned changes to a sheet, as topic-path events.
use vstd::prelude::*;
use crate::domain::path::TopicPath;
use crate::text::chars_of;

verus! {

/// An ordered list of change events.
#[derive(Clone, Debug, Default, PartialEq, Eq)]
pub struct Diff {
    events: Vec<DiffEvent>,
}

/// One planned change.
#[derive(Clone, Debug, PartialEq, Eq)]
pub enum DiffEvent {
    /// A topic will exist at `path`.
    Added { path: TopicPath },
    /// The topic at `path` will be removed.
    Removed { path: TopicPath },
    /// Fields of the topic at `path` will change.
    Updated { path: TopicPath, fields: Vec<FieldChange> },
    /// The topic at `from` will move to `to`.
    Moved { from: TopicPath, to: TopicPath },
}

/// The name of a changed topic field.
#[derive(Clone, Debug, PartialEq, Eq)]
pub struct FieldChange {
    field: String,
}

/// How many events of each kind a diff holds.
#[derive(Clone, Copy, Debug, PartialEq, Eq)]
pub struct DiffSummary {
    pub added: usize,
    pub updated: usize,
    pub deleted: usize,
    pub moved: usize,
}

impl View for Diff {
    type V = Seq<DiffEvent>;

    closed spec fn view(&self) -> Seq<DiffEvent> {
        self.events@
    }
}

impl View for FieldChange {
    type V = Seq<char>;

    closed spec fn view(&self) -> Seq<char> {
        self.field@
    }
}

/// The number of events in `events` that satisfy `p`.
pub open spec fn count_events(events: Seq<DiffEvent>, p: spec_fn(DiffEvent) -> bool) -> nat
    decreases events.len(),
{
    if events.len() == 0 {
        0
    } else {
        count_events(events.drop_last(), p) + if p(events.last()) {
            1nat
        } else {
            0nat
        }
    }
}

proof fn lemma_count_events_bound(events: Seq<DiffEvent>, p: spec_fn(DiffEvent) -> bool)
    ensures
        count_events(events, p) <= events.len(),
    decreases events.len(),
{
    if events.len() > 0 {
        lemma_count_events_bound(events.drop_last(), p);
    }
}

impl Diff {
    /// A diff without events.
    pub fn new() -> (r: Self)
        ensures
            r@ == Seq::<DiffEvent>::empty(),
    {
        Diff { events: Vec::new() }
    }

    /// A diff with the given events, in order.
    pub fn from_events(events: Vec<DiffEvent>) -> (r: Self)
        ensures
            r@ == events@,
    {
        Diff { events }
    }

    /// Whether the diff has no events.
    pub fn is_empty(&self) -> (r: bool)
        ensures
            r == (self@.len() == 0),
    {
        self.events.len() == 0
    }

    /// The number of events.
    pub fn len(&self) -> (r: usize)
        ensures
            r == self@.len(),
    {
        self.events.len()
    }

    /// The events, in order.
    pub fn events(&self) -> (r: &[DiffEvent])
        ensures
            r@ == self@,
    {
        self.events.as_slice()
    }

    /// Counts the events of each kind: added, updated, removed and moved.
    pub fn summary(&self) -> (r: DiffSummary)
        ensures
            r.added == count_events(self@, |e: DiffEvent| e is Added),
            r.updated == count_events(self@, |e: DiffEvent| e is Updated),
            r.deleted == count_events(self@, |e: DiffEvent| e is Removed),
            r.moved == count_events(self@, |e: DiffEvent| e is Moved),
    {
        let mut s = DiffSummary { added: 0, updated: 0, deleted: 0, moved: 0 };
        let mut i: usize = 0;
        while i < self.events.len()
            invariant
                i <= self@.len(),
                self@ == self.events@,
                s.added == count_events(self@.take(i as int), |e: DiffEvent| e is Added),
                s.updated == count_events(self@.take(i as int), |e: DiffEvent| e is Updated),
                s.deleted == count_events(self@.take(i as int), |e: DiffEvent| e is Removed),
                s.moved == count_events(self@.take(i as int), |e: DiffEvent| e is Moved),
            decreases self@.len() - i,
        {
            proof {
                let t = self@.take(i + 1);
                assert(t.drop_last() == self@.take(i as int));
                assert(t.last() == self@[i as int]);
                lemma_count_events_bound(self@.take(i as int), |e: DiffEvent| e is Added);
                lemma_count_events_bound(self@.take(i as int), |e: DiffEvent| e is Updated);
                lemma_count_events_bound(self@.take(i as int), |e: DiffEvent| e is Removed);
                lemma_count_events_bound(self@.take(i as int), |e: DiffEvent| e is Moved);
            }
            match &self.events[i] {
                DiffEvent::Added { .. } => s.added = s.added + 1,
                DiffEvent::Updated { .. } => s.updated = s.updated + 1,
                DiffEvent::Removed { .. } => s.deleted = s.deleted + 1,
                DiffEvent::Moved { .. } => s.moved = s.moved + 1,
            }
            i = i + 1;
        }
        proof {
            assert(self@.take(i as int) == self@);
        }
        s
    }
}

impl FieldChange {
    /// The change of the field named `field`.
    pub fn new(field: &str) -> (r: Self)
        ensures
            r@ == field@,
    {
        FieldChange { field: field.to_owned() }
    }

    /// The name of the changed field.
    pub fn field(&self) -> (r: &str)
        ensures
            r@ == self@,
    {
        self.field.as_str()
    }

    /// The characters of the field name.
    pub fn field_chars(&self) -> (r: Vec<char>)
        ensures
            r@ == self@,
    {
        chars_of(self.field.as_str())
    }
}

} // verus!
