//! What ingestion and the render loop share: the current snapshot and the
//! queue of events not yet taken in.
use vstd::prelude::*;
use crate::detect::{detect, detect_spec, lemma_round_over_new_round, EventType};
use crate::engine::{expire_spec, fold_events, Overlays};
use crate::snapshot::GameState;
use crate::detect::tree_child;
use crate::tree::{child, is_text};

verus! {

/// Events in the order they were appended.
pub struct EventQueue {
    pub events: Vec<EventType>,
}

impl View for EventQueue {
    type V = Seq<EventType>;

    open spec fn view(&self) -> Seq<EventType> {
        self.events@
    }
}

impl EventQueue {
    pub fn new() -> (r: EventQueue)
        ensures
            r@ == Seq::<EventType>::empty(),
    {
        EventQueue { events: Vec::new() }
    }

    /// Appends one event.
    pub fn append(&mut self, e: EventType)
        ensures
            final(self)@ == old(self)@.push(e),
    {
        self.events.push(e);
    }

    /// Takes every event out, in order.
    pub fn drain_all(&mut self) -> (r: Vec<EventType>)
        ensures
            r@ == old(self)@,
            final(self)@ == Seq::<EventType>::empty(),
    {
        let mut out: Vec<EventType> = Vec::new();
        out.append(&mut self.events);
        out
    }
}

/// The events that a snapshot brings, from the record it carries of what
/// changed; none without a record.
pub open spec fn ingest_events(s: GameState) -> Seq<EventType> {
    match s.previously {
        Some(prev) => detect_spec(s, prev),
        None => Seq::empty(),
    }
}

/// The current snapshot and the pending events.
pub struct Context {
    pub state: GameState,
    pub queue: EventQueue,
}

impl Context {
    /// No snapshot yet (every section absent) and no event pending.
    pub fn new() -> (r: Context)
        ensures
            r.state.auth is None,
            r.state.map is None,
            r.state.player is None,
            r.state.provider is None,
            r.state.round is None,
            r.state.previously is None,
            r.queue@ == Seq::<EventType>::empty(),
    {
        Context { state: GameState::default(), queue: EventQueue::new() }
    }

    /// Takes in a new snapshot: detects its events against the record it
    /// carries, appends them, and replaces the current snapshot whole.
    pub fn ingest(&mut self, snapshot: GameState)
        ensures
            final(self).queue@ == old(self).queue@ + ingest_events(snapshot),
            final(self).state == snapshot,
    {
        let events = match &snapshot.previously {
            Some(prev) => detect(&snapshot, prev),
            None => Vec::new(),
        };
        let mut i: usize = 0;
        while i < events.len()
            invariant
                i <= events@.len(),
                events@ == ingest_events(snapshot),
                self.queue@ == old(self).queue@ + events@.subrange(0, i as int),
            decreases events@.len() - i,
        {
            self.queue.append(events[i]);
            i = i + 1;
            assert(self.queue@ =~= old(self).queue@ + events@.subrange(0, i as int));
        }
        assert(events@.subrange(0, events@.len() as int) =~= events@);
        self.state = snapshot;
    }

    /// Takes every pending event out, in order.
    pub fn drain_events(&mut self) -> (r: Vec<EventType>)
        ensures
            r@ == old(self).queue@,
            final(self).queue@ == Seq::<EventType>::empty(),
            final(self).state == old(self).state,
    {
        self.queue.drain_all()
    }
}

/// A snapshot whose round went from "over" to "freezetime" ends the MVP
/// rainbow at the next tick, whatever events were pending before it: the
/// overlays that tick composes with, and those it leaves, have it off.
pub proof fn lemma_new_round_ends_mvp(o: Overlays, pending: Seq<EventType>, s: GameState, now: u64)
    requires
        s.previously is Some,
        s.round is Some,
        s.round.unwrap().phase@ == "freezetime"@,
        is_text(child(tree_child(s.previously.unwrap(), "round"@), "phase"@), "over"@),
    ensures
        !fold_events(o, pending + ingest_events(s), now).mvp,
        !expire_spec(fold_events(o, pending + ingest_events(s), now), now as int).mvp,
{
    let prev = s.previously.unwrap();
    lemma_round_over_new_round(s, prev);
    let all = pending + ingest_events(s);
    assert(all.last() == EventType::NewRound);
}

} // verus!
