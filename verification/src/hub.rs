//! The event fan-out hub.
//!
//! A bounded broadcast primitive with one producer and any number of
//! consumers. Publishing appends to a ring of fixed capacity and never
//! waits on a subscriber. Each subscriber owns an independent cursor into
//! the published history; one that falls behind the ring loses the oldest
//! unread events — reported as a lag, never as backpressure on the producer
//! or on other subscribers.

use vstd::prelude::*;

use crate::events::{EngageEvent, EngageKind};

verus! {

/// An event's content: what a subscriber may rely on receiving.
pub struct EngageEventView {
    pub id: int,
    pub project_id: int,
    pub campaign_id: int,
    pub chain_id: int,
    pub signer_address: Seq<char>,
    pub kind: EngageKind,
    pub task_ids: Option<Seq<Seq<char>>>,
}

impl View for EngageEvent {
    type V = EngageEventView;

    open spec fn view(&self) -> EngageEventView {
        EngageEventView {
            id: self.id as int,
            project_id: self.project_id as int,
            campaign_id: self.campaign_id as int,
            chain_id: self.chain_id as int,
            signer_address: self.signer_address@,
            kind: self.kind,
            task_ids: match self.task_ids {
                Some(ids) => Some(ids.deep_view()),
                None => None,
            },
        }
    }
}

/// Copy a task id list, content for content.
fn clone_task_ids(v: &Vec<String>) -> (r: Vec<String>)
    ensures
        r@ == v@,
{
    let mut r: Vec<String> = Vec::new();
    let mut i: usize = 0;
    while i < v.len()
        invariant
            i <= v@.len(),
            r@ == v@.subrange(0, i as int),
        decreases v@.len() - i,
    {
        r.push(v[i].clone());
        assert(r@ =~= v@.subrange(0, i + 1 as int));
        i += 1;
    }
    assert(r@ =~= v@);
    r
}

impl Clone for EngageEvent {
    /// A copy with the same content.
    fn clone(&self) -> (r: Self)
        ensures
            r@ == self@,
    {
        EngageEvent {
            id: self.id,
            project_id: self.project_id,
            campaign_id: self.campaign_id,
            chain_id: self.chain_id,
            signer_address: self.signer_address.clone(),
            kind: self.kind,
            task_ids: match &self.task_ids {
                Some(ids) => Some(clone_task_ids(ids)),
                None => None,
            },
        }
    }
}

/// The hub: a ring of the most recent events plus the full published
/// history, which the ring is a suffix of.
pub struct EngageEventHub {
    capacity: usize,
    total: u64,
    buffer: Vec<EngageEvent>,
    published: Ghost<Seq<EngageEvent>>,
}

/// What one subscriber has read so far: the position of the next event it
/// wants, counted over the whole published history.
pub struct EventSubscriber {
    pub cursor: u64,
}

/// What one receive attempt yields.
pub enum RecvOutcome {
    /// Nothing published beyond the cursor yet; a live stream would wait.
    Empty,
    /// The subscriber fell behind the ring and lost this many events; its
    /// cursor now points at the oldest event still held.
    Lagged(u64),
    /// The next event, and the cursor moved past it.
    Event(EngageEvent),
}

impl EngageEventHub {
    /// Everything ever published, in order.
    pub closed spec fn history(&self) -> Seq<EngageEvent> {
        self.published@
    }

    /// The ring's fixed size.
    pub closed spec fn cap(&self) -> int {
        self.capacity as int
    }

    /// How much of the history the ring still holds.
    pub open spec fn held(&self) -> int {
        if self.history().len() < self.cap() {
            self.history().len() as int
        } else {
            self.cap()
        }
    }

    pub closed spec fn wf(&self) -> bool {
        &&& self.capacity > 0
        &&& self.total as int == self.published@.len()
        &&& self.buffer@.len() == self.held()
        &&& self.buffer@ == self.published@.subrange(
            self.published@.len() - self.held(),
            self.published@.len() as int,
        )
    }

    /// A hub that will hold the last `capacity` events.
    pub fn new(capacity: usize) -> (r: EngageEventHub)
        requires
            capacity > 0,
        ensures
            r.wf(),
            r.cap() == capacity,
            r.history() == Seq::<EngageEvent>::empty(),
    {
        let r = EngageEventHub {
            capacity,
            total: 0,
            buffer: Vec::new(),
            published: Ghost(Seq::empty()),
        };
        proof {
            assert(r.buffer@ =~= r.published@.subrange(0, 0));
        }
        r
    }

    /// Publish one event: appended to the history, the oldest ring entry
    /// dropped once the ring is full. No subscriber state is read — the
    /// producer never waits.
    pub fn publish(&mut self, ev: EngageEvent)
        requires
            old(self).wf(),
            old(self).history().len() < u64::MAX,
        ensures
            final(self).wf(),
            final(self).cap() == old(self).cap(),
            final(self).history() == old(self).history().push(ev),
    {
        self.total = self.total + 1;
        self.buffer.push(ev);
        proof {
            let ghost pushed = self.published@.push(ev);
            self.published = Ghost(pushed);
        }
        if self.buffer.len() > self.capacity {
            let ghost before = self.buffer@;
            self.buffer.remove(0);
            proof {
                assert(self.buffer@ =~= before.drop_first());
            }
        }
        proof {
            assert(self.buffer@ =~= self.published@.subrange(
                self.published@.len() - self.held(),
                self.published@.len() as int,
            ));
        }
    }

    /// How many events were ever published.
    pub fn published_count(&self) -> (n: u64)
        requires
            self.wf(),
        ensures
            n as int == self.history().len(),
    {
        self.total
    }

    /// A new subscriber, whose cursor starts at the present: it will see
    /// only events published from now on.
    pub fn subscribe(&self) -> (s: EventSubscriber)
        requires
            self.wf(),
        ensures
            s.cursor as int == self.history().len(),
    {
        EventSubscriber { cursor: self.total }
    }

    /// One receive attempt for one subscriber. Either nothing is ready, or
    /// the subscriber lagged out of the ring and is told how much it lost,
    /// or it gets the next event and its cursor advances.
    pub fn recv(&self, sub: &mut EventSubscriber) -> (r: RecvOutcome)
        requires
            self.wf(),
            old(sub).cursor as int <= self.history().len(),
        ensures
            final(sub).cursor as int <= self.history().len(),
            match r {
                RecvOutcome::Empty => {
                    &&& old(sub).cursor as int == self.history().len()
                    &&& final(sub).cursor == old(sub).cursor
                },
                RecvOutcome::Lagged(missed) => {
                    &&& (old(sub).cursor as int) < self.history().len() - self.held()
                    &&& missed as int == self.history().len() - self.held() - old(sub).cursor as int
                    &&& final(sub).cursor as int == self.history().len() - self.held()
                },
                RecvOutcome::Event(ev) => {
                    &&& (old(sub).cursor as int) < self.history().len()
                    &&& self.history().len() - self.held() <= old(sub).cursor as int
                    &&& ev@ == self.history()[old(sub).cursor as int]@
                    &&& final(sub).cursor == old(sub).cursor + 1
                },
            },
    {
        if sub.cursor >= self.total {
            return RecvOutcome::Empty;
        }
        let oldest = self.total - (self.buffer.len() as u64);
        if sub.cursor < oldest {
            let missed = oldest - sub.cursor;
            sub.cursor = oldest;
            RecvOutcome::Lagged(missed)
        } else {
            let idx = (sub.cursor - oldest) as usize;
            let ev = self.buffer[idx].clone();
            assert(self.buffer@[idx as int] == self.history()[sub.cursor as int]);
            sub.cursor = sub.cursor + 1;
            RecvOutcome::Event(ev)
        }
    }
}

} // verus!
