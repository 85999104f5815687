//! Pending timer entries, kept in order of fire time.
use vstd::prelude::*;
use crate::events::TimerKind;

verus! {

/// A timer that fires at `fire_at` (milliseconds since the session began).
#[derive(Clone, Copy, Debug, PartialEq, Eq, Structural)]
pub struct TimerEntry {
    pub fire_at: u64,
    pub kind: TimerKind,
}

/// Fire times never decrease along `s`.
pub open spec fn sorted_by_fire(s: Seq<TimerEntry>) -> bool {
    forall|i: int, j: int| 0 <= i < j < s.len() ==> #[trigger] s[i].fire_at <= #[trigger] s[j].fire_at
}

pub struct TimerQueue {
    entries: Vec<TimerEntry>,
}

impl View for TimerQueue {
    type V = Seq<TimerEntry>;

    closed spec fn view(&self) -> Seq<TimerEntry> {
        self.entries@
    }
}

impl TimerQueue {
    pub open spec fn wf(&self) -> bool {
        sorted_by_fire(self@)
    }

    pub fn new() -> (r: TimerQueue)
        ensures
            r.wf(),
            r@ == Seq::<TimerEntry>::empty(),
    {
        TimerQueue { entries: Vec::new() }
    }

    pub fn len(&self) -> (r: usize)
        ensures
            r == self@.len(),
    {
        self.entries.len()
    }

    pub fn is_empty(&self) -> (r: bool)
        ensures
            r == (self@.len() == 0),
    {
        self.entries.len() == 0
    }

    /// Adds an entry after every entry that fires at or before it and before
    /// every entry that fires later.
    pub fn insert(&mut self, entry: TimerEntry)
        requires
            old(self).wf(),
        ensures
            final(self).wf(),
            exists|p: int|
                0 <= p <= old(self)@.len() && final(self)@ == old(self)@.insert(p, entry) && (
                forall|i: int| 0 <= i < p ==> #[trigger] old(self)@[i].fire_at <= entry.fire_at)
                && (forall|i: int|
                p <= i < old(self)@.len() ==> #[trigger] old(self)@[i].fire_at > entry.fire_at),
    {
        let mut p: usize = self.entries.len();
        while p > 0 && self.entries[p - 1].fire_at > entry.fire_at
            invariant
                p <= self.entries@.len(),
                self.entries@ == old(self).entries@,
                sorted_by_fire(self.entries@),
                forall|i: int|
                    p <= i < self.entries@.len() ==> #[trigger] self.entries@[i].fire_at
                        > entry.fire_at,
            decreases p,
        {
            p = p - 1;
        }
        proof {
            assert forall|i: int| 0 <= i < p implies #[trigger] self.entries@[i].fire_at
                <= entry.fire_at by {
                if p > 0 {
                    assert(self.entries@[i].fire_at <= self.entries@[p - 1].fire_at);
                }
            }
        }
        let ghost before = self.entries@;
        self.entries.insert(p, entry);
        proof {
            let s = self.entries@;
            assert forall|i: int, j: int| 0 <= i < j < s.len() implies #[trigger] s[i].fire_at
                <= #[trigger] s[j].fire_at by {
                if i < p && j > p {
                    assert(s[i] == before[i]);
                    assert(s[j] == before[j - 1]);
                } else if i < p && j == p {
                    assert(s[i] == before[i]);
                } else if i == p {
                    assert(s[j] == before[j - 1]);
                } else if j < p {
                    assert(s[i] == before[i] && s[j] == before[j]);
                } else {
                    assert(s[i] == before[i - 1] && s[j] == before[j - 1]);
                }
            }
        }
    }

    /// The earliest entry, left in place.
    pub fn front(&self) -> (r: Option<TimerEntry>)
        ensures
            self@.len() == 0 ==> r == None::<TimerEntry>,
            self@.len() > 0 ==> r == Some(self@[0]),
    {
        if self.entries.len() == 0 {
            None
        } else {
            Some(self.entries[0])
        }
    }

    /// Removes and returns the earliest entry.
    pub fn pop_front(&mut self) -> (r: Option<TimerEntry>)
        requires
            old(self).wf(),
        ensures
            final(self).wf(),
            old(self)@.len() == 0 ==> r == None::<TimerEntry> && final(self)@ == old(self)@,
            old(self)@.len() > 0 ==> r == Some(old(self)@[0]) && final(self)@ == old(
                self,
            )@.drop_first(),
            r is Some ==> forall|i: int|
                0 <= i < final(self)@.len() ==> r->Some_0.fire_at
                    <= #[trigger] final(self)@[i].fire_at,
    {
        if self.entries.len() == 0 {
            None
        } else {
            let e = self.entries.remove(0);
            proof {
                assert forall|i: int| 0 <= i < self.entries@.len() implies e.fire_at
                    <= #[trigger] self.entries@[i].fire_at by {
                    assert(self.entries@[i] == old(self)@[i + 1]);
                }
                assert(self.entries@ =~= old(self)@.drop_first());
            }
            Some(e)
        }
    }

    /// Discards every entry unfired.
    pub fn clear(&mut self)
        ensures
            final(self).wf(),
            final(self)@ == Seq::<TimerEntry>::empty(),
    {
        self.entries.clear();
    }

    /// Removes and returns the earliest entry if its fire time is at or before
    /// `now`; otherwise leaves the queue as it is.
    pub fn pop_due(&mut self, now: u64) -> (r: Option<TimerEntry>)
        requires
            old(self).wf(),
        ensures
            final(self).wf(),
            old(self)@.len() > 0 && old(self)@[0].fire_at <= now ==> r == Some(old(self)@[0])
                && final(self)@ == old(self)@.drop_first(),
            !(old(self)@.len() > 0 && old(self)@[0].fire_at <= now) ==> r == None::<TimerEntry>
                && final(self)@ == old(self)@,
    {
        match self.front() {
            Some(e) => {
                if e.fire_at <= now {
                    self.pop_front()
                } else {
                    None
                }
            },
            None => None,
        }
    }
}

/// Entries leave the queue in order of fire time: the entry that `pop_front`
/// hands out fires no later than any entry handed out after it, since the
/// queue's order, which every insertion keeps, is the order of removal.
pub proof fn lemma_pops_in_fire_order(q: TimerQueue, i: int, j: int)
    requires
        q.wf(),
        0 <= i < j < q@.len(),
    ensures
        q@[i].fire_at <= q@[j].fire_at,
{
}

} // verus!
