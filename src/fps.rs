//! A frames-per-second estimate over a sliding one-second window.
use vstd::prelude::*;

verus! {

/// Width of the measurement window, in milliseconds.
pub const FPS_WINDOW_MS: u64 = 1000;

/// A tick at `t` still counts at `now`.
pub open spec fn in_window(t: u64, now: u64) -> bool {
    t + FPS_WINDOW_MS > now
}

/// The ticks of `s` that still count at `now`, in order.
pub open spec fn recent(s: Seq<u64>, now: u64) -> Seq<u64>
    decreases s.len(),
{
    if s.len() == 0 {
        s
    } else if in_window(s.last(), now) {
        recent(s.drop_last(), now).push(s.last())
    } else {
        recent(s.drop_last(), now)
    }
}

pub struct FpsCounter {
    stamps: Vec<u64>,
}

impl View for FpsCounter {
    type V = Seq<u64>;

    closed spec fn view(&self) -> Seq<u64> {
        self.stamps@
    }
}

impl FpsCounter {
    pub fn new() -> (r: FpsCounter)
        ensures
            r@ == Seq::<u64>::empty(),
    {
        FpsCounter { stamps: Vec::new() }
    }

    /// Records a tick at `now`, forgets the ticks that fell out of the window,
    /// and returns how many ticks the window holds, this one included.
    pub fn tick(&mut self, now: u64) -> (r: usize)
        ensures
            final(self)@ == recent(old(self)@, now).push(now),
            r == final(self)@.len(),
    {
        let mut kept: Vec<u64> = Vec::new();
        let mut i: usize = 0;
        proof {
            assert(self.stamps@.take(0) =~= Seq::<u64>::empty());
        }
        while i < self.stamps.len()
            invariant
                i <= self.stamps@.len(),
                self.stamps@ == old(self)@,
                kept@ == recent(self.stamps@.take(i as int), now),
            decreases self.stamps@.len() - i,
        {
            let t = self.stamps[i];
            proof {
                assert(self.stamps@.take(i + 1).drop_last() =~= self.stamps@.take(i as int));
                assert(self.stamps@.take(i + 1).last() == t);
            }
            if now < FPS_WINDOW_MS || t > now - FPS_WINDOW_MS {
                kept.push(t);
            }
            i = i + 1;
        }
        proof {
            assert(self.stamps@.take(i as int) =~= old(self)@);
        }
        kept.push(now);
        self.stamps = kept;
        self.stamps.len()
    }
}

} // verus!
