//! The decisions of one frame tick: which queued events reach the game, which
//! timers fire, and when the session ends. The caller performs each decision
//! against the game and hands back what happened.
use vstd::prelude::*;
use crate::events::{accepts, accepts_spec, Event, GameState, InputEvent, TimerKind};
use crate::timer_queue::TimerQueue;

verus! {

/// Length of a session, in milliseconds: twenty minutes.
pub const SESSION_LIMIT_MS: u64 = 1200000;

/// What the drain of the inbox asks of the caller next.
#[derive(Clone, Copy, Debug, PartialEq, Eq, Structural)]
pub enum DrainStep {
    /// Restart the game; the rest of this tick's events were discarded.
    Restart,
    /// Hand this event to the game.
    Dispatch(Event),
    /// Nothing is left to handle this tick.
    Drained,
}

/// The next step of a drain over the queued events `s` while the game is in
/// `state`, and the events left queued after it. Events the game does not take
/// in its state are dropped on the way.
pub open spec fn drain_step(s: Seq<Event>, state: GameState) -> (DrainStep, Seq<Event>)
    decreases s.len(),
{
    if s.len() == 0 {
        (DrainStep::Drained, s)
    } else if s[0] == Event::Input(InputEvent::Restart) {
        (DrainStep::Restart, Seq::<Event>::empty())
    } else if accepts_spec(state, s[0]) {
        (DrainStep::Dispatch(s[0]), s.drop_first())
    } else {
        drain_step(s.drop_first(), state)
    }
}

/// The events waiting for the next tick, in order of arrival.
pub struct Inbox {
    events: Vec<Event>,
}

impl View for Inbox {
    type V = Seq<Event>;

    closed spec fn view(&self) -> Seq<Event> {
        self.events@
    }
}

impl Inbox {
    pub fn new() -> (r: Inbox)
        ensures
            r@ == Seq::<Event>::empty(),
    {
        Inbox { events: Vec::new() }
    }

    pub fn len(&self) -> (r: usize)
        ensures
            r == self@.len(),
    {
        self.events.len()
    }

    /// Queues `e` behind every event already waiting.
    pub fn send(&mut self, e: Event)
        ensures
            final(self)@ == old(self)@.push(e),
    {
        self.events.push(e);
    }

    /// Takes the next step of this tick's drain for a game in `state`.
    pub fn next_step(&mut self, state: GameState) -> (r: DrainStep)
        ensures
            (r, final(self)@) == drain_step(old(self)@, state),
            r == DrainStep::Restart ==> final(self)@.len() == 0,
            r == DrainStep::Drained ==> final(self)@.len() == 0,
            old(self)@.len() > 0 && old(self)@[0] == Event::Input(InputEvent::Restart) ==> r
                == DrainStep::Restart,
            r matches DrainStep::Dispatch(e) ==> accepts_spec(state, e),
    {
        while self.events.len() > 0
            invariant
                drain_step(self.events@, state) == drain_step(old(self)@, state),
            decreases self.events@.len(),
        {
            let ghost before = self.events@;
            let e = self.events.remove(0);
            proof {
                assert(self.events@ =~= before.drop_first());
            }
            if e == Event::Input(InputEvent::Restart) {
                self.events.clear();
                return DrainStep::Restart;
            }
            if accepts(state, &e) {
                return DrainStep::Dispatch(e);
            }
        }
        proof {
            lemma_drain_step_facts(old(self)@, state);
        }
        DrainStep::Drained
    }
}

proof fn lemma_drain_step_facts(s: Seq<Event>, state: GameState)
    ensures
        drain_step(s, state).0 == DrainStep::Drained ==> drain_step(s, state).1.len() == 0,
        drain_step(s, state).0 matches DrainStep::Dispatch(e) ==> accepts_spec(state, e),
    decreases s.len(),
{
    if s.len() > 0 {
        lemma_drain_step_facts(s.drop_first(), state);
    }
}

/// Fires or discards due timers. A finished game discards every pending timer
/// unfired; otherwise the earliest timer is taken if its fire time is at or
/// before `now`.
pub fn next_due_timer(timers: &mut TimerQueue, state: GameState, now: u64) -> (r: Option<TimerKind>)
    requires
        old(timers).wf(),
    ensures
        final(timers).wf(),
        state == GameState::Done ==> r == None::<TimerKind> && final(timers)@.len() == 0,
        state != GameState::Done && old(timers)@.len() > 0 && old(timers)@[0].fire_at <= now ==> r
            == Some(old(timers)@[0].kind) && final(timers)@ == old(timers)@.drop_first(),
        state != GameState::Done && !(old(timers)@.len() > 0 && old(timers)@[0].fire_at <= now)
            ==> r == None::<TimerKind> && final(timers)@ == old(timers)@,
{
    if state == GameState::Done {
        timers.clear();
        return None;
    }
    match timers.pop_due(now) {
        Some(e) => Some(e.kind),
        None => None,
    }
}

/// Whether the session that began at `start` is over at `now`.
pub open spec fn session_over(start: u64, now: u64) -> bool {
    now > start + SESSION_LIMIT_MS
}

/// The time limit of one play session.
#[derive(Clone, Copy, Debug, PartialEq, Eq, Structural)]
pub struct Session {
    pub start: u64,
    pub finished: bool,
}

/// The session after the end-of-tick check at `now`, and whether the terminal
/// message is to be shown at this tick.
pub open spec fn end_of_tick_spec(s: Session, now: u64) -> (Session, bool) {
    if !s.finished && session_over(s.start, now) {
        (Session { start: s.start, finished: true }, true)
    } else {
        (s, false)
    }
}

impl Session {
    pub fn new(start: u64) -> (r: Session)
        ensures
            r.start == start,
            !r.finished,
    {
        Session { start, finished: false }
    }

    /// Whether another tick may run.
    pub fn may_tick(&self) -> (r: bool)
        ensures
            r == !self.finished,
    {
        !self.finished
    }

    /// The end-of-tick check: true when the time limit has passed at `now`
    /// and the session was still going, in which case it is now finished.
    pub fn end_of_tick(&mut self, now: u64) -> (r: bool)
        ensures
            (*final(self), r) == end_of_tick_spec(*old(self), now),
    {
        if self.finished {
            return false;
        }
        let over = now > self.start && now - self.start > SESSION_LIMIT_MS;
        if over {
            self.finished = true;
        }
        over
    }
}

/// Once the time limit has passed the terminal message is shown exactly once:
/// the check that shows it finishes the session, no tick may run after it, and
/// no later check shows it again.
pub proof fn lemma_terminal_once(s: Session, now: u64, later: u64)
    requires
        !s.finished,
        session_over(s.start, now),
    ensures
        end_of_tick_spec(s, now).1,
        end_of_tick_spec(s, now).0.finished,
        !end_of_tick_spec(end_of_tick_spec(s, now).0, later).1,
        end_of_tick_spec(end_of_tick_spec(s, now).0, later).0.finished,
{
}

/// Milliseconds of play: from the game's start to its end, or to `now` while
/// it is still going; zero before it starts or for an end before the start.
pub fn elapsed_ms(start: Option<u64>, end: Option<u64>, now: u64) -> (r: u64)
    ensures
        start is None ==> r == 0,
        start matches Some(s) ==> r == (match end {
            Some(e) => if e >= s { e - s } else { 0 },
            None => if now >= s { now - s } else { 0 },
        }),
{
    match start {
        None => 0,
        Some(s) => {
            let until = match end {
                Some(e) => e,
                None => now,
            };
            until.saturating_sub(s)
        },
    }
}

/// Lines still to clear toward `target`, never below zero.
pub fn lines_remaining(target: u32, lines: u32) -> (r: u32)
    ensures
        r == if lines >= target { 0 } else { target - lines },
{
    target.saturating_sub(lines)
}

} // verus!
