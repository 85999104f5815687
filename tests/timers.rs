use tetris_web::events::{GameState, TimerKind};
use tetris_web::scheduler::next_due_timer;
use tetris_web::timer_queue::{TimerEntry, TimerQueue};

fn entry(fire_at: u64, kind: TimerKind) -> TimerEntry {
    TimerEntry { fire_at, kind }
}

#[test]
fn pops_come_out_in_fire_order() {
    let mut q = TimerQueue::new();
    for (t, k) in [(30, TimerKind::Gravity), (10, TimerKind::LockDelay), (20, TimerKind::AutoRepeat), (10, TimerKind::SoftDrop), (5, TimerKind::Countdown)] {
        q.insert(entry(t, k));
    }
    assert_eq!(q.len(), 5);
    let mut out = Vec::new();
    while let Some(e) = q.pop_front() {
        out.push((e.fire_at, e.kind));
    }
    assert_eq!(
        out,
        vec![
            (5, TimerKind::Countdown),
            (10, TimerKind::LockDelay),
            (10, TimerKind::SoftDrop),
            (20, TimerKind::AutoRepeat),
            (30, TimerKind::Gravity)
        ]
    );
    assert!(q.is_empty());
    assert_eq!(q.pop_front(), None);
}

#[test]
fn front_leaves_entry_in_place() {
    let mut q = TimerQueue::new();
    assert_eq!(q.front(), None);
    q.insert(entry(7, TimerKind::Gravity));
    assert_eq!(q.front(), Some(entry(7, TimerKind::Gravity)));
    assert_eq!(q.len(), 1);
}

#[test]
fn due_timers_fire_at_or_before_now() {
    let mut q = TimerQueue::new();
    q.insert(entry(100, TimerKind::Gravity));
    q.insert(entry(200, TimerKind::LockDelay));
    assert_eq!(next_due_timer(&mut q, GameState::Running, 99), None);
    assert_eq!(q.len(), 2);
    assert_eq!(next_due_timer(&mut q, GameState::Running, 100), Some(TimerKind::Gravity));
    assert_eq!(next_due_timer(&mut q, GameState::Running, 150), None);
    assert_eq!(next_due_timer(&mut q, GameState::Startup, 250), Some(TimerKind::LockDelay));
    assert_eq!(next_due_timer(&mut q, GameState::Running, 250), None);
}

#[test]
fn finished_game_discards_pending_timers() {
    let mut q = TimerQueue::new();
    q.insert(entry(1, TimerKind::Gravity));
    q.insert(entry(2, TimerKind::LockDelay));
    assert_eq!(next_due_timer(&mut q, GameState::Done, 1000), None);
    assert!(q.is_empty());
    assert_eq!(next_due_timer(&mut q, GameState::Running, 1000), None);
}

#[test]
fn pop_due_leaves_future_entries() {
    let mut q = TimerQueue::new();
    q.insert(entry(50, TimerKind::AutoShiftLeft));
    assert_eq!(q.pop_due(49), None);
    assert_eq!(q.pop_due(50), Some(entry(50, TimerKind::AutoShiftLeft)));
    assert_eq!(q.pop_due(50), None);
}
