use tetris_web::events::{accepts, is_directional, Event, GameState, InputEvent, SettingEvent, TimerKind};
use tetris_web::fps::FpsCounter;
use tetris_web::scheduler::{elapsed_ms, lines_remaining, DrainStep, Inbox, Session, SESSION_LIMIT_MS};
use tetris_web::search_gate::SearchGate;

#[test]
fn startup_drops_non_movement_input() {
    let up = Event::Input(InputEvent::PressUp);
    let left = Event::Input(InputEvent::PressLeft);
    assert!(!accepts(GameState::Startup, &up));
    assert!(accepts(GameState::Startup, &left));
    let mut inbox = Inbox::new();
    inbox.send(up);
    inbox.send(left);
    assert_eq!(inbox.next_step(GameState::Startup), DrainStep::Dispatch(left));
    assert_eq!(inbox.next_step(GameState::Startup), DrainStep::Drained);
}

#[test]
fn acceptance_by_state() {
    let setting = Event::Setting(SettingEvent::Das(3));
    let timer = Event::Timer(TimerKind::Gravity);
    assert!(accepts(GameState::Running, &setting));
    assert!(accepts(GameState::Running, &timer));
    assert!(!accepts(GameState::Startup, &setting));
    assert!(!accepts(GameState::Done, &Event::Input(InputEvent::PressLeft)));
    assert!(is_directional(&Event::Input(InputEvent::ReleaseRight)));
    assert!(!is_directional(&Event::Input(InputEvent::PressHold)));
}

#[test]
fn restart_discards_rest_of_tick() {
    let mut inbox = Inbox::new();
    inbox.send(Event::Input(InputEvent::PressLeft));
    inbox.send(Event::Input(InputEvent::Restart));
    inbox.send(Event::Input(InputEvent::PressRight));
    inbox.send(Event::Input(InputEvent::PressHardDrop));
    assert_eq!(inbox.next_step(GameState::Running), DrainStep::Dispatch(Event::Input(InputEvent::PressLeft)));
    assert_eq!(inbox.next_step(GameState::Running), DrainStep::Restart);
    assert_eq!(inbox.len(), 0);
    assert_eq!(inbox.next_step(GameState::Running), DrainStep::Drained);
}

#[test]
fn restart_is_taken_in_every_state() {
    for state in [GameState::Startup, GameState::Running, GameState::Done] {
        let mut inbox = Inbox::new();
        inbox.send(Event::Input(InputEvent::Restart));
        inbox.send(Event::Input(InputEvent::PressLeft));
        assert_eq!(inbox.next_step(state), DrainStep::Restart);
        assert_eq!(inbox.len(), 0);
    }
}

#[test]
fn done_game_takes_nothing_but_restart() {
    let mut inbox = Inbox::new();
    inbox.send(Event::Input(InputEvent::PressLeft));
    inbox.send(Event::Timer(TimerKind::LockDelay));
    assert_eq!(inbox.next_step(GameState::Done), DrainStep::Drained);
    assert_eq!(inbox.len(), 0);
}

#[test]
fn gate_searches_once_per_spawn() {
    let mut gate = SearchGate::new();
    assert!(!gate.search_due(true));
    gate.observe(false);
    assert!(!gate.search_due(true));
    gate.observe(true);
    gate.observe(false);
    assert!(gate.search_due(true));
    assert!(!gate.search_due(false));
    gate.complete_search();
    assert!(!gate.search_due(true));
    gate.observe(true);
    gate.observe(true);
    assert!(gate.search_due(true));
    gate.complete_search();
    assert_eq!(gate, SearchGate::SearchIdle);
}

#[test]
fn gate_waits_while_search_disabled() {
    let mut gate = SearchGate::new();
    gate.observe(true);
    assert!(!gate.search_due(false));
    assert_eq!(gate, SearchGate::AwaitingSearch);
    assert!(gate.search_due(true));
}

#[test]
fn session_ends_once_after_limit() {
    let mut s = Session::new(1000);
    assert!(s.may_tick());
    assert!(!s.end_of_tick(1000 + SESSION_LIMIT_MS));
    assert!(s.may_tick());
    assert!(s.end_of_tick(1001 + SESSION_LIMIT_MS));
    assert!(!s.may_tick());
    assert!(!s.end_of_tick(5000 + SESSION_LIMIT_MS));
    assert_eq!(SESSION_LIMIT_MS, 20 * 60 * 1000);
}

#[test]
fn session_before_start_time_goes_on() {
    let mut s = Session::new(u64::MAX - 5);
    assert!(!s.end_of_tick(3));
    assert!(!s.end_of_tick(u64::MAX));
    assert!(s.may_tick());
}

#[test]
fn fps_counts_ticks_in_last_second() {
    let mut f = FpsCounter::new();
    assert_eq!(f.tick(0), 1);
    assert_eq!(f.tick(500), 2);
    assert_eq!(f.tick(999), 3);
    assert_eq!(f.tick(1500), 2);
    assert_eq!(f.tick(5000), 1);
}

#[test]
fn elapsed_and_lines() {
    assert_eq!(elapsed_ms(None, None, 500), 0);
    assert_eq!(elapsed_ms(Some(100), None, 350), 250);
    assert_eq!(elapsed_ms(Some(100), Some(180), 350), 80);
    assert_eq!(elapsed_ms(Some(400), None, 350), 0);
    assert_eq!(lines_remaining(40, 12), 28);
    assert_eq!(lines_remaining(40, 45), 0);
}
