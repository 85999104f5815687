//! Events that reach the game, and the game's lifecycle tag.
use vstd::prelude::*;

verus! {

/// A player action, as press and release of keys.
#[derive(Clone, Copy, Debug, PartialEq, Eq, Structural)]
pub enum InputEvent {
    PressLeft,
    ReleaseLeft,
    PressRight,
    ReleaseRight,
    PressSoftDrop,
    ReleaseSoftDrop,
    PressHardDrop,
    PressUp,
    PressRotateCw,
    PressRotateCcw,
    PressRotate180,
    PressHold,
    Restart,
}

/// A change of one configuration value.
#[derive(Clone, Copy, Debug, PartialEq, Eq, Structural)]
pub enum SettingEvent {
    Das(u16),
    Arr(u16),
    /// `None` disables gravity.
    Gravity(Option<u16>),
    SoftDrop(u16),
}

/// A delayed effect that the game scheduled for itself.
#[derive(Clone, Copy, Debug, PartialEq, Eq, Structural)]
pub enum TimerKind {
    Gravity,
    LockDelay,
    AutoShiftLeft,
    AutoShiftRight,
    AutoRepeat,
    SoftDrop,
    Countdown,
}

#[derive(Clone, Copy, Debug, PartialEq, Eq, Structural)]
pub enum Event {
    Input(InputEvent),
    Setting(SettingEvent),
    Timer(TimerKind),
}

/// Lifecycle of a game.
#[derive(Clone, Copy, Debug, PartialEq, Eq, Structural)]
pub enum GameState {
    Startup,
    Running,
    Done,
}

/// A press or release of the left or right movement key.
pub open spec fn is_directional_spec(e: Event) -> bool {
    match e {
        Event::Input(i) => match i {
            InputEvent::PressLeft | InputEvent::ReleaseLeft | InputEvent::PressRight
            | InputEvent::ReleaseRight => true,
            _ => false,
        },
        _ => false,
    }
}

/// Whether the game, in state `state`, takes event `e`: a running game takes
/// everything, a game in its startup phase only directional movement.
pub open spec fn accepts_spec(state: GameState, e: Event) -> bool {
    state == GameState::Running || (state == GameState::Startup && is_directional_spec(e))
}

pub fn is_directional(e: &Event) -> (r: bool)
    ensures
        r == is_directional_spec(*e),
{
    match e {
        Event::Input(i) => match i {
            InputEvent::PressLeft | InputEvent::ReleaseLeft | InputEvent::PressRight
            | InputEvent::ReleaseRight => true,
            _ => false,
        },
        _ => false,
    }
}

pub fn accepts(state: GameState, e: &Event) -> (r: bool)
    ensures
        r == accepts_spec(state, *e),
{
    match state {
        GameState::Running => true,
        GameState::Startup => is_directional(e),
        GameState::Done => false,
    }
}

} // verus!
