//! Game configuration: loading it from persisted values and changing it
//! through setting events.
use vstd::prelude::*;
use vstd::string::*;
use crate::events::{Event, SettingEvent};

verus! {

#[derive(Clone, Copy, Debug)]
pub struct Config {
    pub das: u16,
    pub arr: u16,
    /// `None` disables gravity.
    pub gravity: Option<u16>,
    pub soft_drop: u16,
    pub lock_delay: (u16, u16, u16),
    pub show_ghost: bool,
}

/// The value persisted under each setting's key, if any, as stored text.
#[derive(Debug)]
pub struct StoredSettings {
    pub das: Option<String>,
    pub arr: Option<String>,
    pub gravity: Option<String>,
    pub soft_drop: Option<String>,
    pub lock_delay: Option<String>,
    pub show_ghost: Option<String>,
}

/// What serde_json reads from `s` as a `u16`, if it is valid JSON for one.
pub uninterp spec fn json_u16(s: Seq<char>) -> Option<u16>;

/// What serde_json reads from `s` as an `Option<u16>`, if it is valid JSON for one.
pub uninterp spec fn json_opt_u16(s: Seq<char>) -> Option<Option<u16>>;

/// What serde_json reads from `s` as a triple of `u16`, if it is valid JSON for one.
pub uninterp spec fn json_u16_triple(s: Seq<char>) -> Option<(u16, u16, u16)>;

/// What serde_json reads from `s` as a `bool`, if it is valid JSON for one.
pub uninterp spec fn json_bool(s: Seq<char>) -> Option<bool>;

/// What `str::parse::<u16>` makes of `s`, if it is a decimal `u16`.
pub uninterp spec fn decimal_u16(s: Seq<char>) -> Option<u16>;

/// Relies on serde_json::from_str::<u16>: the outcome depends on the text alone.
#[verifier::external_body]
fn read_json_u16(s: &str) -> (r: Option<u16>)
    ensures
        r == json_u16(s@),
{
    serde_json::from_str::<u16>(s).ok()
}

/// Relies on serde_json::from_str::<Option<u16>>: the outcome depends on the text alone.
#[verifier::external_body]
fn read_json_opt_u16(s: &str) -> (r: Option<Option<u16>>)
    ensures
        r == json_opt_u16(s@),
{
    serde_json::from_str::<Option<u16>>(s).ok()
}

/// Relies on serde_json::from_str::<(u16, u16, u16)>: the outcome depends on the text alone.
#[verifier::external_body]
fn read_json_u16_triple(s: &str) -> (r: Option<(u16, u16, u16)>)
    ensures
        r == json_u16_triple(s@),
{
    serde_json::from_str::<(u16, u16, u16)>(s).ok()
}

/// Relies on serde_json::from_str::<bool>: the outcome depends on the text alone.
#[verifier::external_body]
fn read_json_bool(s: &str) -> (r: Option<bool>)
    ensures
        r == json_bool(s@),
{
    serde_json::from_str::<bool>(s).ok()
}

/// Relies on std's `str::parse::<u16>`: the outcome depends on the text alone.
#[verifier::external_body]
fn parse_decimal_u16(s: &str) -> (r: Option<u16>)
    ensures
        r == decimal_u16(s@),
{
    s.parse::<u16>().ok()
}

pub open spec fn default_config() -> Config {
    Config { das: 6, arr: 0, gravity: Some(60), soft_drop: 1, lock_delay: (60, 300, 1200), show_ghost: true }
}

/// The stored text, read by `read`, or `default` when nothing is stored or
/// the text does not read.
pub open spec fn stored_or<T>(stored: Option<String>, read: spec_fn(Seq<char>) -> Option<T>, default: T) -> T {
    match stored {
        Some(s) => match read(s@) {
            Some(v) => v,
            None => default,
        },
        None => default,
    }
}

/// A gravity of zero means no gravity.
pub open spec fn normalize_gravity(g: Option<u16>) -> Option<u16> {
    if g == Some(0u16) {
        None
    } else {
        g
    }
}

/// The configuration loaded from persisted values, field by field.
pub open spec fn loaded_config(st: StoredSettings) -> Config {
    let d = default_config();
    Config {
        das: stored_or(st.das, |s| json_u16(s), d.das),
        arr: stored_or(st.arr, |s| json_u16(s), d.arr),
        gravity: normalize_gravity(stored_or(st.gravity, |s| json_opt_u16(s), d.gravity)),
        soft_drop: stored_or(st.soft_drop, |s| json_u16(s), d.soft_drop),
        lock_delay: stored_or(st.lock_delay, |s| json_u16_triple(s), d.lock_delay),
        show_ghost: stored_or(st.show_ghost, |s| json_bool(s), d.show_ghost),
    }
}

pub fn default_settings() -> (r: Config)
    ensures
        r == default_config(),
{
    Config { das: 6, arr: 0, gravity: Some(60), soft_drop: 1, lock_delay: (60, 300, 1200), show_ghost: true }
}

/// Builds the configuration from persisted values. Each field falls back to
/// its default on its own when its value is absent or does not read; a stored
/// gravity of zero disables gravity.
pub fn load_config(st: &StoredSettings) -> (r: Config)
    ensures
        r == loaded_config(*st),
{
    let d = default_settings();
    let das = match &st.das {
        Some(s) => match read_json_u16(s.as_str()) {
            Some(v) => v,
            None => d.das,
        },
        None => d.das,
    };
    let arr = match &st.arr {
        Some(s) => match read_json_u16(s.as_str()) {
            Some(v) => v,
            None => d.arr,
        },
        None => d.arr,
    };
    let gravity = match &st.gravity {
        Some(s) => match read_json_opt_u16(s.as_str()) {
            Some(v) => v,
            None => d.gravity,
        },
        None => d.gravity,
    };
    let gravity = match gravity {
        Some(0) => None,
        g => g,
    };
    let soft_drop = match &st.soft_drop {
        Some(s) => match read_json_u16(s.as_str()) {
            Some(v) => v,
            None => d.soft_drop,
        },
        None => d.soft_drop,
    };
    let lock_delay = match &st.lock_delay {
        Some(s) => match read_json_u16_triple(s.as_str()) {
            Some(v) => v,
            None => d.lock_delay,
        },
        None => d.lock_delay,
    };
    let show_ghost = match &st.show_ghost {
        Some(s) => match read_json_bool(s.as_str()) {
            Some(v) => v,
            None => d.show_ghost,
        },
        None => d.show_ghost,
    };
    Config { das, arr, gravity, soft_drop, lock_delay, show_ghost }
}

/// Whether `s` and `t` hold the same characters.
pub fn same_text(s: &str, t: &str) -> (r: bool)
    ensures
        r == (s@ == t@),
{
    let n = s.unicode_len();
    if n != t.unicode_len() {
        return false;
    }
    let mut i: usize = 0;
    while i < n
        invariant
            n == s@.len(),
            n == t@.len(),
            i <= n,
            forall|j: int| 0 <= j < i ==> s@[j] == t@[j],
        decreases n - i,
    {
        if s.get_char(i) != t.get_char(i) {
            return false;
        }
        i = i + 1;
    }
    assert(s@ =~= t@);
    true
}

/// The event that a change of the settings control `name` to text `value`
/// stands for; `None` for a name that is no setting or a value that is no
/// decimal `u16`. A gravity of zero disables gravity.
pub open spec fn setting_event_spec(name: Seq<char>, value: Seq<char>) -> Option<Event> {
    match decimal_u16(value) {
        None => None,
        Some(v) => if name == "das"@ {
            Some(Event::Setting(SettingEvent::Das(v)))
        } else if name == "arr"@ {
            Some(Event::Setting(SettingEvent::Arr(v)))
        } else if name == "gravity"@ {
            Some(Event::Setting(SettingEvent::Gravity(normalize_gravity(Some(v)))))
        } else if name == "soft-drop"@ {
            Some(Event::Setting(SettingEvent::SoftDrop(v)))
        } else {
            None
        },
    }
}

pub fn setting_event(name: &str, value: &str) -> (r: Option<Event>)
    ensures
        r == setting_event_spec(name@, value@),
{
    let v = match parse_decimal_u16(value) {
        Some(v) => v,
        None => return None,
    };
    if same_text(name, "das") {
        Some(Event::Setting(SettingEvent::Das(v)))
    } else if same_text(name, "arr") {
        Some(Event::Setting(SettingEvent::Arr(v)))
    } else if same_text(name, "gravity") {
        Some(Event::Setting(SettingEvent::Gravity(if v == 0 { None } else { Some(v) })))
    } else if same_text(name, "soft-drop") {
        Some(Event::Setting(SettingEvent::SoftDrop(v)))
    } else {
        None
    }
}

impl Config {
    /// The configuration after setting event `e`: the one field it names takes
    /// its value.
    pub fn apply(&mut self, e: SettingEvent)
        ensures
            *final(self) == match e {
                SettingEvent::Das(v) => Config { das: v, ..*old(self) },
                SettingEvent::Arr(v) => Config { arr: v, ..*old(self) },
                SettingEvent::Gravity(g) => Config { gravity: g, ..*old(self) },
                SettingEvent::SoftDrop(v) => Config { soft_drop: v, ..*old(self) },
            },
    {
        match e {
            SettingEvent::Das(v) => self.das = v,
            SettingEvent::Arr(v) => self.arr = v,
            SettingEvent::Gravity(g) => self.gravity = g,
            SettingEvent::SoftDrop(v) => self.soft_drop = v,
        }
    }
}

} // verus!
