//! The decisions of the theme watcher daemon: which desktop setting
//! changes call for a new theme, the cache of the last seen values, and
//! the debounce state machine that the daemon's event loop runs.

use vstd::prelude::*;
use crate::plasma::colors::Color;
use crate::plasma::generator::ThemeGenerator;
use crate::text::{chars_of, eq_chars};

verus! {

/// A setting value as the portal sent it: a string, an accent color (a
/// structure of three doubles, already clamped and scaled to bytes), or
/// anything else.
#[derive(Debug, Clone, PartialEq, Eq)]
pub enum SettingValue {
    /// A string value.
    Text(String),
    /// An accent color value.
    Accent(Color),
    /// A value of another shape.
    Other,
}

/// Outcome of comparing an incoming `ColorScheme` value with the last seen one.
#[derive(Debug, Clone, PartialEq, Eq)]
pub enum ColorSchemeChange {
    /// The value differs from the last seen one; a regeneration is needed.
    Changed(String),
    /// The value equals the last seen one; skip.
    Unchanged,
    /// The value could not be read as a string; cannot compare.
    Unknown,
}

/// Outcome of comparing an incoming `accent-color` value with the last seen one.
#[derive(Debug, Clone, Copy, PartialEq, Eq)]
pub enum AccentColorChange {
    /// The value differs from the last seen one; a regeneration is needed.
    Changed(Color),
    /// The value equals the last seen one; skip.
    Unchanged,
    /// The value could not be parsed; cannot compare.
    Unknown,
}

/// The text of an optional string.
pub open spec fn opt_text(s: Option<String>) -> Option<Seq<char>> {
    match s {
        Some(t) => Some(t@),
        None => None,
    }
}

/// Compare an incoming `ColorScheme` value (when it is a string) against
/// the last seen one, remembering it when it differs.
pub fn classify_color_scheme(value: Option<&str>, last: &mut Option<String>) -> (r: ColorSchemeChange)
    ensures
        match value {
            None => r == ColorSchemeChange::Unknown && *final(last) == *old(last),
            Some(v) => if opt_text(*old(last)) == Some(v@) {
                r == ColorSchemeChange::Unchanged && *final(last) == *old(last)
            } else {
                &&& r matches ColorSchemeChange::Changed(s) && s@ == v@
                &&& opt_text(*final(last)) == Some(v@)
            },
        },
{
    let scheme = match value {
        Some(v) => v,
        None => return ColorSchemeChange::Unknown,
    };
    let same = match last {
        Some(prev) => {
            let a = chars_of(prev.as_str());
            let b = chars_of(scheme);
            eq_chars(&a, &b)
        },
        None => false,
    };
    if same {
        ColorSchemeChange::Unchanged
    } else {
        *last = Some(scheme.to_owned());
        ColorSchemeChange::Changed(scheme.to_owned())
    }
}

/// Compare an incoming `accent-color` value (when it parsed) against the
/// last seen one, remembering it when it differs.
pub fn classify_accent_color(value: Option<Color>, last: &mut Option<Color>) -> (r: AccentColorChange)
    ensures
        match value {
            None => r == AccentColorChange::Unknown && *final(last) == *old(last),
            Some(c) => if *old(last) == Some(c) {
                r == AccentColorChange::Unchanged && *final(last) == *old(last)
            } else {
                r == AccentColorChange::Changed(c) && *final(last) == Some(c)
            },
        },
{
    let accent = match value {
        Some(c) => c,
        None => return AccentColorChange::Unknown,
    };
    let same = match last {
        Some(prev) => *prev == accent,
        None => false,
    };
    if same {
        AccentColorChange::Unchanged
    } else {
        *last = Some(accent);
        AccentColorChange::Changed(accent)
    }
}

/// Whether a signal is the KDE color scheme setting.
pub open spec fn is_scheme_key(namespace: Seq<char>, key: Seq<char>) -> bool {
    namespace == "org.kde.kdeglobals.General"@ && key == "ColorScheme"@
}

/// Whether a signal is the portal accent color setting.
pub open spec fn is_accent_key(namespace: Seq<char>, key: Seq<char>) -> bool {
    namespace == "org.freedesktop.appearance"@ && key == "accent-color"@
}

/// The string of a setting value, if it is one.
pub open spec fn text_of(v: SettingValue) -> Option<Seq<char>> {
    match v {
        SettingValue::Text(s) => Some(s@),
        _ => None,
    }
}

/// The accent color of a setting value, if it is one.
pub open spec fn accent_of(v: SettingValue) -> Option<Color> {
    match v {
        SettingValue::Accent(c) => Some(c),
        _ => None,
    }
}

/// Whether a signal calls for a new theme given the cached values: a
/// changed or unreadable color scheme or accent color does; an unchanged
/// one, or any other setting, does not.
pub open spec fn wants_regeneration(
    namespace: Seq<char>,
    key: Seq<char>,
    value: SettingValue,
    last_scheme: Option<Seq<char>>,
    last_accent: Option<Color>,
) -> bool {
    if is_scheme_key(namespace, key) {
        match text_of(value) {
            Some(s) => last_scheme != Some(s),
            None => true,
        }
    } else if is_accent_key(namespace, key) {
        match accent_of(value) {
            Some(c) => last_accent != Some(c),
            None => true,
        }
    } else {
        false
    }
}

/// The cached color scheme after a signal: the signal's string when it is
/// the color scheme setting and carries one, else the cache unchanged.
pub open spec fn next_scheme(
    namespace: Seq<char>,
    key: Seq<char>,
    value: SettingValue,
    last_scheme: Option<Seq<char>>,
) -> Option<Seq<char>> {
    if is_scheme_key(namespace, key) && text_of(value) is Some {
        text_of(value)
    } else {
        last_scheme
    }
}

/// The cached accent color after a signal: the signal's color when it is
/// the accent color setting and carries one, else the cache unchanged.
pub open spec fn next_accent(
    namespace: Seq<char>,
    key: Seq<char>,
    value: SettingValue,
    last_accent: Option<Color>,
) -> Option<Color> {
    if !is_scheme_key(namespace, key) && is_accent_key(namespace, key) && accent_of(value) is Some {
        accent_of(value)
    } else {
        last_accent
    }
}

/// A readable color scheme or accent color signal, once seen, does not call
/// for a new theme when it arrives again: the caches it left behind already
/// hold its value.
pub proof fn lemma_repeat_signal_is_quiet(
    namespace: Seq<char>,
    key: Seq<char>,
    value: SettingValue,
    last_scheme: Option<Seq<char>>,
    last_accent: Option<Color>,
)
    requires
        (is_scheme_key(namespace, key) && text_of(value) is Some) || (is_accent_key(namespace, key)
            && accent_of(value) is Some),
    ensures
        !wants_regeneration(
            namespace,
            key,
            value,
            next_scheme(namespace, key, value, last_scheme),
            next_accent(namespace, key, value, last_accent),
        ),
{
    lemma_keys_disjoint(namespace, key);
}

/// No signal is both the color scheme and the accent color setting.
proof fn lemma_keys_disjoint(namespace: Seq<char>, key: Seq<char>)
    ensures
        !(is_scheme_key(namespace, key) && is_accent_key(namespace, key)),
{
    reveal_strlit("org.kde.kdeglobals.General");
    reveal_strlit("org.freedesktop.appearance");
    if is_scheme_key(namespace, key) && is_accent_key(namespace, key) {
        assert("org.kde.kdeglobals.General"@[4] != "org.freedesktop.appearance"@[4]);
    }
}

/// A signal for any other setting neither calls for a new theme nor touches
/// the caches.
pub proof fn lemma_other_signal_is_ignored(
    namespace: Seq<char>,
    key: Seq<char>,
    value: SettingValue,
    last_scheme: Option<Seq<char>>,
    last_accent: Option<Color>,
)
    requires
        !is_scheme_key(namespace, key),
        !is_accent_key(namespace, key),
    ensures
        !wants_regeneration(namespace, key, value, last_scheme, last_accent),
        next_scheme(namespace, key, value, last_scheme) == last_scheme,
        next_accent(namespace, key, value, last_accent) == last_accent,
{
}

/// Process one `SettingChanged` signal: classify color scheme and accent
/// color changes against the caches (updating them), and say whether a
/// regeneration should be scheduled.
pub fn handle_setting_changed(
    namespace: &str,
    key: &str,
    value: &SettingValue,
    last_color_scheme: &mut Option<String>,
    last_accent_color: &mut Option<Color>,
) -> (r: bool)
    ensures
        r == wants_regeneration(
            namespace@,
            key@,
            *value,
            opt_text(*old(last_color_scheme)),
            *old(last_accent_color),
        ),
        is_scheme_key(namespace@, key@) && text_of(*value) is Some
            ==> opt_text(*final(last_color_scheme)) == text_of(*value),
        !(is_scheme_key(namespace@, key@) && text_of(*value) is Some) ==> *final(last_color_scheme)
            == *old(last_color_scheme),
        !is_scheme_key(namespace@, key@) && is_accent_key(namespace@, key@) && accent_of(*value) is Some
            ==> *final(last_accent_color) == accent_of(*value),
        !(!is_scheme_key(namespace@, key@) && is_accent_key(namespace@, key@) && accent_of(*value) is Some)
            ==> *final(last_accent_color) == *old(last_accent_color),
        opt_text(*final(last_color_scheme)) == next_scheme(namespace@, key@, *value, opt_text(*old(last_color_scheme))),
        *final(last_accent_color) == next_accent(namespace@, key@, *value, *old(last_accent_color)),
{
    let ns = chars_of(namespace);
    let k = chars_of(key);
    if crate::text::eq_str(&ns, "org.kde.kdeglobals.General") && crate::text::eq_str(&k, "ColorScheme") {
        let text: Option<&str> = match value {
            SettingValue::Text(s) => Some(s.as_str()),
            _ => None,
        };
        match classify_color_scheme(text, last_color_scheme) {
            ColorSchemeChange::Changed(_) => true,
            ColorSchemeChange::Unchanged => false,
            ColorSchemeChange::Unknown => true,
        }
    } else if crate::text::eq_str(&ns, "org.freedesktop.appearance") && crate::text::eq_str(&k, "accent-color") {
        let accent: Option<Color> = match value {
            SettingValue::Accent(c) => Some(*c),
            _ => None,
        };
        match classify_accent_color(accent, last_accent_color) {
            AccentColorChange::Changed(_) => true,
            AccentColorChange::Unchanged => false,
            AccentColorChange::Unknown => true,
        }
    } else {
        false
    }
}

/// A theme generator for an update: writing into `output_dir`, pinned to
/// the cached color scheme and accent color when known.
pub fn theme_update_generator(output_dir: &str, color_scheme: Option<&str>, accent_color: Option<Color>) -> (g: ThemeGenerator)
    ensures
        g.output_dir@ == output_dir@,
        g.theme_name is None,
        g.grid_unit == 19,
        g.colors_file is None,
        match color_scheme {
            Some(s) => g.color_scheme_name matches Some(n) && n@ == s@,
            None => g.color_scheme_name is None,
        },
        g.accent_color == accent_color,
        g.highlight_deepen_percent == 10,
        g.format == crate::plasma::generator::OutputFormat::Png,
{
    let mut generator = ThemeGenerator::new(output_dir);
    if let Some(scheme) = color_scheme {
        generator = generator.with_color_scheme_name(scheme);
    }
    if let Some(accent) = accent_color {
        generator = generator.with_accent_color(accent);
    }
    generator
}

/// What the daemon's event loop observed.
#[derive(Debug, Clone, PartialEq, Eq)]
pub enum WatchEvent {
    /// SIGINT or SIGTERM arrived.
    Shutdown,
    /// The debounce wait elapsed without another event.
    DebounceElapsed,
    /// A portal `SettingChanged` signal.
    Setting {
        /// The setting namespace.
        namespace: String,
        /// The setting key.
        key: String,
        /// The new value.
        value: SettingValue,
    },
    /// A portal signal whose arguments could not be read.
    SettingUnreadable,
    /// A KDE `ConfigChanged` signal for `plasmarc`.
    PlasmaConfigChanged,
    /// An error on the KDE config signal stream.
    PlasmaConfigError,
    /// One of the signal streams ended.
    StreamEnded,
}

/// What the daemon does next.
#[derive(Debug, Clone, PartialEq, Eq)]
pub enum WatchAction {
    /// Keep waiting (restarting the debounce timer while one is pending).
    Wait,
    /// Regenerate the theme with the cached color scheme and accent color,
    /// then reload fcitx5.
    Regenerate {
        /// The cached color scheme name.
        color_scheme: Option<String>,
        /// The cached accent color.
        accent_color: Option<Color>,
    },
    /// Stop the daemon.
    Exit,
}

/// The daemon's state: whether a regeneration is pending (debouncing), and
/// the last seen color scheme and accent color.
#[derive(Debug, Clone)]
pub struct WatchState {
    /// Whether a regeneration is scheduled after the debounce wait.
    pub triggered: bool,
    /// The last seen color scheme name.
    pub last_color_scheme: Option<String>,
    /// The last seen accent color.
    pub last_accent_color: Option<Color>,
}

/// The watcher's state as a value: whether a regeneration is pending and
/// the cached color scheme text and accent color.
pub struct WatchModel {
    /// Whether a regeneration is pending.
    pub triggered: bool,
    /// The cached color scheme name.
    pub scheme: Option<Seq<char>>,
    /// The cached accent color.
    pub accent: Option<Color>,
}

/// The model of a watcher state.
pub open spec fn model_of(s: WatchState) -> WatchModel {
    WatchModel {
        triggered: s.triggered,
        scheme: opt_text(s.last_color_scheme),
        accent: s.last_accent_color,
    }
}

/// Whether an event is a signal: a setting change (readable or not) or a
/// Plasma config notification (or its stream's error).
pub open spec fn is_signal(e: WatchEvent) -> bool {
    match e {
        WatchEvent::Setting { .. } | WatchEvent::SettingUnreadable | WatchEvent::PlasmaConfigChanged
        | WatchEvent::PlasmaConfigError => true,
        _ => false,
    }
}

/// The model after one event.
pub open spec fn model_step(m: WatchModel, e: WatchEvent) -> WatchModel {
    match e {
        WatchEvent::DebounceElapsed => WatchModel { triggered: false, ..m },
        WatchEvent::Setting { namespace, key, value } => WatchModel {
            triggered: m.triggered || wants_regeneration(namespace@, key@, value, m.scheme, m.accent),
            scheme: next_scheme(namespace@, key@, value, m.scheme),
            accent: next_accent(namespace@, key@, value, m.accent),
        },
        WatchEvent::PlasmaConfigChanged => WatchModel { triggered: true, ..m },
        _ => m,
    }
}

/// The model after a run of events, in order.
pub open spec fn model_run(m: WatchModel, events: Seq<WatchEvent>) -> WatchModel
    decreases events.len(),
{
    if events.len() == 0 {
        m
    } else {
        model_run(model_step(m, events[0]), events.drop_first())
    }
}

/// Debouncing: once a regeneration is pending, any run of further signals
/// keeps it pending (each only restarts the wait, see [`WatchState::step`])
/// and never runs it early.
pub proof fn lemma_signals_keep_pending(m: WatchModel, events: Seq<WatchEvent>)
    requires
        m.triggered,
        forall|i: int| 0 <= i < events.len() ==> is_signal(#[trigger] events[i]),
    ensures
        model_run(m, events).triggered,
    decreases events.len(),
{
    if events.len() > 0 {
        let rest = events.drop_first();
        assert(is_signal(events[0]));
        assert forall|i: int| 0 <= i < rest.len() implies is_signal(#[trigger] rest[i]) by {
            assert(rest[i] == events[i + 1]);
        }
        lemma_signals_keep_pending(model_step(m, events[0]), rest);
    }
}

/// A Plasma config notification in a run of signals leaves a regeneration
/// pending at the end of the run, whatever came before or after it.
pub proof fn lemma_plasma_change_schedules(m: WatchModel, events: Seq<WatchEvent>, k: int)
    requires
        0 <= k < events.len(),
        events[k] == WatchEvent::PlasmaConfigChanged,
        forall|i: int| 0 <= i < events.len() ==> is_signal(#[trigger] events[i]),
    ensures
        model_run(m, events).triggered,
    decreases events.len(),
{
    let rest = events.drop_first();
    assert(is_signal(events[0]));
    assert forall|i: int| 0 <= i < rest.len() implies is_signal(#[trigger] rest[i]) by {
        assert(rest[i] == events[i + 1]);
    }
    if k == 0 {
        lemma_signals_keep_pending(model_step(m, events[0]), rest);
    } else {
        assert(rest[k - 1] == events[k]);
        lemma_plasma_change_schedules(model_step(m, events[0]), rest, k - 1);
    }
}

/// When the wait elapses the pending regeneration runs once: the state
/// returns to idle with the caches kept, and shutdown changes nothing.
pub proof fn lemma_elapse_returns_idle(m: WatchModel)
    ensures
        !model_step(m, WatchEvent::DebounceElapsed).triggered,
        model_step(m, WatchEvent::DebounceElapsed).scheme == m.scheme,
        model_step(m, WatchEvent::DebounceElapsed).accent == m.accent,
        model_step(m, WatchEvent::Shutdown) == m,
{
}

impl WatchState {
    /// The idle state with nothing seen yet.
    pub fn new() -> (s: WatchState)
        ensures
            !s.triggered,
            s.last_color_scheme is None,
            s.last_accent_color is None,
    {
        WatchState { triggered: false, last_color_scheme: None, last_accent_color: None }
    }

    /// Advance on one event. Shutdown and an ended stream stop the daemon;
    /// an elapsed debounce regenerates with the cached values and returns to
    /// idle; a setting signal updates the caches and, when idle, starts the
    /// debounce if it calls for a new theme (while debouncing it only
    /// restarts the wait); a Plasma config change starts the debounce;
    /// unreadable signals and stream errors change nothing.
    pub fn step(&mut self, event: &WatchEvent) -> (a: WatchAction)
        ensures
            model_of(*final(self)) == model_step(model_of(*old(self)), *event),
            is_signal(*event) ==> a == WatchAction::Wait,
            match *event {
                WatchEvent::Shutdown | WatchEvent::StreamEnded => a == WatchAction::Exit
                    && *final(self) == *old(self),
                WatchEvent::DebounceElapsed => {
                    &&& a matches WatchAction::Regenerate { color_scheme, accent_color }
                        && opt_text(color_scheme) == opt_text(old(self).last_color_scheme)
                        && accent_color == old(self).last_accent_color
                    &&& !final(self).triggered
                    &&& final(self).last_color_scheme == old(self).last_color_scheme
                    &&& final(self).last_accent_color == old(self).last_accent_color
                },
                WatchEvent::Setting { namespace, key, value } => {
                    let wants = wants_regeneration(
                        namespace@,
                        key@,
                        value,
                        opt_text(old(self).last_color_scheme),
                        old(self).last_accent_color,
                    );
                    &&& a == WatchAction::Wait
                    &&& final(self).triggered == (old(self).triggered || wants)
                    &&& (is_scheme_key(namespace@, key@) && text_of(value) is Some
                        ==> opt_text(final(self).last_color_scheme) == text_of(value))
                    &&& (!(is_scheme_key(namespace@, key@) && text_of(value) is Some)
                        ==> final(self).last_color_scheme == old(self).last_color_scheme)
                    &&& (!is_scheme_key(namespace@, key@) && is_accent_key(namespace@, key@)
                        && accent_of(value) is Some ==> final(self).last_accent_color
                        == accent_of(value))
                    &&& (!(!is_scheme_key(namespace@, key@) && is_accent_key(namespace@, key@)
                        && accent_of(value) is Some) ==> final(self).last_accent_color
                        == old(self).last_accent_color)
                    &&& opt_text(final(self).last_color_scheme) == next_scheme(
                        namespace@,
                        key@,
                        value,
                        opt_text(old(self).last_color_scheme),
                    )
                    &&& final(self).last_accent_color == next_accent(
                        namespace@,
                        key@,
                        value,
                        old(self).last_accent_color,
                    )
                },
                WatchEvent::PlasmaConfigChanged => {
                    &&& a == WatchAction::Wait
                    &&& final(self).triggered
                    &&& final(self).last_color_scheme == old(self).last_color_scheme
                    &&& final(self).last_accent_color == old(self).last_accent_color
                },
                WatchEvent::SettingUnreadable | WatchEvent::PlasmaConfigError => a == WatchAction::Wait
                    && *final(self) == *old(self),
            },
    {
        match event {
            WatchEvent::Shutdown => WatchAction::Exit,
            WatchEvent::StreamEnded => WatchAction::Exit,
            WatchEvent::DebounceElapsed => {
                self.triggered = false;
                let color_scheme = match &self.last_color_scheme {
                    Some(s) => Some(s.as_str().to_owned()),
                    None => None,
                };
                WatchAction::Regenerate { color_scheme, accent_color: self.last_accent_color }
            },
            WatchEvent::Setting { namespace, key, value } => {
                let wants = handle_setting_changed(
                    namespace.as_str(),
                    key.as_str(),
                    value,
                    &mut self.last_color_scheme,
                    &mut self.last_accent_color,
                );
                if wants {
                    self.triggered = true;
                }
                WatchAction::Wait
            },
            WatchEvent::PlasmaConfigChanged => {
                self.triggered = true;
                WatchAction::Wait
            },
            WatchEvent::SettingUnreadable => WatchAction::Wait,
            WatchEvent::PlasmaConfigError => WatchAction::Wait,
        }
    }
}

} // verus!
