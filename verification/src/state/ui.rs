//! Interaction state: command-rail mode with idle decay, structured log lines,
//! input modes.

use std::collections::VecDeque;
use std::time::Instant;
use vstd::prelude::*;

use crate::clock::{instant_now, millis_since, unix_now_secs};
use crate::history::{bounded_push, push_bounded};
use crate::text::{ascii_lower, ascii_lower_chars, chars_of, contains_chars, contains_seq};

verus! {

/// At most this many log lines are kept; older ones are dropped first.
pub const LOG_MAX_ENTRIES: usize = 100;

/// How long (milliseconds) an auto-set mode lingers before relaxing back to Monitor.
pub const RAIL_MODE_DECAY_MS: u128 = 8000;

/// Which lead view the command rail's mode card shows.
#[derive(Clone, Copy, PartialEq, Eq, Debug, Structural)]
pub enum RailMode {
    Hunt,
    Monitor,
    Bench,
}

impl Default for RailMode {
    fn default() -> (r: RailMode)
        ensures
            r == RailMode::Monitor,
    {
        RailMode::Monitor
    }
}

impl RailMode {
    /// Left-to-right tab order, also the manual cycle order.
    pub const ALL: [RailMode; 3] = [RailMode::Hunt, RailMode::Monitor, RailMode::Bench];

    /// The tab label of a mode.
    pub open spec fn label_spec(self) -> Seq<char> {
        match self {
            RailMode::Hunt => "HUNT"@,
            RailMode::Monitor => "MONITOR"@,
            RailMode::Bench => "BENCH"@,
        }
    }

    /// The successor in the cycle HUNT → MONITOR → BENCH → HUNT.
    pub open spec fn next_spec(self) -> RailMode {
        match self {
            RailMode::Hunt => RailMode::Monitor,
            RailMode::Monitor => RailMode::Bench,
            RailMode::Bench => RailMode::Hunt,
        }
    }

    /// The full-width tab label.
    pub fn label(self) -> (r: &'static str)
        ensures
            r@ == self.label_spec(),
    {
        match self {
            RailMode::Hunt => "HUNT",
            RailMode::Monitor => "MONITOR",
            RailMode::Bench => "BENCH",
        }
    }

    /// Next mode in the manual cycle: HUNT → MONITOR → BENCH → HUNT.
    pub fn next(self) -> (r: RailMode)
        ensures
            r == self.next_spec(),
    {
        match self {
            RailMode::Hunt => RailMode::Monitor,
            RailMode::Monitor => RailMode::Bench,
            RailMode::Bench => RailMode::Hunt,
        }
    }
}

/// Three steps of the manual cycle return to the starting mode, and every
/// step moves to a different mode.
pub proof fn lemma_rail_cycle(m: RailMode)
    ensures
        m.next_spec().next_spec().next_spec() == m,
        m.next_spec() != m,
{
}

/// The mode to render after idle decay: an auto-set mode idle for at least
/// the decay period shows as Monitor; a pinned mode, or one without a timer,
/// is kept.
pub open spec fn decayed_mode_spec(mode: RailMode, auto: bool, since_ms: Option<u128>) -> RailMode {
    match since_ms {
        Some(d) if auto && d >= RAIL_MODE_DECAY_MS => RailMode::Monitor,
        _ => mode,
    }
}

/// The mode to actually render, after decay (`since_ms`: milliseconds since
/// the last auto mode change, if any).
pub fn decayed_mode(mode: RailMode, auto: bool, since_ms: Option<u128>) -> (r: RailMode)
    ensures
        r == decayed_mode_spec(mode, auto, since_ms),
{
    match since_ms {
        Some(d) => {
            if auto && d >= RAIL_MODE_DECAY_MS {
                RailMode::Monitor
            } else {
                mode
            }
        },
        None => mode,
    }
}

/// Severity of a log line.
#[derive(Clone, Copy, PartialEq, Eq, Debug, Structural)]
pub enum LogLevel {
    Info,
    Success,
    Warn,
    Error,
}

/// Whether some needle occurs in `m`.
pub open spec fn has_any(m: Seq<char>, needles: Seq<Seq<char>>) -> bool {
    exists|i: int| 0 <= i < needles.len() && contains_seq(m, #[trigger] needles[i])
}

/// Keywords that mark a failure.
pub open spec fn error_words() -> Seq<Seq<char>> {
    seq!["error"@, "fail"@, "unable"@, "in use"@, "could not"@]
}

/// Keywords that mark a warning.
pub open spec fn warn_words() -> Seq<Seq<char>> {
    seq!["warning"@, "warn"@, "no marker"@, "unexpectedly"@]
}

/// Keywords that mark a success.
pub open spec fn ok_words() -> Seq<Seq<char>> {
    seq!["started"@, "connected"@, "enabled"@, "success"@]
}

/// Classification of a message by keyword, case-insensitively (ASCII):
/// failures win over warnings, which win over successes; everything else is Info.
pub open spec fn infer_spec(msg: Seq<char>) -> LogLevel {
    let m = ascii_lower(msg);
    if has_any(m, error_words()) {
        LogLevel::Error
    } else if has_any(m, warn_words()) {
        LogLevel::Warn
    } else if has_any(m, ok_words()) {
        LogLevel::Success
    } else {
        LogLevel::Info
    }
}

/// Whether the lower-cased message holds `word`.
fn holds(m: &Vec<char>, word: &str) -> (r: bool)
    ensures
        r == contains_seq(m@, word@),
{
    let w = chars_of(word);
    contains_chars(m, &w)
}

impl LogLevel {
    /// Classify a message by keyword.
    pub fn infer(msg: &str) -> (r: LogLevel)
        ensures
            r == infer_spec(msg@),
    {
        let m = ascii_lower_chars(msg);
        let ghost lm = ascii_lower(msg@);
        let e = holds(&m, "error") || holds(&m, "fail") || holds(&m, "unable") || holds(&m, "in use")
            || holds(&m, "could not");
        proof {
            let ws = error_words();
            if e {
                if contains_seq(lm, "error"@) { assert(contains_seq(lm, ws[0])); }
                else if contains_seq(lm, "fail"@) { assert(contains_seq(lm, ws[1])); }
                else if contains_seq(lm, "unable"@) { assert(contains_seq(lm, ws[2])); }
                else if contains_seq(lm, "in use"@) { assert(contains_seq(lm, ws[3])); }
                else { assert(contains_seq(lm, ws[4])); }
            } else {
                assert forall|i: int| 0 <= i < ws.len() implies !contains_seq(lm, #[trigger] ws[i]) by {
                    assert(i == 0 || i == 1 || i == 2 || i == 3 || i == 4);
                }
            }
        }
        if e {
            return LogLevel::Error;
        }
        let w = holds(&m, "warning") || holds(&m, "warn") || holds(&m, "no marker") || holds(
            &m,
            "unexpectedly",
        );
        proof {
            let ws = warn_words();
            if w {
                if contains_seq(lm, "warning"@) { assert(contains_seq(lm, ws[0])); }
                else if contains_seq(lm, "warn"@) { assert(contains_seq(lm, ws[1])); }
                else if contains_seq(lm, "no marker"@) { assert(contains_seq(lm, ws[2])); }
                else { assert(contains_seq(lm, ws[3])); }
            } else {
                assert forall|i: int| 0 <= i < ws.len() implies !contains_seq(lm, #[trigger] ws[i]) by {
                    assert(i == 0 || i == 1 || i == 2 || i == 3);
                }
            }
        }
        if w {
            return LogLevel::Warn;
        }
        let o = holds(&m, "started") || holds(&m, "connected") || holds(&m, "enabled") || holds(
            &m,
            "success",
        );
        proof {
            let ws = ok_words();
            if o {
                if contains_seq(lm, "started"@) { assert(contains_seq(lm, ws[0])); }
                else if contains_seq(lm, "connected"@) { assert(contains_seq(lm, ws[1])); }
                else if contains_seq(lm, "enabled"@) { assert(contains_seq(lm, ws[2])); }
                else { assert(contains_seq(lm, ws[3])); }
            } else {
                assert forall|i: int| 0 <= i < ws.len() implies !contains_seq(lm, #[trigger] ws[i]) by {
                    assert(i == 0 || i == 1 || i == 2 || i == 3);
                }
            }
        }
        if o {
            LogLevel::Success
        } else {
            LogLevel::Info
        }
    }
}

/// One structured log line: when it was pushed (Unix seconds), its severity, its text.
#[derive(Clone)]
pub struct LogEntry {
    pub at_epoch_secs: u64,
    pub level: LogLevel,
    pub text: String,
}

/// What the keyboard currently types into.
#[derive(Clone, Copy, PartialEq, Eq, Debug, Structural)]
pub enum InputMode {
    Normal,
    FrequencyInput,
    SampleRateInput,
    MarkerNameInput,
    SweepStartInput,
    SweepStopInput,
}

/// Interaction state read by the renderer each frame.
pub struct UiState {
    pub input_mode: InputMode,
    pub input_buf: String,
    pub focused_panel: Option<String>,
    pub focused_panel_bindings: &'static [(&'static str, &'static str)],
    /// Name of the active layout preset, mirrored for the footer.
    pub active_preset: String,
    /// Names of all defined presets, mirrored for the footer.
    pub preset_names: Vec<String>,
    pub log: VecDeque<LogEntry>,
    /// Command-rail lead-view mode.
    pub rail_mode: RailMode,
    /// Whether `rail_mode` was set by auto-follow (decays) rather than pinned.
    pub rail_mode_auto: bool,
    /// When the last auto mode change happened, for the idle decay.
    pub last_mode_action: Option<Instant>,
}

impl Default for UiState {
    fn default() -> (r: UiState)
        ensures
            r.input_mode == InputMode::Normal,
            r.input_buf@.len() == 0,
            r.focused_panel.is_none(),
            r.focused_panel_bindings@.len() == 0,
            r.active_preset@.len() == 0,
            r.preset_names@.len() == 0,
            r.log@.len() == 0,
            r.rail_mode == RailMode::Monitor,
            !r.rail_mode_auto,
            r.last_mode_action.is_none(),
    {
        UiState {
            input_mode: InputMode::Normal,
            input_buf: String::new(),
            focused_panel: None,
            focused_panel_bindings: &[],
            active_preset: String::new(),
            preset_names: Vec::new(),
            log: VecDeque::new(),
            rail_mode: RailMode::Monitor,
            rail_mode_auto: false,
            last_mode_action: None,
        }
    }
}

impl UiState {
    /// Appends a log line stamped `at_epoch_secs`, classified by [`LogLevel::infer`];
    /// a full log first drops its oldest line. Nothing else changes.
    pub fn push_log_at(&mut self, msg: &str, at_epoch_secs: u64)
        ensures
            old(self).log@.len() <= LOG_MAX_ENTRIES ==> final(self).log@.len() <= LOG_MAX_ENTRIES,
            final(self).log@ == bounded_push(old(self).log@, final(self).log@.last(), LOG_MAX_ENTRIES as nat),
            final(self).log@.last().at_epoch_secs == at_epoch_secs,
            final(self).log@.last().level == infer_spec(msg@),
            final(self).log@.last().text@ == msg@,
            final(self).input_mode == old(self).input_mode,
            final(self).input_buf == old(self).input_buf,
            final(self).focused_panel == old(self).focused_panel,
            final(self).focused_panel_bindings == old(self).focused_panel_bindings,
            final(self).active_preset == old(self).active_preset,
            final(self).preset_names == old(self).preset_names,
            final(self).rail_mode == old(self).rail_mode,
            final(self).rail_mode_auto == old(self).rail_mode_auto,
            final(self).last_mode_action == old(self).last_mode_action,
    {
        let level = LogLevel::infer(msg);
        let text = String::from_str(msg);
        let entry = LogEntry { at_epoch_secs, level, text };
        push_bounded(&mut self.log, entry, LOG_MAX_ENTRIES);
    }

    /// Appends a log line stamped with the current wall-clock time; see
    /// [`UiState::push_log_at`] for everything but the stamp.
    pub fn push_log(&mut self, msg: &str)
        ensures
            old(self).log@.len() <= LOG_MAX_ENTRIES ==> final(self).log@.len() <= LOG_MAX_ENTRIES,
            final(self).log@ == bounded_push(old(self).log@, final(self).log@.last(), LOG_MAX_ENTRIES as nat),
            final(self).log@.last().level == infer_spec(msg@),
            final(self).log@.last().text@ == msg@,
            final(self).input_mode == old(self).input_mode,
            final(self).input_buf == old(self).input_buf,
            final(self).focused_panel == old(self).focused_panel,
            final(self).focused_panel_bindings == old(self).focused_panel_bindings,
            final(self).active_preset == old(self).active_preset,
            final(self).preset_names == old(self).preset_names,
            final(self).rail_mode == old(self).rail_mode,
            final(self).rail_mode_auto == old(self).rail_mode_auto,
            final(self).last_mode_action == old(self).last_mode_action,
    {
        let now = unix_now_secs();
        self.push_log_at(msg, now);
    }

    /// Records an auto-follow mode change made at `now`: sets the mode, marks
    /// it auto, and restarts its idle timer from `now`.
    pub fn note_mode_action_at(&mut self, mode: RailMode, now: Instant)
        ensures
            final(self).rail_mode == mode,
            final(self).rail_mode_auto,
            final(self).last_mode_action == Some(now),
            final(self).log == old(self).log,
            final(self).input_mode == old(self).input_mode,
            final(self).input_buf == old(self).input_buf,
            final(self).focused_panel == old(self).focused_panel,
            final(self).focused_panel_bindings == old(self).focused_panel_bindings,
            final(self).active_preset == old(self).active_preset,
            final(self).preset_names == old(self).preset_names,
    {
        self.rail_mode = mode;
        self.rail_mode_auto = true;
        self.last_mode_action = Some(now);
    }

    /// Records an auto-follow mode change now (see [`Self::note_mode_action_at`]);
    /// the timer starts from the monotonic clock reading taken here.
    pub fn note_mode_action(&mut self, mode: RailMode)
        ensures
            final(self).rail_mode == mode,
            final(self).rail_mode_auto,
            final(self).last_mode_action.is_some(),
            final(self).log == old(self).log,
            final(self).input_mode == old(self).input_mode,
            final(self).input_buf == old(self).input_buf,
            final(self).focused_panel == old(self).focused_panel,
            final(self).focused_panel_bindings == old(self).focused_panel_bindings,
            final(self).active_preset == old(self).active_preset,
            final(self).preset_names == old(self).preset_names,
    {
        self.note_mode_action_at(mode, instant_now());
    }

    /// Manual cycle: pins the next mode (no decay) and returns it.
    pub fn cycle_rail_mode(&mut self) -> (r: RailMode)
        ensures
            r == old(self).rail_mode.next_spec(),
            final(self).rail_mode == r,
            !final(self).rail_mode_auto,
            final(self).last_mode_action.is_none(),
            final(self).log == old(self).log,
            final(self).input_mode == old(self).input_mode,
            final(self).input_buf == old(self).input_buf,
            final(self).focused_panel == old(self).focused_panel,
            final(self).focused_panel_bindings == old(self).focused_panel_bindings,
            final(self).active_preset == old(self).active_preset,
            final(self).preset_names == old(self).preset_names,
    {
        self.rail_mode = self.rail_mode.next();
        self.rail_mode_auto = false;
        self.last_mode_action = None;
        self.rail_mode
    }

    /// The mode to render when `elapsed_ms` milliseconds have passed since the
    /// last auto mode change (`None` when there is no timer).
    pub fn effective_rail_mode_at(&self, elapsed_ms: Option<u128>) -> (r: RailMode)
        requires
            elapsed_ms.is_some() == self.last_mode_action.is_some(),
        ensures
            r == decayed_mode_spec(self.rail_mode, self.rail_mode_auto, elapsed_ms),
    {
        decayed_mode(self.rail_mode, self.rail_mode_auto, elapsed_ms)
    }

    /// The mode to render right now, after applying the idle decay: a pinned
    /// mode or one without a timer is the stored mode; an auto mode is either
    /// kept or relaxed to Monitor, depending on the clock.
    pub fn effective_rail_mode(&self) -> (r: RailMode)
        ensures
            (!self.rail_mode_auto || self.last_mode_action.is_none()) ==> r == self.rail_mode,
            r == self.rail_mode || r == RailMode::Monitor,
    {
        let elapsed = match &self.last_mode_action {
            Some(t) => Some(millis_since(t)),
            None => None,
        };
        self.effective_rail_mode_at(elapsed)
    }
}

/// A manual cycle pins the mode: right after it, whatever the clock says, the
/// rendered mode is exactly the newly selected one.
pub proof fn lemma_cycle_pins(old_mode: RailMode, elapsed_ms: Option<u128>)
    ensures
        decayed_mode_spec(old_mode.next_spec(), false, elapsed_ms) == old_mode.next_spec(),
        decayed_mode_spec(old_mode.next_spec(), false, None) == old_mode.next_spec(),
{
}

/// An auto-set mode holds for less than the eight-second decay period and
/// relaxes to Monitor from then on; a pinned mode never decays.
pub proof fn lemma_auto_decay(mode: RailMode, ms: u128)
    ensures
        ms < RAIL_MODE_DECAY_MS ==> decayed_mode_spec(mode, true, Some(ms)) == mode,
        ms >= RAIL_MODE_DECAY_MS ==> decayed_mode_spec(mode, true, Some(ms)) == RailMode::Monitor,
        ms < 8_000 ==> decayed_mode_spec(mode, true, Some(ms)) == mode,
        ms >= 8_000 ==> decayed_mode_spec(mode, true, Some(ms)) == RailMode::Monitor,
        decayed_mode_spec(mode, false, Some(ms)) == mode,
{
}

/// Keyword law of log classification: a message that mentions (in any ASCII
/// case) `error`, `fail`, `unable`, `in use` or `could not` is a failure,
/// whatever else it says; an Error is only ever one of those; a message with
/// none of them that mentions `warning`, `warn`, `no marker` or
/// `unexpectedly` is a warning; one with neither kind that mentions
/// `started`, `connected`, `enabled` or `success` is a success; anything
/// else is plain information.
pub proof fn lemma_infer_keywords(msg: Seq<char>)
    ensures
        ({
            let m = ascii_lower(msg);
            let err = contains_seq(m, "error"@) || contains_seq(m, "fail"@) || contains_seq(m, "unable"@)
                || contains_seq(m, "in use"@) || contains_seq(m, "could not"@);
            let warn = contains_seq(m, "warning"@) || contains_seq(m, "warn"@) || contains_seq(
                m,
                "no marker"@,
            ) || contains_seq(m, "unexpectedly"@);
            let ok = contains_seq(m, "started"@) || contains_seq(m, "connected"@) || contains_seq(
                m,
                "enabled"@,
            ) || contains_seq(m, "success"@);
            &&& err <==> infer_spec(msg) == LogLevel::Error
            &&& (!err && warn) <==> infer_spec(msg) == LogLevel::Warn
            &&& (!err && !warn && ok) <==> infer_spec(msg) == LogLevel::Success
            &&& (!err && !warn && !ok) <==> infer_spec(msg) == LogLevel::Info
        }),
{
    let m = ascii_lower(msg);
    let e = error_words();
    let w = warn_words();
    let o = ok_words();
    assert(e[0] == "error"@ && e[1] == "fail"@ && e[2] == "unable"@ && e[3] == "in use"@ && e[4] == "could not"@);
    assert(w[0] == "warning"@ && w[1] == "warn"@ && w[2] == "no marker"@ && w[3] == "unexpectedly"@);
    assert(o[0] == "started"@ && o[1] == "connected"@ && o[2] == "enabled"@ && o[3] == "success"@);
    if has_any(m, e) {
        let i = choose|i: int| 0 <= i < e.len() && contains_seq(m, #[trigger] e[i]);
        assert(i == 0 || i == 1 || i == 2 || i == 3 || i == 4);
    }
    if has_any(m, w) {
        let i = choose|i: int| 0 <= i < w.len() && contains_seq(m, #[trigger] w[i]);
        assert(i == 0 || i == 1 || i == 2 || i == 3);
    }
    if has_any(m, o) {
        let i = choose|i: int| 0 <= i < o.len() && contains_seq(m, #[trigger] o[i]);
        assert(i == 0 || i == 1 || i == 2 || i == 3);
    }
    if contains_seq(m, "error"@) { assert(contains_seq(m, e[0])); }
    if contains_seq(m, "fail"@) { assert(contains_seq(m, e[1])); }
    if contains_seq(m, "unable"@) { assert(contains_seq(m, e[2])); }
    if contains_seq(m, "in use"@) { assert(contains_seq(m, e[3])); }
    if contains_seq(m, "could not"@) { assert(contains_seq(m, e[4])); }
    if contains_seq(m, "warning"@) { assert(contains_seq(m, w[0])); }
    if contains_seq(m, "warn"@) { assert(contains_seq(m, w[1])); }
    if contains_seq(m, "no marker"@) { assert(contains_seq(m, w[2])); }
    if contains_seq(m, "unexpectedly"@) { assert(contains_seq(m, w[3])); }
    if contains_seq(m, "started"@) { assert(contains_seq(m, o[0])); }
    if contains_seq(m, "connected"@) { assert(contains_seq(m, o[1])); }
    if contains_seq(m, "enabled"@) { assert(contains_seq(m, o[2])); }
    if contains_seq(m, "success"@) { assert(contains_seq(m, o[3])); }
}

} // verus!
