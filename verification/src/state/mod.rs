//! Application state shared between the polling side and the renderer.

pub mod lab;
pub mod ui;

use std::collections::VecDeque;
use std::time::Instant;
use vstd::prelude::*;

use crate::hardware::device::{dropped_pairs, TransferStats};
use crate::history::{bounded_push, push_bounded};
use crate::parse::{is_digit, mhz_hz, parse_mhz_hz};
use crate::text::{mhz_text, push_mhz, push_str};
use crate::state::ui::InputMode;

verus! {

/// Samples kept in the throughput sparkline history.
pub const THROUGHPUT_HISTORY_LEN: usize = 64;

/// Log lines kept; older ones are dropped first.
pub const LOG_MAX_ENTRIES: usize = 100;

pub const DEFAULT_LNA_GAIN: u32 = 16;

pub const DEFAULT_VGA_GAIN: u32 = 20;

pub const DEFAULT_FREQUENCY: u64 = 2_400_000_000;

/// Default configured sample rate, in samples per second.
pub const DEFAULT_SAMPLE_RATE_HZ: u64 = 10_000_000;

/// Radio settings, live stream metrics, and the counters the receive
/// callback accumulates between polls.
pub struct SdrMetrics {
    pub frequency: u64,
    /// Configured sample rate (samples per second).
    pub config_sample_rate_hz: u64,
    /// Sample rate measured from the byte stream.
    pub actual_sample_rate: u32,
    pub lna_gain: u32,
    pub vga_gain: u32,
    pub amp_enabled: bool,
    /// What the user asked for (toggled by Space).
    pub rx_enabled: bool,
    /// What the hardware reports.
    pub hw_streaming: bool,
    /// Bytes delivered by the receive callback since the last poll.
    pub bytes_since_last_poll: u64,
    pub last_poll_time: Instant,
    pub current_throughput_bps: u64,
    /// Throughput history in KiB/s, oldest first.
    pub throughput_history: VecDeque<u64>,
    /// Measured sample-rate history, oldest first.
    pub sample_rate_history: VecDeque<u64>,
    /// Dropped sample pairs per second at the last poll.
    pub drops_per_sec: u64,
    /// Dropped sample pairs since start-up.
    pub total_drops_session: u64,
    /// Drop-rate history, oldest first.
    pub drop_history: VecDeque<u64>,
    /// Mean gap between receive callbacks over the last poll, microseconds.
    pub callback_jitter_us: u64,
    /// IQ amplitude histogram of the last poll period.
    pub iq_amplitude_hist: [u64; 32],
    /// In-app log messages, oldest first.
    pub log: VecDeque<String>,
    /// Counters filled by the receive callback and drained by each poll.
    pub acc_drops: u64,
    pub acc_saturated: u64,
    pub acc_i_sum: i64,
    pub acc_q_sum: i64,
    pub acc_i_sq_sum: i64,
    pub acc_q_sq_sum: i64,
    pub acc_sample_count: u64,
    pub acc_jitter_sum_us: u64,
    pub acc_jitter_count: u64,
    /// Wall-clock time of the previous callback, microseconds since the epoch.
    pub acc_last_callback_us: Option<u64>,
    pub acc_iq_hist: [u64; 32],
    /// What the keyboard currently types into.
    pub input_mode: InputMode,
    /// The value typed so far in an input mode.
    pub input_buf: Vec<char>,
    /// The waterfall stops scrolling while paused.
    pub waterfall_paused: bool,
    /// The spectrum keeps its current frame while held.
    pub spectrum_hold: bool,
    /// The panel that has the keyboard focus, if any.
    pub focused_panel: Option<FocusPanel>,
    /// Index of the active layout preset.
    pub active_preset: usize,
    /// Whether the footer bar is shown.
    pub footer_visible: bool,
    /// Whether the key reference is drawn over the dashboard.
    pub show_help: bool,
}

/// A panel that can take the keyboard focus.
#[derive(Clone, Copy, Debug, PartialEq, Eq, Structural)]
pub enum FocusPanel {
    Spectrum,
    Waterfall,
}

/// The settings that polling, logging and transfers leave alone.
pub open spec fn same_settings(a: &SdrMetrics, b: &SdrMetrics) -> bool {
    &&& a.frequency == b.frequency
    &&& a.config_sample_rate_hz == b.config_sample_rate_hz
    &&& a.lna_gain == b.lna_gain
    &&& a.vga_gain == b.vga_gain
    &&& a.amp_enabled == b.amp_enabled
}

/// Every history holds at most its capacity and the log at most its
/// maximum number of messages.
pub open spec fn bounded(m: &SdrMetrics) -> bool {
    &&& m.throughput_history@.len() <= THROUGHPUT_HISTORY_LEN
    &&& m.sample_rate_history@.len() <= THROUGHPUT_HISTORY_LEN
    &&& m.drop_history@.len() <= THROUGHPUT_HISTORY_LEN
    &&& m.log@.len() <= LOG_MAX_ENTRIES
}

/// The measurements (everything but settings, RX wish, log and counters)
/// are unchanged.
pub open spec fn same_measurements(a: &SdrMetrics, b: &SdrMetrics) -> bool {
    &&& a.hw_streaming == b.hw_streaming
    &&& a.actual_sample_rate == b.actual_sample_rate
    &&& a.bytes_since_last_poll == b.bytes_since_last_poll
    &&& a.last_poll_time == b.last_poll_time
    &&& a.current_throughput_bps == b.current_throughput_bps
    &&& a.throughput_history@ == b.throughput_history@
    &&& a.sample_rate_history@ == b.sample_rate_history@
    &&& a.drops_per_sec == b.drops_per_sec
    &&& a.total_drops_session == b.total_drops_session
    &&& a.drop_history@ == b.drop_history@
    &&& a.callback_jitter_us == b.callback_jitter_us
    &&& a.iq_amplitude_hist@ == b.iq_amplitude_hist@
}

/// The callback counters are unchanged.
pub open spec fn same_counters(a: &SdrMetrics, b: &SdrMetrics) -> bool {
    &&& a.acc_drops == b.acc_drops
    &&& a.acc_saturated == b.acc_saturated
    &&& a.acc_i_sum == b.acc_i_sum
    &&& a.acc_q_sum == b.acc_q_sum
    &&& a.acc_i_sq_sum == b.acc_i_sq_sum
    &&& a.acc_q_sq_sum == b.acc_q_sq_sum
    &&& a.acc_sample_count == b.acc_sample_count
    &&& a.acc_jitter_sum_us == b.acc_jitter_sum_us
    &&& a.acc_jitter_count == b.acc_jitter_count
    &&& a.acc_last_callback_us == b.acc_last_callback_us
    &&& a.acc_iq_hist@ == b.acc_iq_hist@
}

/// What one poll drained from the callback counters, for the floating-point
/// signal metrics (saturation share, DC offset, I/Q balance).
#[derive(Clone, Copy, Debug, PartialEq, Eq, Structural)]
pub struct PollSnapshot {
    pub saturated: u64,
    pub i_sum: i64,
    pub q_sum: i64,
    pub i_sq_sum: i64,
    pub q_sq_sum: i64,
    pub samples: u64,
}

/// The gap added to the jitter sum by a callback at `now_us` after one at `last`.
pub open spec fn callback_gap(now_us: u64, last: u64) -> nat {
    if now_us >= last {
        (now_us - last) as nat
    } else {
        0
    }
}

impl SdrMetrics {
    /// Start-up state: default settings, RX off, nothing measured yet.
    pub fn new(now: Instant) -> (m: SdrMetrics)
        ensures
            m.frequency == DEFAULT_FREQUENCY,
            m.config_sample_rate_hz == DEFAULT_SAMPLE_RATE_HZ,
            m.actual_sample_rate == 0,
            m.lna_gain == DEFAULT_LNA_GAIN,
            m.vga_gain == DEFAULT_VGA_GAIN,
            !m.amp_enabled,
            !m.rx_enabled,
            !m.hw_streaming,
            m.bytes_since_last_poll == 0,
            m.last_poll_time == now,
            m.current_throughput_bps == 0,
            m.throughput_history@.len() == 0,
            m.sample_rate_history@.len() == 0,
            m.drops_per_sec == 0,
            m.total_drops_session == 0,
            m.drop_history@.len() == 0,
            m.callback_jitter_us == 0,
            forall|i: int| 0 <= i < 32 ==> m.iq_amplitude_hist@[i] == 0 && m.acc_iq_hist@[i] == 0,
            m.log@.len() == 0,
            m.acc_drops == 0 && m.acc_saturated == 0 && m.acc_sample_count == 0,
            m.acc_i_sum == 0 && m.acc_q_sum == 0 && m.acc_i_sq_sum == 0 && m.acc_q_sq_sum == 0,
            m.acc_jitter_sum_us == 0 && m.acc_jitter_count == 0,
            m.acc_last_callback_us.is_none(),
            m.input_mode == InputMode::Normal,
            m.input_buf@.len() == 0,
            !m.waterfall_paused && !m.spectrum_hold,
            m.focused_panel.is_none(),
            m.active_preset == 0,
            m.footer_visible,
            !m.show_help,
            bounded(&m),
    {
        SdrMetrics {
            frequency: DEFAULT_FREQUENCY,
            config_sample_rate_hz: DEFAULT_SAMPLE_RATE_HZ,
            actual_sample_rate: 0,
            lna_gain: DEFAULT_LNA_GAIN,
            vga_gain: DEFAULT_VGA_GAIN,
            amp_enabled: false,
            rx_enabled: false,
            hw_streaming: false,
            bytes_since_last_poll: 0,
            last_poll_time: now,
            current_throughput_bps: 0,
            throughput_history: VecDeque::with_capacity(THROUGHPUT_HISTORY_LEN),
            sample_rate_history: VecDeque::with_capacity(THROUGHPUT_HISTORY_LEN),
            drops_per_sec: 0,
            total_drops_session: 0,
            drop_history: VecDeque::with_capacity(THROUGHPUT_HISTORY_LEN),
            callback_jitter_us: 0,
            iq_amplitude_hist: [0u64; 32],
            log: VecDeque::new(),
            acc_drops: 0,
            acc_saturated: 0,
            acc_i_sum: 0,
            acc_q_sum: 0,
            acc_i_sq_sum: 0,
            acc_q_sq_sum: 0,
            acc_sample_count: 0,
            acc_jitter_sum_us: 0,
            acc_jitter_count: 0,
            acc_last_callback_us: None,
            acc_iq_hist: [0u64; 32],
            input_mode: InputMode::Normal,
            input_buf: Vec::new(),
            waterfall_paused: false,
            spectrum_hold: false,
            focused_panel: None,
            active_preset: 0,
            footer_visible: true,
            show_help: false,
        }
    }

    /// Appends a log message; a full log first drops its oldest message.
    pub fn push_log(&mut self, msg: &str)
        ensures
            bounded(&*old(self)) ==> bounded(&*final(self)),
            final(self).log@.len() > 0,
            final(self).log@ == bounded_push(old(self).log@, final(self).log@.last(), LOG_MAX_ENTRIES as nat),
            final(self).log@.last()@ == msg@,
            same_settings(&*final(self), &*old(self)),
            same_measurements(&*final(self), &*old(self)),
            same_counters(&*final(self), &*old(self)),
            final(self).rx_enabled == old(self).rx_enabled,
            display_of(&*final(self)) == display_of(&*old(self)),
            entry_of(&*final(self)) == entry_of(&*old(self)),
    {
        push_bounded(&mut self.log, String::from_str(msg), LOG_MAX_ENTRIES);
    }

    /// Restores the default gains, amplifier, frequency and sample rate, and
    /// logs that it did.
    pub fn reset_to_defaults(&mut self)
        ensures
            bounded(&*old(self)) ==> bounded(&*final(self)),
            final(self).lna_gain == DEFAULT_LNA_GAIN,
            final(self).vga_gain == DEFAULT_VGA_GAIN,
            !final(self).amp_enabled,
            final(self).frequency == DEFAULT_FREQUENCY,
            final(self).config_sample_rate_hz == DEFAULT_SAMPLE_RATE_HZ,
            final(self).log@ == bounded_push(old(self).log@, final(self).log@.last(), LOG_MAX_ENTRIES as nat),
            final(self).log@.last()@ == "Settings reset to defaults"@,
            final(self).rx_enabled == old(self).rx_enabled,
            same_measurements(&*final(self), &*old(self)),
            same_counters(&*final(self), &*old(self)),
            display_of(&*final(self)) == display_of(&*old(self)),
            entry_of(&*final(self)) == entry_of(&*old(self)),
    {
        self.lna_gain = DEFAULT_LNA_GAIN;
        self.vga_gain = DEFAULT_VGA_GAIN;
        self.amp_enabled = false;
        self.frequency = DEFAULT_FREQUENCY;
        self.config_sample_rate_hz = DEFAULT_SAMPLE_RATE_HZ;
        self.push_log("Settings reset to defaults");
    }

    /// Counts one receive transfer: its valid bytes towards throughput, the
    /// pairs the driver dropped (half the shortfall against the buffer), its
    /// sample statistics, and the gap since the previous callback (clock
    /// readings in microseconds; a clock running backwards counts as no gap).
    pub fn record_transfer(
        &mut self,
        buffer_length: i32,
        valid_length: i32,
        stats: TransferStats,
        now_us: u64,
    )
        requires
            valid_length >= 0,
            old(self).bytes_since_last_poll + valid_length <= u64::MAX,
            valid_length < buffer_length ==> buffer_length - valid_length <= i32::MAX,
            valid_length < buffer_length ==> old(self).acc_drops + (buffer_length - valid_length) / 2
                <= u64::MAX && old(self).total_drops_session + (buffer_length - valid_length) / 2
                <= u64::MAX,
            old(self).acc_saturated + stats.saturated <= u64::MAX,
            i64::MIN <= old(self).acc_i_sum + stats.i_sum <= i64::MAX,
            i64::MIN <= old(self).acc_q_sum + stats.q_sum <= i64::MAX,
            i64::MIN <= old(self).acc_i_sq_sum + stats.i_sq_sum <= i64::MAX,
            i64::MIN <= old(self).acc_q_sq_sum + stats.q_sq_sum <= i64::MAX,
            old(self).acc_sample_count + stats.pairs <= u64::MAX,
            old(self).acc_last_callback_us matches Some(last) ==> old(self).acc_jitter_sum_us
                + callback_gap(now_us, last) <= u64::MAX && old(self).acc_jitter_count + 1 <= u64::MAX,
        ensures
            bounded(&*old(self)) ==> bounded(&*final(self)),
            final(self).bytes_since_last_poll == old(self).bytes_since_last_poll + valid_length,
            ({
                let d: int = if valid_length < buffer_length { (buffer_length - valid_length) / 2 } else { 0 };
                &&& final(self).acc_drops == old(self).acc_drops + d
                &&& final(self).total_drops_session == old(self).total_drops_session + d
            }),
            final(self).acc_saturated == old(self).acc_saturated + stats.saturated,
            final(self).acc_i_sum == old(self).acc_i_sum + stats.i_sum,
            final(self).acc_q_sum == old(self).acc_q_sum + stats.q_sum,
            final(self).acc_i_sq_sum == old(self).acc_i_sq_sum + stats.i_sq_sum,
            final(self).acc_q_sq_sum == old(self).acc_q_sq_sum + stats.q_sq_sum,
            final(self).acc_sample_count == old(self).acc_sample_count + stats.pairs,
            match old(self).acc_last_callback_us {
                Some(last) => final(self).acc_jitter_sum_us == old(self).acc_jitter_sum_us + callback_gap(
                    now_us,
                    last,
                ) && final(self).acc_jitter_count == old(self).acc_jitter_count + 1,
                None => final(self).acc_jitter_sum_us == old(self).acc_jitter_sum_us
                    && final(self).acc_jitter_count == old(self).acc_jitter_count,
            },
            final(self).acc_last_callback_us == Some(now_us),
            final(self).acc_iq_hist@ == old(self).acc_iq_hist@,
            same_settings(&*final(self), &*old(self)),
            final(self).rx_enabled == old(self).rx_enabled,
            final(self).log == old(self).log,
            final(self).drops_per_sec == old(self).drops_per_sec,
            final(self).drop_history@ == old(self).drop_history@,
            final(self).throughput_history@ == old(self).throughput_history@,
            final(self).current_throughput_bps == old(self).current_throughput_bps,
    {
        self.bytes_since_last_poll = self.bytes_since_last_poll + valid_length as u64;
        let d = dropped_pairs(buffer_length, valid_length);
        if valid_length < buffer_length {
            self.acc_drops = self.acc_drops + d;
            self.total_drops_session = self.total_drops_session + d;
        }
        self.acc_saturated = self.acc_saturated + stats.saturated;
        self.acc_i_sum = self.acc_i_sum + stats.i_sum;
        self.acc_q_sum = self.acc_q_sum + stats.q_sum;
        self.acc_i_sq_sum = self.acc_i_sq_sum + stats.i_sq_sum;
        self.acc_q_sq_sum = self.acc_q_sq_sum + stats.q_sq_sum;
        self.acc_sample_count = self.acc_sample_count + stats.pairs;
        match self.acc_last_callback_us {
            Some(last) => {
                let gap = if now_us >= last { now_us - last } else { 0 };
                self.acc_jitter_sum_us = self.acc_jitter_sum_us + gap;
                self.acc_jitter_count = self.acc_jitter_count + 1;
            },
            None => {},
        }
        self.acc_last_callback_us = Some(now_us);
    }

    /// One poll of the stream, `elapsed_ms` after the previous one: takes
    /// the bytes counted since then, records the streaming flag and the poll
    /// time, and — when time has passed — the throughput (bytes per second),
    /// the sample rate it implies (two bytes per sample, truncated to 32
    /// bits) and the drop rate; a KiB/s and a sample-rate sample go into
    /// their bounded histories, and the drop rate into its history on every
    /// poll. The callback counters are handed back and cleared, the IQ
    /// histogram of the period becomes the shown one, and the mean callback
    /// gap is updated when there were gaps.
    pub fn poll_update(&mut self, now: Instant, elapsed_ms: u64, streaming: bool) -> (snap: PollSnapshot)
        requires
            old(self).bytes_since_last_poll * 1000 <= u64::MAX,
            old(self).acc_drops * 1000 <= u64::MAX,
        ensures
            bounded(&*old(self)) ==> bounded(&*final(self)),
            snap == (PollSnapshot {
                saturated: old(self).acc_saturated,
                i_sum: old(self).acc_i_sum,
                q_sum: old(self).acc_q_sum,
                i_sq_sum: old(self).acc_i_sq_sum,
                q_sq_sum: old(self).acc_q_sq_sum,
                samples: old(self).acc_sample_count,
            }),
            final(self).bytes_since_last_poll == 0,
            final(self).last_poll_time == now,
            final(self).hw_streaming == streaming,
            elapsed_ms > 0 ==> {
                let bps = (old(self).bytes_since_last_poll * 1000) / (elapsed_ms as int);
                let sr = (bps / 2) % 0x1_0000_0000;
                &&& final(self).current_throughput_bps == bps
                &&& final(self).actual_sample_rate == sr
                &&& final(self).throughput_history@ == bounded_push(
                    old(self).throughput_history@,
                    (bps / 1024) as u64,
                    THROUGHPUT_HISTORY_LEN as nat,
                )
                &&& final(self).sample_rate_history@ == bounded_push(
                    old(self).sample_rate_history@,
                    sr as u64,
                    THROUGHPUT_HISTORY_LEN as nat,
                )
                &&& final(self).drops_per_sec == (old(self).acc_drops * 1000) / (elapsed_ms as int)
            },
            elapsed_ms == 0 ==> {
                &&& final(self).current_throughput_bps == old(self).current_throughput_bps
                &&& final(self).actual_sample_rate == old(self).actual_sample_rate
                &&& final(self).throughput_history@ == old(self).throughput_history@
                &&& final(self).sample_rate_history@ == old(self).sample_rate_history@
                &&& final(self).drops_per_sec == old(self).drops_per_sec
            },
            final(self).drop_history@ == bounded_push(
                old(self).drop_history@,
                final(self).drops_per_sec,
                THROUGHPUT_HISTORY_LEN as nat,
            ),
            final(self).callback_jitter_us == (if old(self).acc_jitter_count > 0 {
                old(self).acc_jitter_sum_us / old(self).acc_jitter_count
            } else {
                old(self).callback_jitter_us
            }),
            final(self).iq_amplitude_hist@ == old(self).acc_iq_hist@,
            forall|i: int| 0 <= i < 32 ==> final(self).acc_iq_hist@[i] == 0,
            final(self).acc_drops == 0 && final(self).acc_saturated == 0,
            final(self).acc_i_sum == 0 && final(self).acc_q_sum == 0,
            final(self).acc_i_sq_sum == 0 && final(self).acc_q_sq_sum == 0,
            final(self).acc_sample_count == 0,
            final(self).acc_jitter_sum_us == 0 && final(self).acc_jitter_count == 0,
            final(self).acc_last_callback_us == old(self).acc_last_callback_us,
            final(self).total_drops_session == old(self).total_drops_session,
            same_settings(&*final(self), &*old(self)),
            final(self).rx_enabled == old(self).rx_enabled,
            final(self).log == old(self).log,
    {
        let bytes = self.bytes_since_last_poll;
        self.bytes_since_last_poll = 0;
        self.last_poll_time = now;
        self.hw_streaming = streaming;
        if elapsed_ms > 0 {
            let bps = (bytes * 1000) / elapsed_ms;
            self.current_throughput_bps = bps;
            let half: u64 = bps / 2;
            assert(half as u32 == half % 0x1_0000_0000) by (bit_vector);
            self.actual_sample_rate = half as u32;
            push_bounded(&mut self.throughput_history, bps / 1024, THROUGHPUT_HISTORY_LEN);
            push_bounded(&mut self.sample_rate_history, self.actual_sample_rate as u64, THROUGHPUT_HISTORY_LEN);
            self.drops_per_sec = (self.acc_drops * 1000) / elapsed_ms;
        }
        push_bounded(&mut self.drop_history, self.drops_per_sec, THROUGHPUT_HISTORY_LEN);
        let snap = PollSnapshot {
            saturated: self.acc_saturated,
            i_sum: self.acc_i_sum,
            q_sum: self.acc_q_sum,
            i_sq_sum: self.acc_i_sq_sum,
            q_sq_sum: self.acc_q_sq_sum,
            samples: self.acc_sample_count,
        };
        let jitter_sum = self.acc_jitter_sum_us;
        let jitter_count = self.acc_jitter_count;
        self.acc_drops = 0;
        self.acc_saturated = 0;
        self.acc_i_sum = 0;
        self.acc_q_sum = 0;
        self.acc_i_sq_sum = 0;
        self.acc_q_sq_sum = 0;
        self.acc_sample_count = 0;
        self.acc_jitter_sum_us = 0;
        self.acc_jitter_count = 0;
        self.iq_amplitude_hist = self.acc_iq_hist;
        self.acc_iq_hist = [0u64; 32];
        if jitter_count > 0 {
            self.callback_jitter_us = jitter_sum / jitter_count;
        }
        snap
    }

    /// Largest throughput sample in the history, at least 1 (the sparkline scale).
    pub fn throughput_peak(&self) -> (r: u64)
        ensures
            r >= 1,
            forall|i: int| 0 <= i < self.throughput_history@.len() ==> self.throughput_history@[i] <= r,
            r == 1 || exists|i: int|
                0 <= i < self.throughput_history@.len() && self.throughput_history@[i] == r,
    {
        let mut best: u64 = 1;
        let n = self.throughput_history.len();
        let mut i: usize = 0;
        while i < n
            invariant
                i <= n,
                n == self.throughput_history@.len(),
                best >= 1,
                forall|k: int| 0 <= k < i ==> self.throughput_history@[k] <= best,
                best == 1 || exists|k: int| 0 <= k < i && self.throughput_history@[k] == best,
            decreases n - i,
        {
            let x = self.throughput_history[i];
            if x > best {
                best = x;
            }
            i = i + 1;
        }
        best
    }
}

/// The stream was running but the hardware no longer reports streaming.
pub fn stream_lost(hw_rx_active: bool, streaming: bool) -> (r: bool)
    ensures
        r == (hw_rx_active && !streaming),
{
    hw_rx_active && !streaming
}

impl SdrMetrics {
    /// After the stream died on its own: the RX wish and the streaming flag
    /// are cleared and a warning is logged.
    pub fn note_stream_lost(&mut self)
        ensures
            bounded(&*old(self)) ==> bounded(&*final(self)),
            !final(self).rx_enabled,
            !final(self).hw_streaming,
            final(self).log@ == bounded_push(old(self).log@, final(self).log@.last(), LOG_MAX_ENTRIES as nat),
            final(self).log@.last()@ == "WARNING: Streaming stopped unexpectedly — press [Space] to restart"@,
            same_settings(&*final(self), &*old(self)),
            same_counters(&*final(self), &*old(self)),
    {
        self.rx_enabled = false;
        self.hw_streaming = false;
        self.push_log("WARNING: Streaming stopped unexpectedly — press [Space] to restart");
    }

    /// After starting the stream: logs success, or — with the driver's error
    /// text — clears the RX wish and logs the failure.
    pub fn note_rx_started(&mut self, error: Option<&str>)
        ensures
            bounded(&*old(self)) ==> bounded(&*final(self)),
            final(self).log@ == bounded_push(old(self).log@, final(self).log@.last(), LOG_MAX_ENTRIES as nat),
            match error {
                None => final(self).log@.last()@ == "RX streaming started"@ && final(self).rx_enabled
                    == old(self).rx_enabled,
                Some(e) => final(self).log@.last()@ == "Error starting RX: "@ + e@
                    && !final(self).rx_enabled,
            },
            same_settings(&*final(self), &*old(self)),
            same_measurements(&*final(self), &*old(self)),
            same_counters(&*final(self), &*old(self)),
    {
        match error {
            None => self.push_log("RX streaming started"),
            Some(e) => {
                let mut msg = String::from_str("Error starting RX: ");
                push_str(&mut msg, e);
                self.rx_enabled = false;
                self.push_log(msg.as_str());
            },
        }
    }

    /// After stopping the stream: logs success or the driver's error text.
    pub fn note_rx_stopped(&mut self, error: Option<&str>)
        ensures
            bounded(&*old(self)) ==> bounded(&*final(self)),
            final(self).log@ == bounded_push(old(self).log@, final(self).log@.last(), LOG_MAX_ENTRIES as nat),
            match error {
                None => final(self).log@.last()@ == "RX streaming stopped"@,
                Some(e) => final(self).log@.last()@ == "Error stopping RX: "@ + e@,
            },
            final(self).rx_enabled == old(self).rx_enabled,
            same_settings(&*final(self), &*old(self)),
            same_measurements(&*final(self), &*old(self)),
            same_counters(&*final(self), &*old(self)),
    {
        match error {
            None => self.push_log("RX streaming stopped"),
            Some(e) => {
                let mut msg = String::from_str("Error stopping RX: ");
                push_str(&mut msg, e);
                self.push_log(msg.as_str());
            },
        }
    }
}

/// What the poller should do with the receive stream.
#[derive(Clone, Copy, Debug, PartialEq, Eq, Structural)]
pub enum RxCommand {
    /// Start receiving (wanted, not running).
    Start,
    /// Stop receiving (running, no longer wanted).
    Stop,
    /// Leave the stream as it is.
    Keep,
}

/// Reconciles the user's RX wish with what the poller has started.
pub fn rx_command(rx_enabled: bool, hw_rx_active: bool) -> (r: RxCommand)
    ensures
        r == (if rx_enabled && !hw_rx_active {
            RxCommand::Start
        } else if !rx_enabled && hw_rx_active {
            RxCommand::Stop
        } else {
            RxCommand::Keep
        }),
{
    if rx_enabled && !hw_rx_active {
        RxCommand::Start
    } else if !rx_enabled && hw_rx_active {
        RxCommand::Stop
    } else {
        RxCommand::Keep
    }
}

/// Highest LNA gain, dB.
pub const LNA_GAIN_MAX: u32 = 40;
/// LNA gain change per key press, dB.
pub const LNA_GAIN_STEP: u32 = 8;
/// Highest VGA gain, dB.
pub const VGA_GAIN_MAX: u32 = 62;
/// VGA gain change per key press, dB.
pub const VGA_GAIN_STEP: u32 = 2;
/// Lowest frequency that can be entered, Hz.
pub const FREQ_MIN_HZ: u64 = 1_000_000;
/// Highest frequency that can be entered, Hz.
pub const FREQ_MAX_HZ: u64 = 7_250_000_000;
/// Lowest sample rate that can be entered, samples per second.
pub const SAMPLE_RATE_MIN_HZ: u64 = 2_000_000;
/// Highest sample rate that can be entered, samples per second.
pub const SAMPLE_RATE_MAX_HZ: u64 = 20_000_000;

/// A key press the main loop reacts to.
#[derive(Clone, Copy, Debug, PartialEq, Eq, Structural)]
pub enum Key {
    Char(char),
    Up,
    Down,
    Tab,
    Enter,
    Esc,
    Backspace,
    Other,
}

/// A hardware setting the main loop must apply after a key.
#[derive(Clone, Copy, Debug, PartialEq, Eq, Structural)]
pub enum HwAction {
    SetLnaGain(u32),
    SetVgaGain(u32),
    SetAmp(bool),
    SetFrequency(u64),
    SetSampleRate(u64),
    /// Apply every default setting.
    ResetAll,
}

/// What the main loop does after a key.
#[derive(Clone, Copy, Debug, PartialEq, Eq, Structural)]
pub enum KeyOutcome {
    Quit,
    Continue,
    Apply(HwAction),
}

/// The radio settings: frequency, sample rate, LNA gain, VGA gain, amplifier.
pub open spec fn settings_of(m: &SdrMetrics) -> (u64, u64, u32, u32, bool) {
    (m.frequency, m.config_sample_rate_hz, m.lna_gain, m.vga_gain, m.amp_enabled)
}

/// The display switches: waterfall paused, spectrum held, focused panel,
/// active preset, footer shown, help shown.
pub open spec fn display_of(m: &SdrMetrics) -> (bool, bool, Option<FocusPanel>, usize, bool, bool) {
    (m.waterfall_paused, m.spectrum_hold, m.focused_panel, m.active_preset, m.footer_visible, m.show_help)
}

/// The input mode and the text typed in it.
pub open spec fn entry_of(m: &SdrMetrics) -> (InputMode, Seq<char>) {
    (m.input_mode, m.input_buf@)
}

/// Everything the keyboard controls apart from the log: settings, RX wish,
/// display switches and text entry.
pub open spec fn controls_of(m: &SdrMetrics) -> (
    (u64, u64, u32, u32, bool),
    bool,
    (bool, bool, Option<FocusPanel>, usize, bool, bool),
    (InputMode, Seq<char>),
) {
    (settings_of(m), m.rx_enabled, display_of(m), entry_of(m))
}

/// `v` raised by `step`, capped at `max`.
pub open spec fn raised(v: u32, step: u32, max: u32) -> u32 {
    if v + step <= max {
        (v + step) as u32
    } else {
        max
    }
}

/// `v` lowered by `step`, stopping at zero.
pub open spec fn lowered(v: u32, step: u32) -> u32 {
    if v >= step {
        (v - step) as u32
    } else {
        0
    }
}

/// The preset a digit key selects (`1` is the first), for `1` to `5`.
pub open spec fn preset_key(c: char) -> Option<nat> {
    if '1' <= c && c <= '5' {
        Some(((c as u32) - 48) as nat)
    } else {
        None
    }
}

/// The value in Hz that typed MHz text denotes, when it lies in `lo..=hi`.
pub open spec fn entered_hz(typed: Seq<char>, lo: nat, hi: nat) -> Option<nat> {
    match mhz_hz(typed) {
        Some(v) => if lo <= v && v <= hi {
            Some(v)
        } else {
            None
        },
        None => None,
    }
}

/// What a key does outside text entry: the outcome and the controls after it.
pub open spec fn normal_effect(o: &SdrMetrics, key: Key, preset_count: usize) -> (
    KeyOutcome,
    ((u64, u64, u32, u32, bool), bool, (bool, bool, Option<FocusPanel>, usize, bool, bool), (InputMode, Seq<char>)),
) {
    let s = settings_of(o);
    let rx = o.rx_enabled;
    let d = display_of(o);
    let e = entry_of(o);
    match key {
        Key::Char('q') => (KeyOutcome::Quit, (s, rx, d, e)),
        Key::Char(' ') => (KeyOutcome::Continue, (s, !rx, d, e)),
        Key::Up => {
            let g = raised(o.lna_gain, LNA_GAIN_STEP, LNA_GAIN_MAX);
            (KeyOutcome::Apply(HwAction::SetLnaGain(g)), ((s.0, s.1, g, s.3, s.4), rx, d, e))
        },
        Key::Down => {
            let g = lowered(o.lna_gain, LNA_GAIN_STEP);
            (KeyOutcome::Apply(HwAction::SetLnaGain(g)), ((s.0, s.1, g, s.3, s.4), rx, d, e))
        },
        Key::Char(']') => {
            let g = raised(o.vga_gain, VGA_GAIN_STEP, VGA_GAIN_MAX);
            (KeyOutcome::Apply(HwAction::SetVgaGain(g)), ((s.0, s.1, s.2, g, s.4), rx, d, e))
        },
        Key::Char('[') => {
            let g = lowered(o.vga_gain, VGA_GAIN_STEP);
            (KeyOutcome::Apply(HwAction::SetVgaGain(g)), ((s.0, s.1, s.2, g, s.4), rx, d, e))
        },
        Key::Char('a') => (
            KeyOutcome::Apply(HwAction::SetAmp(!o.amp_enabled)),
            ((s.0, s.1, s.2, s.3, !o.amp_enabled), rx, d, e),
        ),
        Key::Char('f') => (KeyOutcome::Continue, (s, rx, d, (InputMode::FrequencyInput, Seq::empty()))),
        Key::Char('s') => (KeyOutcome::Continue, (s, rx, d, (InputMode::SampleRateInput, Seq::empty()))),
        Key::Char('r') => (
            KeyOutcome::Apply(HwAction::ResetAll),
            ((DEFAULT_FREQUENCY, DEFAULT_SAMPLE_RATE_HZ, DEFAULT_LNA_GAIN, DEFAULT_VGA_GAIN, false), rx, d, e),
        ),
        Key::Char('w') => (KeyOutcome::Continue, (s, rx, (!d.0, d.1, d.2, d.3, d.4, d.5), e)),
        Key::Char('h') => (KeyOutcome::Continue, (s, rx, (d.0, !d.1, d.2, d.3, d.4, d.5), e)),
        Key::Char('e') => (KeyOutcome::Continue, (s, rx, (d.0, d.1, Some(FocusPanel::Spectrum), d.3, d.4, d.5), e)),
        Key::Char('l') => (KeyOutcome::Continue, (s, rx, (d.0, d.1, Some(FocusPanel::Waterfall), d.3, d.4, d.5), e)),
        Key::Esc => (KeyOutcome::Continue, (s, rx, (d.0, d.1, None, d.3, d.4, d.5), e)),
        Key::Char('p') => {
            let next: usize = if d.3 + 1 < preset_count { (d.3 + 1) as usize } else { 0 };
            (KeyOutcome::Continue, (s, rx, (d.0, d.1, d.2, next, d.4, d.5), e))
        },
        Key::Tab => (KeyOutcome::Continue, (s, rx, (d.0, d.1, d.2, d.3, !d.4, d.5), e)),
        Key::Char('?') => (KeyOutcome::Continue, (s, rx, (d.0, d.1, d.2, d.3, d.4, !d.5), e)),
        Key::Char(c) => match preset_key(c) {
            Some(k) => if k <= preset_count {
                (KeyOutcome::Continue, (s, rx, (d.0, d.1, d.2, (k - 1) as usize, d.4, d.5), e))
            } else {
                (KeyOutcome::Continue, (s, rx, d, e))
            },
            None => (KeyOutcome::Continue, (s, rx, d, e)),
        },
        _ => (KeyOutcome::Continue, (s, rx, d, e)),
    }
}

/// What a key does while a value is being typed: digits and `.` are added,
/// Backspace removes the last character, Esc cancels, Enter applies the
/// value when it is in range; every exit returns to normal mode with the
/// text cleared.
pub open spec fn entry_effect(o: &SdrMetrics, key: Key) -> (
    KeyOutcome,
    ((u64, u64, u32, u32, bool), bool, (bool, bool, Option<FocusPanel>, usize, bool, bool), (InputMode, Seq<char>)),
) {
    let s = settings_of(o);
    let rx = o.rx_enabled;
    let d = display_of(o);
    let e = entry_of(o);
    let done = (InputMode::Normal, Seq::<char>::empty());
    match key {
        Key::Char(c) => if is_digit(c) || c == '.' {
            (KeyOutcome::Continue, (s, rx, d, (e.0, e.1.push(c))))
        } else {
            (KeyOutcome::Continue, (s, rx, d, e))
        },
        Key::Backspace => if e.1.len() > 0 {
            (KeyOutcome::Continue, (s, rx, d, (e.0, e.1.drop_last())))
        } else {
            (KeyOutcome::Continue, (s, rx, d, e))
        },
        Key::Esc => (KeyOutcome::Continue, (s, rx, d, done)),
        Key::Enter => match o.input_mode {
            InputMode::FrequencyInput => match entered_hz(e.1, FREQ_MIN_HZ as nat, FREQ_MAX_HZ as nat) {
                Some(v) => (
                    KeyOutcome::Apply(HwAction::SetFrequency(v as u64)),
                    ((v as u64, s.1, s.2, s.3, s.4), rx, d, done),
                ),
                None => (KeyOutcome::Continue, (s, rx, d, done)),
            },
            InputMode::SampleRateInput => match entered_hz(e.1, SAMPLE_RATE_MIN_HZ as nat, SAMPLE_RATE_MAX_HZ as nat) {
                Some(v) => (
                    KeyOutcome::Apply(HwAction::SetSampleRate(v as u64)),
                    ((s.0, v as u64, s.2, s.3, s.4), rx, d, done),
                ),
                None => (KeyOutcome::Continue, (s, rx, d, done)),
            },
            _ => (KeyOutcome::Continue, (s, rx, d, done)),
        },
        _ => (KeyOutcome::Continue, (s, rx, d, e)),
    }
}

/// What a key does, in whichever mode the keyboard is.
pub open spec fn key_effect(o: &SdrMetrics, key: Key, preset_count: usize) -> (
    KeyOutcome,
    ((u64, u64, u32, u32, bool), bool, (bool, bool, Option<FocusPanel>, usize, bool, bool), (InputMode, Seq<char>)),
) {
    if o.input_mode == InputMode::Normal {
        normal_effect(o, key, preset_count)
    } else {
        entry_effect(o, key)
    }
}

/// The message a key logs, if any: the reset notice, or the result of
/// entering a frequency or a sample rate.
pub open spec fn key_message(o: &SdrMetrics, key: Key) -> Option<Seq<char>> {
    if o.input_mode == InputMode::Normal {
        if key == Key::Char('r') {
            Some("Settings reset to defaults"@)
        } else {
            None
        }
    } else if key == Key::Enter {
        match o.input_mode {
            InputMode::FrequencyInput => Some(
                match entered_hz(o.input_buf@, FREQ_MIN_HZ as nat, FREQ_MAX_HZ as nat) {
                    Some(v) => "Frequency set to "@ + mhz_text(v) + " MHz"@,
                    None => "Invalid frequency: must be 1–7250 MHz"@,
                },
            ),
            InputMode::SampleRateInput => Some(
                match entered_hz(o.input_buf@, SAMPLE_RATE_MIN_HZ as nat, SAMPLE_RATE_MAX_HZ as nat) {
                    Some(v) => "Sample rate set to "@ + mhz_text(v) + " MHz"@,
                    None => "Invalid sample rate: must be 2–20 MHz"@,
                },
            ),
            _ => None,
        }
    } else {
        None
    }
}

/// The log after a key: one message more (the oldest dropped from a full
/// log) when the key logs one, otherwise unchanged.
pub open spec fn logged(o: Seq<String>, f: Seq<String>, msg: Option<Seq<char>>) -> bool {
    match msg {
        Some(m) => f == bounded_push(o, f.last(), LOG_MAX_ENTRIES as nat) && f.last()@ == m,
        None => f == o,
    }
}

/// Reads typed MHz text as Hz when it is well formed and within `lo..=hi`.
fn read_entry(typed: &Vec<char>, lo: u64, hi: u64) -> (r: Option<u64>)
    requires
        hi <= 1_000_000_000_000_000,
    ensures
        r matches Some(v) ==> entered_hz(typed@, lo as nat, hi as nat) == Some(v as nat),
        r is None ==> entered_hz(typed@, lo as nat, hi as nat) is None,
{
    match parse_mhz_hz(typed, hi) {
        Some(v) => if v >= lo {
            Some(v)
        } else {
            None
        },
        None => None,
    }
}

/// `prefix`, the value in MHz, then ` MHz`.
fn mhz_message(prefix: &str, hz: u64) -> (r: String)
    ensures
        r@ == prefix@ + mhz_text(hz as nat) + " MHz"@,
{
    let mut msg = String::from_str(prefix);
    push_mhz(&mut msg, hz);
    push_str(&mut msg, " MHz");
    msg
}

impl SdrMetrics {
    /// Handles one key press and says what the main loop must do next.
    pub fn handle_key(&mut self, key: Key, preset_count: usize) -> (r: KeyOutcome)
        ensures
            bounded(&*old(self)) ==> bounded(&*final(self)),
            (r, controls_of(&*final(self))) == key_effect(&*old(self), key, preset_count),
            logged(old(self).log@, final(self).log@, key_message(&*old(self), key)),
            same_measurements(&*final(self), &*old(self)),
            same_counters(&*final(self), &*old(self)),
    {
        match self.input_mode {
            InputMode::Normal => self.normal_key(key, preset_count),
            _ => self.entry_key(key),
        }
    }

    fn normal_key(&mut self, key: Key, preset_count: usize) -> (r: KeyOutcome)
        requires
            old(self).input_mode == InputMode::Normal,
        ensures
            bounded(&*old(self)) ==> bounded(&*final(self)),
            (r, controls_of(&*final(self))) == normal_effect(&*old(self), key, preset_count),
            logged(old(self).log@, final(self).log@, key_message(&*old(self), key)),
            same_measurements(&*final(self), &*old(self)),
            same_counters(&*final(self), &*old(self)),
    {
        match key {
            Key::Char('q') => KeyOutcome::Quit,
            Key::Char(' ') => {
                self.rx_enabled = !self.rx_enabled;
                KeyOutcome::Continue
            },
            Key::Up => {
                let g = if self.lna_gain <= LNA_GAIN_MAX - LNA_GAIN_STEP {
                    self.lna_gain + LNA_GAIN_STEP
                } else {
                    LNA_GAIN_MAX
                };
                self.lna_gain = g;
                KeyOutcome::Apply(HwAction::SetLnaGain(g))
            },
            Key::Down => {
                let g = if self.lna_gain >= LNA_GAIN_STEP { self.lna_gain - LNA_GAIN_STEP } else { 0 };
                self.lna_gain = g;
                KeyOutcome::Apply(HwAction::SetLnaGain(g))
            },
            Key::Char(']') => {
                let g = if self.vga_gain <= VGA_GAIN_MAX - VGA_GAIN_STEP {
                    self.vga_gain + VGA_GAIN_STEP
                } else {
                    VGA_GAIN_MAX
                };
                self.vga_gain = g;
                KeyOutcome::Apply(HwAction::SetVgaGain(g))
            },
            Key::Char('[') => {
                let g = if self.vga_gain >= VGA_GAIN_STEP { self.vga_gain - VGA_GAIN_STEP } else { 0 };
                self.vga_gain = g;
                KeyOutcome::Apply(HwAction::SetVgaGain(g))
            },
            Key::Char('a') => {
                self.amp_enabled = !self.amp_enabled;
                KeyOutcome::Apply(HwAction::SetAmp(self.amp_enabled))
            },
            Key::Char('f') => {
                self.input_mode = InputMode::FrequencyInput;
                self.input_buf = Vec::new();
                KeyOutcome::Continue
            },
            Key::Char('s') => {
                self.input_mode = InputMode::SampleRateInput;
                self.input_buf = Vec::new();
                KeyOutcome::Continue
            },
            Key::Char('r') => {
                self.reset_to_defaults();
                KeyOutcome::Apply(HwAction::ResetAll)
            },
            Key::Char('w') => {
                self.waterfall_paused = !self.waterfall_paused;
                KeyOutcome::Continue
            },
            Key::Char('h') => {
                self.spectrum_hold = !self.spectrum_hold;
                KeyOutcome::Continue
            },
            Key::Char('e') => {
                self.focused_panel = Some(FocusPanel::Spectrum);
                KeyOutcome::Continue
            },
            Key::Char('l') => {
                self.focused_panel = Some(FocusPanel::Waterfall);
                KeyOutcome::Continue
            },
            Key::Esc => {
                self.focused_panel = None;
                KeyOutcome::Continue
            },
            Key::Char('p') => {
                self.active_preset = if preset_count > 0 && self.active_preset < preset_count - 1 {
                    self.active_preset + 1
                } else {
                    0
                };
                KeyOutcome::Continue
            },
            Key::Tab => {
                self.footer_visible = !self.footer_visible;
                KeyOutcome::Continue
            },
            Key::Char('?') => {
                self.show_help = !self.show_help;
                KeyOutcome::Continue
            },
            Key::Char(c) => {
                if '1' <= c && c <= '5' {
                    let k = (c as u32 - 48) as usize;
                    if k <= preset_count {
                        self.active_preset = k - 1;
                    }
                }
                KeyOutcome::Continue
            },
            _ => KeyOutcome::Continue,
        }
    }

    fn entry_key(&mut self, key: Key) -> (r: KeyOutcome)
        requires
            old(self).input_mode != InputMode::Normal,
        ensures
            bounded(&*old(self)) ==> bounded(&*final(self)),
            (r, controls_of(&*final(self))) == entry_effect(&*old(self), key),
            logged(old(self).log@, final(self).log@, key_message(&*old(self), key)),
            same_measurements(&*final(self), &*old(self)),
            same_counters(&*final(self), &*old(self)),
    {
        match key {
            Key::Char(c) => {
                if ('0' <= c && c <= '9') || c == '.' {
                    self.input_buf.push(c);
                }
                KeyOutcome::Continue
            },
            Key::Backspace => {
                self.input_buf.pop();
                KeyOutcome::Continue
            },
            Key::Esc => {
                self.input_mode = InputMode::Normal;
                self.input_buf = Vec::new();
                KeyOutcome::Continue
            },
            Key::Enter => {
                let mode = self.input_mode;
                let freq = read_entry(&self.input_buf, FREQ_MIN_HZ, FREQ_MAX_HZ);
                let rate = read_entry(&self.input_buf, SAMPLE_RATE_MIN_HZ, SAMPLE_RATE_MAX_HZ);
                self.input_mode = InputMode::Normal;
                self.input_buf = Vec::new();
                match mode {
                    InputMode::FrequencyInput => match freq {
                        Some(v) => {
                            self.frequency = v;
                            let msg = mhz_message("Frequency set to ", v);
                            self.push_log(msg.as_str());
                            KeyOutcome::Apply(HwAction::SetFrequency(v))
                        },
                        None => {
                            self.push_log("Invalid frequency: must be 1–7250 MHz");
                            KeyOutcome::Continue
                        },
                    },
                    InputMode::SampleRateInput => match rate {
                        Some(v) => {
                            self.config_sample_rate_hz = v;
                            let msg = mhz_message("Sample rate set to ", v);
                            self.push_log(msg.as_str());
                            KeyOutcome::Apply(HwAction::SetSampleRate(v))
                        },
                        None => {
                            self.push_log("Invalid sample rate: must be 2–20 MHz");
                            KeyOutcome::Continue
                        },
                    },
                    _ => KeyOutcome::Continue,
                }
            },
            _ => KeyOutcome::Continue,
        }
    }
}

/// Typed sample rates are applied only from 2 to 20 MHz: Enter applies
/// exactly the typed value (in Hz) when it lies there, and any other text
/// leaves the rate as it was and logs the refusal. Either way the frequency
/// stays and the keyboard returns to normal mode with the text cleared.
pub proof fn lemma_sample_rate_entry(o: SdrMetrics, n: usize)
    requires
        o.input_mode == InputMode::SampleRateInput,
    ensures
        ({
            let (r, c) = key_effect(&o, Key::Enter, n);
            let ok = mhz_hz(o.input_buf@) matches Some(v) && 2_000_000 <= v && v <= 20_000_000;
            &&& r matches KeyOutcome::Apply(a) ==> a matches HwAction::SetSampleRate(v) && 2_000_000 <= v
                && v <= 20_000_000 && mhz_hz(o.input_buf@) == Some(v as nat) && c.0.1 == v
            &&& ok ==> r == KeyOutcome::Apply(HwAction::SetSampleRate(mhz_hz(o.input_buf@).unwrap() as u64))
                && c.0.1 == mhz_hz(o.input_buf@).unwrap() && key_message(&o, Key::Enter) == Some(
                "Sample rate set to "@ + mhz_text(mhz_hz(o.input_buf@).unwrap()) + " MHz"@)
            &&& !ok ==> r == KeyOutcome::Continue && c.0.1 == o.config_sample_rate_hz && key_message(
                &o,
                Key::Enter,
            ) == Some("Invalid sample rate: must be 2–20 MHz"@)
            &&& c.0.0 == o.frequency && c.0.2 == o.lna_gain && c.0.3 == o.vga_gain && c.0.4 == o.amp_enabled
            &&& c.3 == (InputMode::Normal, Seq::<char>::empty())
        }),
{
}

/// Typed frequencies are applied only from 1 to 7250 MHz: Enter tunes to
/// exactly the typed value (in Hz) when it lies there, and any other text
/// leaves the frequency as it was and logs the refusal. Either way the
/// sample rate stays and the keyboard returns to normal mode.
pub proof fn lemma_frequency_entry(o: SdrMetrics, n: usize)
    requires
        o.input_mode == InputMode::FrequencyInput,
    ensures
        ({
            let (r, c) = key_effect(&o, Key::Enter, n);
            let ok = mhz_hz(o.input_buf@) matches Some(v) && 1_000_000 <= v && v <= 7_250_000_000;
            &&& r matches KeyOutcome::Apply(a) ==> a matches HwAction::SetFrequency(v) && 1_000_000 <= v
                && v <= 7_250_000_000 && mhz_hz(o.input_buf@) == Some(v as nat) && c.0.0 == v
            &&& ok ==> r == KeyOutcome::Apply(HwAction::SetFrequency(mhz_hz(o.input_buf@).unwrap() as u64))
                && c.0.0 == mhz_hz(o.input_buf@).unwrap() && key_message(&o, Key::Enter) == Some(
                "Frequency set to "@ + mhz_text(mhz_hz(o.input_buf@).unwrap()) + " MHz"@)
            &&& !ok ==> r == KeyOutcome::Continue && c.0.0 == o.frequency && key_message(&o, Key::Enter)
                == Some("Invalid frequency: must be 1–7250 MHz"@)
            &&& c.0.1 == o.config_sample_rate_hz && c.0.2 == o.lna_gain && c.0.3 == o.vga_gain
            &&& c.3 == (InputMode::Normal, Seq::<char>::empty())
        }),
{
}

/// While a value is typed, keys never touch the radio: only Enter can change
/// a setting (frequency or sample rate), Esc drops the text and returns to
/// normal mode, and no other key quits or changes a gain, the amplifier or
/// the RX wish.
pub proof fn lemma_typing_is_inert(o: SdrMetrics, key: Key, n: usize)
    requires
        o.input_mode != InputMode::Normal,
    ensures
        ({
            let (r, c) = key_effect(&o, key, n);
            &&& r != KeyOutcome::Quit
            &&& c.1 == o.rx_enabled && c.0.2 == o.lna_gain && c.0.3 == o.vga_gain && c.0.4 == o.amp_enabled
            &&& c.2 == display_of(&o)
            &&& key != Key::Enter ==> r == KeyOutcome::Continue && c.0 == settings_of(&o)
                && key_message(&o, key).is_none()
            &&& key == Key::Esc ==> c.3 == (InputMode::Normal, Seq::<char>::empty())
        }),
{
}

/// The key map outside text entry: `q` quits and changes nothing; Space
/// flips the RX wish only; the arrows move the LNA gain by 8 dB within
/// 0–40 and the brackets the VGA gain by 2 dB within 0–62, each sent to the
/// hardware; `a` flips the amplifier; `r` restores 2.4 GHz, 10 Msps, LNA 16,
/// VGA 20 and the amplifier off, keeping the RX wish, and logs it; `f` and
/// `s` open an empty frequency or sample-rate entry.
pub proof fn lemma_key_map(o: SdrMetrics, n: usize)
    requires
        o.input_mode == InputMode::Normal,
    ensures
        key_effect(&o, Key::Char('q'), n) == (KeyOutcome::Quit, controls_of(&o)),
        key_effect(&o, Key::Char(' '), n) == (
            KeyOutcome::Continue,
            (settings_of(&o), !o.rx_enabled, display_of(&o), entry_of(&o)),
        ),
        ({
            let (r, c) = key_effect(&o, Key::Up, n);
            &&& o.lna_gain <= 32 ==> c.0.2 == o.lna_gain + 8
            &&& o.lna_gain > 32 ==> c.0.2 == 40
            &&& r == KeyOutcome::Apply(HwAction::SetLnaGain(c.0.2))
            &&& c.0.0 == o.frequency && c.0.1 == o.config_sample_rate_hz && c.0.3 == o.vga_gain
        }),
        ({
            let (r, c) = key_effect(&o, Key::Down, n);
            &&& o.lna_gain >= 8 ==> c.0.2 == o.lna_gain - 8
            &&& o.lna_gain < 8 ==> c.0.2 == 0
            &&& r == KeyOutcome::Apply(HwAction::SetLnaGain(c.0.2))
            &&& c.0.3 == o.vga_gain
        }),
        ({
            let (r, c) = key_effect(&o, Key::Char(']'), n);
            &&& o.vga_gain <= 60 ==> c.0.3 == o.vga_gain + 2
            &&& o.vga_gain > 60 ==> c.0.3 == 62
            &&& r == KeyOutcome::Apply(HwAction::SetVgaGain(c.0.3))
            &&& c.0.2 == o.lna_gain
        }),
        ({
            let (r, c) = key_effect(&o, Key::Char('['), n);
            &&& o.vga_gain >= 2 ==> c.0.3 == o.vga_gain - 2
            &&& o.vga_gain < 2 ==> c.0.3 == 0
            &&& r == KeyOutcome::Apply(HwAction::SetVgaGain(c.0.3))
            &&& c.0.2 == o.lna_gain
        }),
        ({
            let (r, c) = key_effect(&o, Key::Char('a'), n);
            &&& c.0.4 == !o.amp_enabled && c.0.2 == o.lna_gain && c.0.3 == o.vga_gain
            &&& r == KeyOutcome::Apply(HwAction::SetAmp(!o.amp_enabled))
        }),
        ({
            let (r, c) = key_effect(&o, Key::Char('r'), n);
            &&& r == KeyOutcome::Apply(HwAction::ResetAll)
            &&& c.0 == (2_400_000_000u64, 10_000_000u64, 16u32, 20u32, false)
            &&& c.1 == o.rx_enabled
            &&& key_message(&o, Key::Char('r')) == Some("Settings reset to defaults"@)
        }),
        key_effect(&o, Key::Char('f'), n).1.3 == (InputMode::FrequencyInput, Seq::<char>::empty()),
        key_effect(&o, Key::Char('s'), n).1.3 == (InputMode::SampleRateInput, Seq::<char>::empty()),
        key_effect(&o, Key::Char('f'), n).1.0 == settings_of(&o),
        key_effect(&o, Key::Char('s'), n).1.0 == settings_of(&o),
{
}

} // verus!
