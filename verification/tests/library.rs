use std::time::{Duration, Instant};

use sdrtop::dsp::noise_floor_count;
use sdrtop::hardware::device::{
    device_selection, format_serial, transfer_stats, OpenError, Selection,
};
use sdrtop::history::push_bounded;
use sdrtop::palette::ColorDepth;
use sdrtop::parse::{
    find_with_prefix, parse_u64, parse_usize, split_lines, starts_with_chars, trim_chars,
};
use sdrtop::state::{
    rx_command, stream_lost, HwAction, PollSnapshot, Key, KeyOutcome, RxCommand, SdrMetrics, DEFAULT_FREQUENCY, DEFAULT_LNA_GAIN,
    DEFAULT_SAMPLE_RATE_HZ, DEFAULT_VGA_GAIN, THROUGHPUT_HISTORY_LEN,
};
use sdrtop::tasks::{parse_stat_ticks, parse_status_rss_kb};
use sdrtop::text::{div_round_half_even, div_round_half_up, push_fixed, repeat_string, str_eq};
use sdrtop::theme::parse_hex;
use sdrtop::ui::device_selector::{selector_step, SelectorKey, SelectorStep};
use sdrtop::ui::header::{active_digit_idx, leader_text, pulse_glyph, rx_pulse_glyph, separator_fills};
use sdrtop::ui::lab_chrome::banner_layout;
use sdrtop::ui::micro_common::{drop_severity, Severity};
use sdrtop::ui::observer::cmdline_line;
use sdrtop::ui::rf_calc::adc_util_counts;
use sdrtop::ui::timing_diagnostics::{fmt_us, section_gap};
use sdrtop::ui::waterfall::{column_bins, WaterfallPanel};

fn chars(s: &str) -> Vec<char> {
    s.chars().collect()
}

#[test]
fn hex_colour_round_trip() {
    for (r, g, b) in [(0u8, 0u8, 0u8), (255, 255, 255), (0, 215, 255), (136, 192, 208), (7, 54, 66)] {
        let text = format!("#{:02x}{:02x}{:02x}", r, g, b);
        assert_eq!(parse_hex(&text), Some((r, g, b)), "{text}");
    }
}

#[test]
fn cmdline_always_fits_the_panel() {
    for w in [5u16, 6, 10, 40] {
        for s in ["", "x", "gqrx --rate 2000000", "ééééééééééééé", "a€b€c€d€e€"] {
            let line = cmdline_line(s, w);
            assert!(line.chars().count() <= (w - 2) as usize, "{s:?} at {w}: {line:?}");
        }
    }
}

#[test]
fn picker_highlight_stays_on_a_device() {
    let keys = [SelectorKey::Up, SelectorKey::Down, SelectorKey::Enter, SelectorKey::Quit, SelectorKey::Other];
    for count in 1..5usize {
        for sel in (0..count).map(Some).chain([None]) {
            for k in keys {
                match selector_step(sel, count, k) {
                    SelectorStep::Select(i) => assert!(i < count),
                    SelectorStep::Done(Some(i)) => assert!(i < count),
                    _ => {}
                }
            }
        }
    }
}

#[test]
fn banner_fills_the_line() {
    for iw in [20usize, 40, 60, 100] {
        let (lw, rw) = (18usize, 6usize);
        let widths = [14usize, 8, 9, 7];
        let l = banner_layout(iw, lw, rw, &widths);
        let used: usize = widths.iter().zip(l.shown.iter()).filter(|(_, s)| **s).map(|(w, _)| *w).sum();
        let rw_eff = if l.show_right { rw } else { 0 };
        assert_eq!(lw + used + l.filler + rw_eff, iw, "iw={iw}");
    }
    let l = banner_layout(40, 18, 6, &[14, 8, 9, 7]);
    assert!(l.show_right);
    assert_eq!(l.shown, vec![true, false, false, false]);
    assert_eq!(l.filler, 2);
}

#[test]
fn waterfall_columns_tile_the_row() {
    let (cols, n) = (7usize, 20usize);
    let mut prev_end = 0;
    for col in 0..cols {
        let (s, e) = column_bins(col, cols, n);
        assert_eq!(s, prev_end);
        assert!(s < e);
        prev_end = e;
    }
    assert_eq!(prev_end, n);
    assert_eq!(column_bins(3, 10, 4), (1, 2));
    assert_eq!(WaterfallPanel::new(ColorDepth::Color256).color_depth, ColorDepth::Color256);
}

#[test]
fn colour_depth_from_environment() {
    assert_eq!(ColorDepth::from_env_values("TrueColor", ""), ColorDepth::TrueColor);
    assert_eq!(ColorDepth::from_env_values("24bit", "xterm"), ColorDepth::TrueColor);
    assert_eq!(ColorDepth::from_env_values("", "xterm-256color"), ColorDepth::Color256);
    assert_eq!(ColorDepth::from_env_values("yes", "xterm"), ColorDepth::Color16);
}

#[test]
fn transfer_statistics() {
    let buf = [0x7Fu8, 0x80, 0x01, 0xFF, 0x05];
    let st = transfer_stats(&buf);
    assert_eq!(st.pairs, 2);
    assert_eq!(st.saturated, 2);
    assert_eq!(st.i_sum, 127 + 1);
    assert_eq!(st.q_sum, -128 - 1);
    assert_eq!(st.i_sq_sum, 127 * 127 + 1);
    assert_eq!(st.q_sq_sum, 128 * 128 + 1);
}

#[test]
fn device_list_outcomes() {
    assert_eq!(device_selection(0, 0), Selection::Fail(OpenError::NoDevice));
    assert_eq!(device_selection(1, 0), Selection::Use(0));
    assert_eq!(device_selection(2, 0), Selection::Fail(OpenError::NoValidSerials));
    assert_eq!(device_selection(3, 2), Selection::Ask);
}

#[test]
fn serial_number_hex() {
    assert_eq!(
        format_serial(&[0, 0, 0x457863dc, 0x2f2b2f5f]),
        "0000000000000000457863dc2f2b2f5f"
    );
}

#[test]
fn poll_measures_throughput() {
    let t0 = Instant::now();
    let mut m = SdrMetrics::new(t0);
    assert_eq!(m.frequency, DEFAULT_FREQUENCY);
    assert_eq!(m.throughput_peak(), 1);
    m.bytes_since_last_poll = 4_000_000;
    let t1 = t0 + Duration::from_millis(200);
    m.poll_update(t1, 200, true);
    assert_eq!(m.current_throughput_bps, 20_000_000);
    assert_eq!(m.actual_sample_rate, 10_000_000);
    assert_eq!(m.bytes_since_last_poll, 0);
    assert!(m.hw_streaming);
    assert_eq!(m.throughput_history.back(), Some(&(20_000_000 / 1024)));
    assert_eq!(m.throughput_peak(), 20_000_000 / 1024);
    m.poll_update(t1, 0, false);
    assert_eq!(m.current_throughput_bps, 20_000_000);
    assert_eq!(m.throughput_history.len(), 1);
}

#[test]
fn throughput_history_is_bounded() {
    let t0 = Instant::now();
    let mut m = SdrMetrics::new(t0);
    for i in 0..(THROUGHPUT_HISTORY_LEN as u64 + 10) {
        m.bytes_since_last_poll = i * 1024;
        m.poll_update(t0, 1000, true);
    }
    assert_eq!(m.throughput_history.len(), THROUGHPUT_HISTORY_LEN);
    assert_eq!(m.throughput_history.back(), Some(&(THROUGHPUT_HISTORY_LEN as u64 + 9)));
    assert_eq!(m.throughput_history.front(), Some(&10));
}

#[test]
fn keys_drive_the_monitor() {
    let mut m = SdrMetrics::new(Instant::now());
    m.lna_gain = 40;
    m.amp_enabled = true;
    assert_eq!(m.handle_key(Key::Char(' '), 5), KeyOutcome::Continue);
    assert!(m.rx_enabled);
    assert_eq!(m.handle_key(Key::Char(' '), 5), KeyOutcome::Continue);
    assert!(!m.rx_enabled);
    assert_eq!(m.handle_key(Key::Char('r'), 5), KeyOutcome::Apply(HwAction::ResetAll));
    assert_eq!(m.lna_gain, DEFAULT_LNA_GAIN);
    assert_eq!(m.vga_gain, DEFAULT_VGA_GAIN);
    assert!(!m.amp_enabled);
    assert_eq!(m.config_sample_rate_hz, DEFAULT_SAMPLE_RATE_HZ);
    assert_eq!(m.log.back().map(|s| s.as_str()), Some("Settings reset to defaults"));
    assert_eq!(m.handle_key(Key::Other, 5), KeyOutcome::Continue);
    assert_eq!(m.handle_key(Key::Char('q'), 5), KeyOutcome::Quit);
}

#[test]
fn rx_stream_reconciliation() {
    assert_eq!(rx_command(true, false), RxCommand::Start);
    assert_eq!(rx_command(false, true), RxCommand::Stop);
    assert_eq!(rx_command(true, true), RxCommand::Keep);
    assert_eq!(rx_command(false, false), RxCommand::Keep);
}

#[test]
fn bounded_queue_keeps_newest() {
    let mut q = std::collections::VecDeque::new();
    for i in 0..5 {
        push_bounded(&mut q, i, 3);
    }
    assert_eq!(q, [2, 3, 4]);
}

#[test]
fn decimal_parsing() {
    assert_eq!(parse_u64(&chars("18446744073709551615")), Some(u64::MAX));
    assert_eq!(parse_u64(&chars("18446744073709551616")), None);
    assert_eq!(parse_u64(&chars("+7")), Some(7));
    assert_eq!(parse_u64(&chars("+")), None);
    assert_eq!(parse_u64(&chars("1 2")), None);
    assert_eq!(parse_usize(&chars("42")), Some(42));
    assert_eq!(trim_chars(&chars("\t a b \n")), chars("a b"));
    assert_eq!(
        split_lines(&chars("a\r\nb\n\nc")),
        vec![chars("a"), chars("b"), chars(""), chars("c")]
    );
    assert_eq!(split_lines(&chars("x\n")), vec![chars("x")]);
    assert!(starts_with_chars(&chars("VmRSS: 1"), &chars("VmRSS:")));
    assert!(!starts_with_chars(&chars("Vm"), &chars("VmRSS:")));
    let ls = vec![chars("VmPeak: 9"), chars("VmRSS: 5"), chars("VmRSS: 6")];
    assert_eq!(find_with_prefix(&ls, &chars("VmRSS:")), Some(chars("VmRSS: 5")));
    assert!(str_eq("nord", "nord") && !str_eq("nord", "nor"));
}

#[test]
fn proc_texts() {
    assert_eq!(parse_stat_ticks("9 (a) R 1 1 1 0 -1 0 0 0 0 0 5 6 0"), Some((5, 6)));
    assert_eq!(parse_stat_ticks("9 (a) R 1 1 1 0 -1 0 0 0 0 0 5 x"), None);
    assert_eq!(parse_status_rss_kb("VmRSS:\t  1536 kB\n"), Some(1536));
    assert_eq!(parse_status_rss_kb("VmHWM: 1\n"), None);
}

#[test]
fn rounding_helpers() {
    assert_eq!(div_round_half_even(25, 10), 2);
    assert_eq!(div_round_half_even(35, 10), 4);
    assert_eq!(div_round_half_up(25, 10), 3);
    assert_eq!(div_round_half_up(24, 10), 2);
    let mut s = String::new();
    push_fixed(&mut s, 433920, 3);
    assert_eq!(s, "433.920");
    assert_eq!(repeat_string('─', 3), "───");
}

#[test]
fn header_glyphs_and_fills() {
    assert_eq!(leader_text(6), " ···· ");
    assert_eq!(leader_text(3), "   ");
    assert_eq!(pulse_glyph(0), "\u{2219}");
    assert_eq!(pulse_glyph(220), "\u{2022}");
    assert_eq!(pulse_glyph(440), "\u{25CF}");
    assert_eq!(pulse_glyph(660 + 880), "\u{2022}");
    assert!(["\u{2219}", "\u{2022}", "\u{25CF}"].contains(&rx_pulse_glyph()));
    assert_eq!(separator_fills(40), (13, 14));
    assert_eq!(separator_fills(10), (0, 0));
    assert_eq!(active_digit_idx(145_500_000, 1_000_000), Some(2));
    assert_eq!(active_digit_idx(145_500_000, 100_000_000), Some(0));
    assert_eq!(active_digit_idx(145_500_000, 1_000_000_000), None);
    assert_eq!(active_digit_idx(145_500_000, 1_000), Some(6));
}

#[test]
fn timing_helpers() {
    assert_eq!(fmt_us(603), "603 µs");
    assert_eq!(section_gap(40, 15, 9), 15);
    assert_eq!(section_gap(10, 15, 9), 1);
    assert_eq!(drop_severity(0), Severity::Good);
    assert_eq!(drop_severity(9), Severity::Warn);
    assert_eq!(drop_severity(10), Severity::Crit);
    assert_eq!(noise_floor_count(2048), 204);
    assert_eq!(noise_floor_count(5), 1);
}

#[test]
fn adc_mid_range_counts() {
    let mut h = [0u64; 32];
    h[0] = 5;
    h[8] = 3;
    h[23] = 2;
    h[31] = 1;
    assert_eq!(adc_util_counts(&h), (5, 11));
}

#[test]
fn transfers_accumulate_and_polls_drain() {
    let t0 = Instant::now();
    let mut m = SdrMetrics::new(t0);
    let buf = [0x7Fu8, 0x80, 0x01, 0xFF];
    m.record_transfer(262144, 4, transfer_stats(&buf), 1_000);
    assert_eq!(m.bytes_since_last_poll, 4);
    assert_eq!(m.acc_drops, 131070);
    assert_eq!(m.total_drops_session, 131070);
    assert_eq!(m.acc_jitter_count, 0);
    m.record_transfer(4, 4, transfer_stats(&buf), 1_250);
    assert_eq!(m.acc_jitter_sum_us, 250);
    assert_eq!(m.acc_jitter_count, 1);
    m.record_transfer(4, 4, transfer_stats(&buf), 1_200);
    assert_eq!(m.acc_jitter_sum_us, 250);
    assert_eq!(m.acc_jitter_count, 2);
    assert_eq!(m.acc_last_callback_us, Some(1_200));

    let snap = m.poll_update(t0, 1000, true);
    assert_eq!(
        snap,
        PollSnapshot { saturated: 6, i_sum: 384, q_sum: -387, i_sq_sum: 3 * (127 * 127 + 1), q_sq_sum: 3 * (128 * 128 + 1), samples: 6 }
    );
    assert_eq!(m.current_throughput_bps, 12);
    assert_eq!(m.drops_per_sec, 131070);
    assert_eq!(m.drop_history.back(), Some(&131070));
    assert_eq!(m.sample_rate_history.back(), Some(&6));
    assert_eq!(m.callback_jitter_us, 125);
    assert_eq!(m.acc_drops, 0);
    assert_eq!(m.acc_sample_count, 0);
    assert_eq!(m.total_drops_session, 131070);

    let snap = m.poll_update(t0, 0, true);
    assert_eq!(snap.samples, 0);
    assert_eq!(m.drops_per_sec, 131070);
    assert_eq!(m.drop_history.len(), 2);
    assert_eq!(m.callback_jitter_us, 125);
}

#[test]
fn stream_control_notes() {
    let mut m = SdrMetrics::new(Instant::now());
    assert!(stream_lost(true, false));
    assert!(!stream_lost(true, true));
    assert!(!stream_lost(false, false));
    m.rx_enabled = true;
    m.hw_streaming = true;
    m.note_stream_lost();
    assert!(!m.rx_enabled && !m.hw_streaming);
    assert!(m.log.back().unwrap().starts_with("WARNING: Streaming stopped unexpectedly"));
    m.rx_enabled = true;
    m.note_rx_started(None);
    assert!(m.rx_enabled);
    assert_eq!(m.log.back().map(|s| s.as_str()), Some("RX streaming started"));
    m.note_rx_started(Some("Failed to start RX streaming"));
    assert!(!m.rx_enabled);
    assert_eq!(m.log.back().map(|s| s.as_str()), Some("Error starting RX: Failed to start RX streaming"));
    m.note_rx_stopped(None);
    assert_eq!(m.log.back().map(|s| s.as_str()), Some("RX streaming stopped"));
    m.note_rx_stopped(Some("timeout"));
    assert_eq!(m.log.back().map(|s| s.as_str()), Some("Error stopping RX: timeout"));
}

#[test]
fn adc_util_zero_when_empty() {
    let (mid, total) = adc_util_counts(&[0u64; 32]);
    assert_eq!((mid, total), (0, 0));
    let ratio = if total > 0 { mid as f64 / total as f64 } else { 0.0 };
    assert_eq!(ratio, 0.0);
}

#[test]
fn adc_util_counts_mid_bins() {
    let mut hist = [0u64; 32];
    hist[0] = 50;
    hist[16] = 50;
    let (mid, total) = adc_util_counts(&hist);
    assert_eq!((mid, total), (50, 100));
    assert!((mid as f64 / total as f64 - 0.5).abs() < 1e-9);
}
