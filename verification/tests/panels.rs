use sdrtop::ui::lab_chrome::marker_delta_hz;
use sdrtop::ui::micro_common::fmt_bw;
use sdrtop::ui::timing_vitals::{stale_suffix, uptime_gap};
use sdrtop::dsp::{fft_shift, iq_sample};
use sdrtop::hardware::device::{dropped_pairs, is_rail_byte, parse_device_index, OpenError};
use sdrtop::parse::{split_after_last, split_fields};
use sdrtop::state::lab::LabState;
use sdrtop::tasks::parse_self_stats;
use sdrtop::theme::{parse_hex, ThemeKind};
use sdrtop::ui::header::{gain_bar, step_place_exp, top_band_gap};
use sdrtop::ui::iq_constellation::{IqConstellationPanel, CIRCLE_SEGS};
use sdrtop::ui::lab_chrome::{fmt_delta, fmt_freq_mhz, lab_label};
use sdrtop::ui::micro_common::Severity;
use sdrtop::ui::panel::Panel;
use sdrtop::ui::timing_diagnostics::{budget_track_cells, verdict_copy, TrackCell};

#[test]
fn gain_bar_zero_gain_all_empty() {
    let (filled, empty) = gain_bar(0, 40, 8);
    assert_eq!(filled, "");
    assert_eq!(empty, "▯▯▯▯▯▯▯▯");
}

#[test]
fn gain_bar_full_gain_all_filled() {
    let (filled, empty) = gain_bar(40, 40, 8);
    assert_eq!(filled, "▮▮▮▮▮▮▮▮");
    assert_eq!(empty, "");
}

#[test]
fn step_place_exp_maps_steps_to_digit_place() {
    assert_eq!(step_place_exp(1_000), 3);
    assert_eq!(step_place_exp(10_000), 4);
    assert_eq!(step_place_exp(100_000), 5);
    assert_eq!(step_place_exp(1_000_000), 6);
    assert_eq!(step_place_exp(10_000_000), 7);
    assert_eq!(step_place_exp(5_000), 3);
    assert_eq!(step_place_exp(25_000), 4);
    assert_eq!(step_place_exp(500_000), 5);
    assert_eq!(step_place_exp(5_000_000), 6);
}

#[test]
fn gain_bar_half_gain() {
    let (filled, empty) = gain_bar(20, 40, 8);
    assert_eq!(filled.chars().count(), 4);
    assert_eq!(empty.chars().count(), 4);
}

#[test]
fn gain_bar_total_always_equals_width() {
    for gain in [0u32, 1, 16, 20, 40] {
        let (f, e) = gain_bar(gain, 40, 8);
        assert_eq!(
            f.chars().count() + e.chars().count(),
            8,
            "gain={gain}: filled({}) + empty({}) != 8",
            f.chars().count(),
            e.chars().count()
        );
    }
}

#[test]
fn top_band_gap_rx_state() {
    assert_eq!(top_band_gap(10, 6, 9, 3, 9, 78), 9);
}

#[test]
fn top_band_gap_idle_state() {
    assert_eq!(top_band_gap(10, 8, 9, 3, 9, 78), 7);
}

#[test]
fn top_band_gap_observer_state() {
    assert_eq!(top_band_gap(10, 12, 1, 3, 9, 78), 11);
}

#[test]
fn top_band_gap_never_negative() {
    assert_eq!(top_band_gap(40, 12, 20, 3, 9, 60), 0);
}

#[test]
fn iq_constellation_panel_name_and_min_size() {
    let p = IqConstellationPanel;
    assert_eq!(p.name(), "iq_constellation");
    let (w, h) = p.min_size();
    assert!(w > 0 && h > 0);
}

#[test]
fn circle_segs_constant_is_positive_even() {
    assert!(CIRCLE_SEGS > 0);
    assert_eq!(CIRCLE_SEGS % 2, 0, "even number of segments gives symmetric circle");
}

struct DummyPanel;

impl Panel for DummyPanel {
    fn name(&self) -> &'static str {
        "dummy"
    }
    fn min_size(&self) -> (u16, u16) {
        (10, 3)
    }
}

#[test]
fn panel_panel_name_and_min_size() {
    let p = DummyPanel;
    assert_eq!(p.name(), "dummy");
    assert_eq!(p.min_size(), (10, 3));
}

#[test]
fn panel_defaults_have_no_focus() {
    let p = DummyPanel;
    assert_eq!(p.focus_key(), None);
    assert!(p.focus_bindings().is_empty());
}

#[test]
fn lab_label_maps_current_key_numbers() {
    assert_eq!(lab_label("lab_rf"), Some(("RF CHAIN", '6')));
    assert_eq!(lab_label("lab_iq"), Some(("I/Q QUALITY", '5')));
    assert_eq!(lab_label("lab_signal"), Some(("SIGNAL", '8')));
    assert_eq!(lab_label("command_rail"), None);
    assert_eq!(lab_label("spectrum"), None);
}

#[test]
fn fmt_freq_mhz_picks_unit() {
    assert_eq!(fmt_freq_mhz(92_800_000), "92.800 MHz");
    assert_eq!(fmt_freq_mhz(433_920_000), "433.920 MHz");
    assert_eq!(fmt_freq_mhz(1_234_500_000), "1.234500 GHz");
}

#[test]
fn fmt_delta_formats_with_and_without_level() {
    // A level difference of -12.3 dB is shown by its magnitude, 123 tenths.
    assert_eq!(fmt_delta(5_400_000, Some(123)), "5.400 MHz 12.3 dB");
    assert_eq!(fmt_delta(5_400_000, None), "5.400 MHz");
}

#[test]
fn fmt_delta_gigahertz_span() {
    assert_eq!(fmt_delta(2_000_000_000, Some(5)), "2.000000 GHz 0.5 dB");
}

#[test]
fn verdict_copy_folds_in_numbers_and_state() {
    let ok = verdict_copy(0, 210, 603);
    assert!(ok[0].contains("met its deadline"));
    assert!(ok[1].contains("210 µs") && ok[1].contains('%'));
    let bad = verdict_copy(3, 6_300, 603);
    assert!(bad[0].to_lowercase().contains("overrun"));
}

#[test]
fn budget_track_width_and_marker() {
    let cells = budget_track_cells(88, 600, 20);
    assert_eq!(cells.len(), 20);
    let marks = cells.iter().filter(|c| **c == TrackCell::Marker).count();
    assert_eq!(marks, 1, "exactly one budget marker");
}

#[test]
fn budget_track_colors_by_overage() {
    let under = budget_track_cells(100, 600, 24);
    assert!(under.iter().any(|c| *c == TrackCell::Filled(Severity::Good)));
    let over = budget_track_cells(6_300, 600, 24);
    assert!(over.iter().any(|c| *c == TrackCell::Filled(Severity::Crit)));
}

#[test]
fn budget_track_marker_at_three_quarters() {
    let cells = budget_track_cells(0, 600, 20);
    assert_eq!(cells[15], TrackCell::Marker);
    assert!(cells.iter().all(|c| *c == TrackCell::Marker || *c == TrackCell::Empty));
}

#[test]
fn fftshift_dc_at_center() {
    let n = 8usize;
    let mags: Vec<f32> = (0..n).map(|i| i as f32).collect();
    let shifted = fft_shift(&mags);
    assert_eq!(shifted[n / 2], 0.0, "DC should be at index N/2 after shift");
    assert_eq!(shifted[0], 4.0);
}

#[test]
fn fftshift_odd_length() {
    let shifted = fft_shift(&[0u32, 1, 2, 3, 4]);
    assert_eq!(shifted, vec![2, 3, 4, 0, 1]);
}

#[test]
fn iq_byte_i8_max_converts_correctly() {
    let f = iq_sample(0x7F) as f32 / 128.0;
    assert!((f - 0.9921875).abs() < 1e-6, "got {}", f);
}

#[test]
fn iq_byte_i8_min_converts_correctly() {
    let f = iq_sample(0x80) as f32 / 128.0;
    assert!((f - (-1.0)).abs() < 1e-6, "got {}", f);
}

#[test]
fn ema_converges_to_new_value() {
    let mut s = 0.0f32;
    let target = 1.0f32;
    let alpha = 0.5f32;
    for _ in 0..20 {
        s = alpha * target + (1.0 - alpha) * s;
    }
    assert!(s > 0.99, "EMA should converge to target, got {}", s);
}

#[test]
fn saturation_byte_detection() {
    assert!(is_rail_byte(0x7F));
    assert!(is_rail_byte(0x80));
    assert!(!is_rail_byte(0x40));
}

#[test]
fn drop_detection_arithmetic() {
    let buffer_length: i32 = 262144;
    let valid_length: i32 = 262144 - 128;
    assert_eq!(dropped_pairs(buffer_length, valid_length), 64);
    assert_eq!(dropped_pairs(buffer_length, buffer_length), 0);
}

#[test]
fn proc_stat_field_indices() {
    let fake = "1234 (my process) S 1 1 1 0 -1 4194304 0 0 0 0 42 7 0 0 20 0 1 0 0 0 0";
    let chars: Vec<char> = fake.chars().collect();
    let after_comm = split_after_last(&chars, ')').unwrap();
    let fields = split_fields(&after_comm);
    let as_text: Vec<String> = fields.iter().map(|f| f.iter().collect()).collect();
    assert_eq!(as_text.get(11).map(|s| s.as_str()), Some("42"), "utime at index 11");
    assert_eq!(as_text.get(12).map(|s| s.as_str()), Some("7"), "stime at index 12");
}

#[test]
fn self_stats_sum_ticks_and_scale_rss() {
    let stat = "1234 (my (odd) process) S 1 1 1 0 -1 4194304 0 0 0 0 42 7 0 0 20 0 1 0 0 0 0";
    let status = "Name:\tsdrtop\nVmPeak:\t  9000 kB\nVmRSS:\t   20480 kB\nThreads: 4\n";
    assert_eq!(parse_self_stats(stat, status), Some((49, 20)));
}

#[test]
fn self_stats_none_on_bad_text() {
    let status = "VmRSS:\t 2048 kB\n";
    assert_eq!(parse_self_stats("no parenthesis here", status), None);
    assert_eq!(parse_self_stats("1 (x) S 1 2 3", status), None);
    let stat = "1 (x) S 1 1 1 0 -1 4194304 0 0 0 0 42 7 0";
    assert_eq!(parse_self_stats(stat, "VmSize: 10 kB\n"), None);
    assert_eq!(parse_self_stats(stat, "VmRSS:\n"), None);
    assert_eq!(parse_self_stats(stat, status), Some((49, 2)));
}

#[test]
fn by_name_unknown_falls_back_to_sdr() {
    let t = ThemeKind::by_name("does_not_exist");
    assert_eq!(t.name(), "sdr");
}

#[test]
fn by_name_returns_correct_theme() {
    assert_eq!(ThemeKind::by_name("nord").name(), "nord");
    assert_eq!(ThemeKind::by_name("dracula").name(), "dracula");
    assert_eq!(ThemeKind::by_name("gruvbox").name(), "gruvbox");
    assert_eq!(ThemeKind::by_name("catppuccin").name(), "catppuccin");
    assert_eq!(ThemeKind::by_name("solarized").name(), "solarized");
}

#[test]
fn parse_hex_valid_colors() {
    assert_eq!(parse_hex("#00d7ff"), Some((0, 215, 255)));
    assert_eq!(parse_hex("#88c0d0"), Some((136, 192, 208)));
    assert_eq!(parse_hex("#000000"), Some((0, 0, 0)));
    assert_eq!(parse_hex("#ffffff"), Some((255, 255, 255)));
}

#[test]
fn parse_hex_invalid_returns_none() {
    assert_eq!(parse_hex("00d7ff"), None);
    assert_eq!(parse_hex("#gggggg"), None);
    assert_eq!(parse_hex("#fff"), None);
    assert_eq!(parse_hex(""), None);
}

#[test]
fn parse_hex_trims_and_accepts_plus_and_upper_case() {
    assert_eq!(parse_hex("  #FF8000\n"), Some((255, 128, 0)));
    assert_eq!(parse_hex("#+f+f+f"), Some((15, 15, 15)));
    assert_eq!(parse_hex("#ééé"), None);
    assert_eq!(parse_hex("#00d7ff0"), None);
}

#[test]
fn lab_labels_default_and_set() {
    let s = LabState::default();
    assert_eq!(s.avg_label(), "OFF");
    assert_eq!(s.cal_label(), "\u{2014}");
    let s = LabState { avg_n: 8, cal: true };
    assert_eq!(s.avg_label(), "\u{00D7}8");
    assert_eq!(s.cal_label(), "\u{2713}");
}

#[test]
fn device_index_prompt_answers() {
    assert_eq!(parse_device_index(" 1\n", 3), Ok(1));
    assert_eq!(parse_device_index("+2", 3), Ok(2));
    assert_eq!(parse_device_index("3", 3), Err(OpenError::InvalidIndex));
    assert_eq!(parse_device_index("one", 3), Err(OpenError::InvalidIndex));
    assert_eq!(parse_device_index("", 3), Err(OpenError::InvalidIndex));
    assert_eq!(parse_device_index("-1", 3), Err(OpenError::InvalidIndex));
    assert_eq!(parse_device_index("99999999999999999999999", 3), Err(OpenError::InvalidIndex));
}

#[test]
fn vitals_stale_title_and_uptime_gap() {
    assert_eq!(stale_suffix(false), " [STALE]");
    assert_eq!(stale_suffix(true), "");
    assert_eq!(uptime_gap(40, 1, 18, 14), 5);
    assert_eq!(uptime_gap(30, 1, 18, 14), 1);
    assert_eq!(uptime_gap(35, 1, 18, 14), 1);
}

#[test]
fn near_ties_round_to_a_neighbour() {
    let bw = fmt_bw(1_015_000);
    assert!(bw == "1.01 MHz" || bw == "1.02 MHz");
    let (filled, empty) = gain_bar(21, 40, 60);
    let n = filled.chars().count();
    assert!(n == 31 || n == 32);
    assert_eq!(n + empty.chars().count(), 60);
    assert_eq!(fmt_bw(1_234_567), "1.23 MHz");
}

#[test]
fn marker_delta_wraps_like_signed_frequencies() {
    assert_eq!(marker_delta_hz(0, 1 << 63), 1 << 63);
    assert_eq!(marker_delta_hz(u64::MAX, 0), 1);
    assert_eq!(marker_delta_hz(5, 2), 3);
}
