use sdrtop::config::LayoutConfig;
use sdrtop::tasks::fmt_duration;
use sdrtop::ui::command_rail::{fmt_mb, gain_bar_width, total_gain};
use sdrtop::ui::micro_common::{fft_stale_at, fmt_bw, fmt_freq_mhz};
use sdrtop::ui::rf_calc::gain_advice;
use sdrtop::ui::rf_chain::{fmt_hz, fmt_wavelength};
use sdrtop::ui::timing_vitals::fmt_uptime;

#[test]
fn default_config_has_minimal_preset() {
    let cfg = LayoutConfig::default_config();
    assert_eq!(cfg.active_preset, "minimal");
    assert!(!cfg.active_panels().is_empty());
}

#[test]
fn active_panels_returns_correct_names() {
    let cfg = LayoutConfig::default_config();
    let names: Vec<&str> = cfg.active_panels().iter().map(|p| p.name.as_str()).collect();
    assert!(names.contains(&"header"));
    assert!(names.contains(&"footer"));
    assert!(names.contains(&"telemetry"));
}

#[test]
fn fmt_duration_formats_correctly() {
    assert_eq!(fmt_duration(0), "0s");
    assert_eq!(fmt_duration(45), "45s");
    assert_eq!(fmt_duration(90), "1m 30s");
    assert_eq!(fmt_duration(3661), "1h 1m 1s");
}

#[test]
fn uptime_formats_hms() {
    assert_eq!(fmt_uptime(0), "00:00:00");
    assert_eq!(fmt_uptime(15_127), "04:12:07");
    assert_eq!(fmt_uptime(59), "00:00:59");
}

#[test]
fn total_gain_sums_only_with_second_stage() {
    assert_eq!(total_gain(32, 30, true), 62);
    assert_eq!(total_gain(40, 99, false), 40);
}

#[test]
fn fmt_mb_blanks_when_idle() {
    assert_eq!(fmt_mb(0), "—");
    assert_eq!(fmt_mb(5_200_000), "5.2 MB/s");
}

#[test]
fn gain_bar_width_clamps() {
    assert_eq!(gain_bar_width(10), 4);
    assert_eq!(gain_bar_width(0), 4);
    assert_eq!(gain_bar_width(22), 12);
    assert_eq!(gain_bar_width(18), 8);
}

#[test]
fn fmt_helpers() {
    assert_eq!(fmt_freq_mhz(433_920_000), "433.920 MHz");
    assert_eq!(fmt_bw(152_000), "152 kHz");
    assert_eq!(fmt_bw(1_200_000), "1.20 MHz");
}

#[test]
fn gain_advice_clipping_is_crit() {
    let mut hist = [0u64; 32];
    hist[24] = 20;
    hist[0] = 80;
    let (_, sev) = gain_advice(&hist);
    assert_eq!(sev, 2);
}

#[test]
fn gain_advice_weak_is_warn() {
    let mut hist = [0u64; 32];
    hist[0] = 95;
    hist[8] = 5;
    let (_, sev) = gain_advice(&hist);
    assert_eq!(sev, 1);
}

#[test]
fn gain_advice_ok_is_zero() {
    let mut hist = [0u64; 32];
    hist[8] = 50;
    hist[16] = 50;
    let (_, sev) = gain_advice(&hist);
    assert_eq!(sev, 0);
}

#[test]
fn wavelength_2400mhz() {
    let s = fmt_wavelength(2_400_000_000);
    assert!(s.contains("12.5 cm"), "got: {}", s);
    assert!(s.contains("3.1 cm"), "got: {}", s);
}

#[test]
fn wavelength_433mhz() {
    let s = fmt_wavelength(433_000_000);
    assert!(s.contains("69."), "got: {}", s);
    assert!(s.contains("17."), "got: {}", s);
}

#[test]
fn wavelength_zero_returns_dashes() {
    assert_eq!(fmt_wavelength(0), "--- / ---");
}

#[test]
fn wavelength_long_and_short_units() {
    assert_eq!(fmt_wavelength(100_000_000), "3.00 m / 75.0 cm");
    assert_eq!(fmt_wavelength(60_000_000_000), "5.0 mm / 1.2 mm");
}

#[test]
fn fmt_hz_units() {
    assert_eq!(fmt_hz(0), "---");
    assert_eq!(fmt_hz(1_750_000), "1.750 MHz");
    assert_eq!(fmt_hz(875_500), "875 kHz");
}

#[test]
fn gain_advice_texts_and_empty_histogram() {
    assert_eq!(gain_advice(&[0u64; 32]), ("no signal — start RX", 0));
    let mut hist = [0u64; 32];
    hist[0] = 80;
    hist[16] = 20;
    assert_eq!(gain_advice(&hist), ("⬆ under-utilised — try +8 dB", 1));
}

#[test]
fn fft_frame_goes_stale_after_half_a_second() {
    assert!(fft_stale_at(None));
    assert!(!fft_stale_at(Some(0)));
    assert!(!fft_stale_at(Some(500)));
    assert!(fft_stale_at(Some(501)));
}

#[test]
fn gain_advice_with_a_large_mid_band() {
    let mut hist = [0u64; 32];
    hist[16] = u64::MAX / 2;
    hist[0] = 1;
    assert_eq!(gain_advice(&hist), ("✓ gain staging OK", 0));
}
