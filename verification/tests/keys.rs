use std::time::Instant;

use sdrtop::state::ui::InputMode;
use sdrtop::state::{
    FocusPanel, HwAction, Key, KeyOutcome, SdrMetrics, DEFAULT_FREQUENCY, DEFAULT_LNA_GAIN,
    DEFAULT_SAMPLE_RATE_HZ, DEFAULT_VGA_GAIN,
};

fn metrics() -> SdrMetrics {
    SdrMetrics::new(Instant::now())
}

fn type_keys(m: &mut SdrMetrics, text: &str) {
    for c in text.chars() {
        assert_eq!(m.handle_key(Key::Char(c), 5), KeyOutcome::Continue);
    }
}

fn last_log(m: &SdrMetrics) -> Option<&str> {
    m.log.back().map(|s| s.as_str())
}

#[test]
fn arrows_step_lna_gain_by_eight_within_limits() {
    let mut m = metrics();
    assert_eq!(m.lna_gain, 16);
    assert_eq!(m.handle_key(Key::Up, 5), KeyOutcome::Apply(HwAction::SetLnaGain(24)));
    assert_eq!(m.lna_gain, 24);
    m.handle_key(Key::Up, 5);
    m.handle_key(Key::Up, 5);
    assert_eq!(m.lna_gain, 40);
    assert_eq!(m.handle_key(Key::Up, 5), KeyOutcome::Apply(HwAction::SetLnaGain(40)));
    assert_eq!(m.lna_gain, 40);
    m.lna_gain = 4;
    assert_eq!(m.handle_key(Key::Down, 5), KeyOutcome::Apply(HwAction::SetLnaGain(0)));
    assert_eq!(m.handle_key(Key::Down, 5), KeyOutcome::Apply(HwAction::SetLnaGain(0)));
    assert_eq!(m.lna_gain, 0);
    assert!(m.log.is_empty());
}

#[test]
fn brackets_step_vga_gain_by_two_within_limits() {
    let mut m = metrics();
    assert_eq!(m.handle_key(Key::Char(']'), 5), KeyOutcome::Apply(HwAction::SetVgaGain(22)));
    assert_eq!(m.handle_key(Key::Char('['), 5), KeyOutcome::Apply(HwAction::SetVgaGain(20)));
    m.vga_gain = 61;
    assert_eq!(m.handle_key(Key::Char(']'), 5), KeyOutcome::Apply(HwAction::SetVgaGain(62)));
    m.vga_gain = 1;
    assert_eq!(m.handle_key(Key::Char('['), 5), KeyOutcome::Apply(HwAction::SetVgaGain(0)));
}

#[test]
fn a_toggles_the_amplifier() {
    let mut m = metrics();
    assert_eq!(m.handle_key(Key::Char('a'), 5), KeyOutcome::Apply(HwAction::SetAmp(true)));
    assert!(m.amp_enabled);
    assert_eq!(m.handle_key(Key::Char('a'), 5), KeyOutcome::Apply(HwAction::SetAmp(false)));
    assert!(!m.amp_enabled);
}

#[test]
fn frequency_entry_applies_a_valid_value() {
    let mut m = metrics();
    m.handle_key(Key::Char('f'), 5);
    assert_eq!(m.input_mode, InputMode::FrequencyInput);
    type_keys(&mut m, "433.92");
    assert_eq!(m.input_buf, vec!['4', '3', '3', '.', '9', '2']);
    assert_eq!(m.handle_key(Key::Enter, 5), KeyOutcome::Apply(HwAction::SetFrequency(433_920_000)));
    assert_eq!(m.frequency, 433_920_000);
    assert_eq!(m.input_mode, InputMode::Normal);
    assert!(m.input_buf.is_empty());
    assert_eq!(last_log(&m), Some("Frequency set to 433.92 MHz"));
}

#[test]
fn frequency_entry_rejects_out_of_range_and_garbage() {
    let mut m = metrics();
    m.handle_key(Key::Char('f'), 5);
    type_keys(&mut m, "7300");
    assert_eq!(m.handle_key(Key::Enter, 5), KeyOutcome::Continue);
    assert_eq!(m.frequency, DEFAULT_FREQUENCY);
    assert_eq!(last_log(&m), Some("Invalid frequency: must be 1–7250 MHz"));
    m.handle_key(Key::Char('f'), 5);
    type_keys(&mut m, "0.5");
    assert_eq!(m.handle_key(Key::Enter, 5), KeyOutcome::Continue);
    m.handle_key(Key::Char('f'), 5);
    type_keys(&mut m, "1.2.3");
    assert_eq!(m.handle_key(Key::Enter, 5), KeyOutcome::Continue);
    assert_eq!(m.frequency, DEFAULT_FREQUENCY);
    assert_eq!(m.log.len(), 3);
    m.handle_key(Key::Char('f'), 5);
    type_keys(&mut m, "7250");
    assert_eq!(m.handle_key(Key::Enter, 5), KeyOutcome::Apply(HwAction::SetFrequency(7_250_000_000)));
    assert_eq!(last_log(&m), Some("Frequency set to 7250 MHz"));
}

#[test]
fn entry_ignores_letters_and_edits_with_backspace() {
    let mut m = metrics();
    m.handle_key(Key::Char('f'), 5);
    type_keys(&mut m, "1q0x0");
    assert_eq!(m.input_buf, vec!['1', '0', '0']);
    assert_eq!(m.handle_key(Key::Backspace, 5), KeyOutcome::Continue);
    assert_eq!(m.input_buf, vec!['1', '0']);
    assert_eq!(m.handle_key(Key::Up, 5), KeyOutcome::Continue);
    assert_eq!(m.lna_gain, DEFAULT_LNA_GAIN);
    assert_eq!(m.handle_key(Key::Esc, 5), KeyOutcome::Continue);
    assert_eq!(m.input_mode, InputMode::Normal);
    assert!(m.input_buf.is_empty());
    assert_eq!(m.frequency, DEFAULT_FREQUENCY);
    assert!(m.log.is_empty());
}

#[test]
fn sample_rate_entry_accepts_two_to_twenty_mhz() {
    let mut m = metrics();
    m.handle_key(Key::Char('s'), 5);
    assert_eq!(m.input_mode, InputMode::SampleRateInput);
    type_keys(&mut m, "12.5");
    assert_eq!(m.handle_key(Key::Enter, 5), KeyOutcome::Apply(HwAction::SetSampleRate(12_500_000)));
    assert_eq!(m.config_sample_rate_hz, 12_500_000);
    assert_eq!(last_log(&m), Some("Sample rate set to 12.5 MHz"));
    m.handle_key(Key::Char('s'), 5);
    type_keys(&mut m, "1.9");
    assert_eq!(m.handle_key(Key::Enter, 5), KeyOutcome::Continue);
    assert_eq!(m.config_sample_rate_hz, 12_500_000);
    assert_eq!(last_log(&m), Some("Invalid sample rate: must be 2–20 MHz"));
    m.handle_key(Key::Char('s'), 5);
    type_keys(&mut m, "20");
    assert_eq!(m.handle_key(Key::Enter, 5), KeyOutcome::Apply(HwAction::SetSampleRate(20_000_000)));
}

#[test]
fn display_keys_toggle_and_focus() {
    let mut m = metrics();
    m.handle_key(Key::Char('w'), 5);
    assert!(m.waterfall_paused);
    m.handle_key(Key::Char('h'), 5);
    assert!(m.spectrum_hold);
    m.handle_key(Key::Char('e'), 5);
    assert_eq!(m.focused_panel, Some(FocusPanel::Spectrum));
    m.handle_key(Key::Char('l'), 5);
    assert_eq!(m.focused_panel, Some(FocusPanel::Waterfall));
    m.handle_key(Key::Esc, 5);
    assert_eq!(m.focused_panel, None);
    m.handle_key(Key::Tab, 5);
    assert!(!m.footer_visible);
    m.handle_key(Key::Char('?'), 5);
    assert!(m.show_help);
    m.handle_key(Key::Char('?'), 5);
    assert!(!m.show_help);
    m.handle_key(Key::Char('w'), 5);
    assert!(!m.waterfall_paused);
    assert_eq!(m.lna_gain, DEFAULT_LNA_GAIN);
    assert!(m.log.is_empty());
}

#[test]
fn digits_and_p_switch_presets() {
    let mut m = metrics();
    m.handle_key(Key::Char('3'), 5);
    assert_eq!(m.active_preset, 2);
    m.handle_key(Key::Char('5'), 4);
    assert_eq!(m.active_preset, 2);
    m.handle_key(Key::Char('p'), 4);
    assert_eq!(m.active_preset, 3);
    m.handle_key(Key::Char('p'), 4);
    assert_eq!(m.active_preset, 0);
    m.handle_key(Key::Char('1'), 4);
    assert_eq!(m.active_preset, 0);
}

#[test]
fn reset_keeps_earlier_log_lines() {
    let mut m = metrics();
    m.push_log("first");
    m.frequency = 100_000_000;
    m.lna_gain = 40;
    m.vga_gain = 62;
    m.amp_enabled = true;
    m.config_sample_rate_hz = 2_000_000;
    assert_eq!(m.handle_key(Key::Char('r'), 5), KeyOutcome::Apply(HwAction::ResetAll));
    assert_eq!(m.frequency, DEFAULT_FREQUENCY);
    assert_eq!(m.config_sample_rate_hz, DEFAULT_SAMPLE_RATE_HZ);
    assert_eq!(m.lna_gain, DEFAULT_LNA_GAIN);
    assert_eq!(m.vga_gain, DEFAULT_VGA_GAIN);
    assert!(!m.amp_enabled);
    let lines: Vec<&str> = m.log.iter().map(|s| s.as_str()).collect();
    assert_eq!(lines, vec!["first", "Settings reset to defaults"]);
}
