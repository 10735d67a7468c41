use sdrtop::text::pad_right;
use sdrtop::ui::command_rail::boost_value;
use sdrtop::ui::device_selector::{
    dialog_size, selector_item, selector_step, selector_title, SelectorKey, SelectorStep,
};
use sdrtop::ui::footer::{footer_text, FooterMode};
use sdrtop::ui::header::{
    amp_text, fw_label, is_mayhem_fw, status_badge, vfo_roles, vfo_string, DigitRole, StatusBadge,
};
use sdrtop::ui::lab_chrome::{marker_delta_hz, marker_layout};
use sdrtop::ui::micro_common::{rx_badge, Severity};
use sdrtop::ui::observer::{cmdline_line, device_text, owner_text, usb_text};
use sdrtop::ui::overlay::centered_rect;
use sdrtop::ui::panel::{border_tone, BorderTone};
use sdrtop::ui::rf_chain::{fmt_usb_api, gain_chain_text};
use sdrtop::ui::timing_diagnostics::{budget_track_width, deviation_summary, late_line};
use sdrtop::ui::timing_vitals::{usb_error_severity, vitals_verdict};

#[test]
fn vfo_underlines_the_active_digit() {
    let roles = vfo_roles(145_500_000, 10_000);
    let text: Vec<char> = vfo_string(145_500_000).chars().collect();
    assert_eq!(roles.len(), text.len());
    let active: Vec<usize> = (0..roles.len()).filter(|&i| roles[i] == DigitRole::Active).collect();
    assert_eq!(active.len(), 1, "exactly one active digit");
    assert_eq!(text[active[0]], '0');
    assert_eq!(active[0], 5);
    assert_eq!(roles[3], DigitRole::Dot);
}

#[test]
fn vfo_step_above_screen_underlines_nothing() {
    let roles = vfo_roles(5_000_000, 10_000_000);
    assert!(!roles.iter().any(|r| *r == DigitRole::Active));
}

#[test]
fn vfo_fine_step_has_no_digit() {
    let roles = vfo_roles(433_920_000, 100);
    assert!(!roles.iter().any(|r| *r == DigitRole::Active));
    assert_eq!(roles.iter().filter(|r| **r == DigitRole::Dot).count(), 1);
}

#[test]
fn status_badge_prefers_observer() {
    assert_eq!(status_badge(true, true), StatusBadge::Observer);
    assert_eq!(status_badge(false, true), StatusBadge::Rx);
    assert_eq!(status_badge(false, false), StatusBadge::Idle);
}

#[test]
fn firmware_labels() {
    assert!(is_mayhem_fw("n_240101"));
    assert!(is_mayhem_fw("v2.0.1"));
    assert!(!is_mayhem_fw("2024.02.1"));
    assert!(!is_mayhem_fw("vx"));
    assert!(!is_mayhem_fw("n"));
    assert_eq!(fw_label(false, false, "v1.9.0"), "mayhem fw ");
    assert_eq!(fw_label(false, false, "2024.02.1"), "hackrf fw ");
    assert_eq!(fw_label(false, true, "n_1"), "hackrf fw ");
    assert_eq!(fw_label(true, false, "v1.9.0"), "rtl-sdr   ");
    for l in [fw_label(false, false, "v1"), fw_label(true, true, ""), fw_label(false, false, "")] {
        assert_eq!(l.chars().count(), 10);
    }
}

#[test]
fn amp_and_boost_values() {
    assert_eq!(amp_text(true, true), "—  ");
    assert_eq!(amp_text(false, true), "ON ");
    assert_eq!(amp_text(false, false), "OFF");
    assert_eq!(boost_value(true, false), "—");
    assert_eq!(boost_value(false, true), "ON");
    assert_eq!(boost_value(false, false), "OFF");
}

#[test]
fn cmdline_is_cut_to_the_panel() {
    assert_eq!(cmdline_line("gqrx", 40), "  gqrx");
    assert_eq!(cmdline_line("hackrf_transfer -r out.bin", 14), "  hackrf_tr…");
    // Byte length decides: nine two-byte letters exceed ten bytes.
    assert_eq!(cmdline_line("ééééééééé", 14), "  ééééééééé…");
    assert_eq!(cmdline_line("abc", 0), "  …");
}

#[test]
fn gain_chain_lines() {
    assert_eq!(gain_chain_text(false, 16, 20), "LNA[16] → VGA[20] = 36 dB");
    assert_eq!(gain_chain_text(true, 40, 62), "AMP[14] → LNA[40] → VGA[62] = 116 dB");
}

#[test]
fn usb_api_hex() {
    assert_eq!(fmt_usb_api(0x0102), "0x0102");
    assert_eq!(fmt_usb_api(0), "0x0000");
    assert_eq!(fmt_usb_api(0xabcd), "0xabcd");
}

#[test]
fn labels_pad_to_width() {
    assert_eq!(pad_right("Freq", 13), "Freq         ");
    assert_eq!(pad_right("λ / λ/4", 13).chars().count(), 13);
    assert_eq!(pad_right("a very long label", 5), "a very long label");
}

#[test]
fn usb_link_grades() {
    assert_eq!(usb_error_severity(&[0, 0, 2], 5), Severity::Crit);
    assert_eq!(usb_error_severity(&[0, 0, 0], 5), Severity::Warn);
    assert_eq!(usb_error_severity(&[], 0), Severity::Good);
}

#[test]
fn vitals_verdicts() {
    assert_eq!(vitals_verdict(0), ("✓", "all vitals nominal", Severity::Good));
    assert_eq!(vitals_verdict(2), ("⚠", "pipeline under load", Severity::Warn));
    assert_eq!(vitals_verdict(3), ("⚠", "overrun logged", Severity::Crit));
}

#[test]
fn footer_texts() {
    assert!(footer_text(true, FooterMode::FrequencyInput, "1").starts_with(" Observer Mode"));
    assert!(footer_text(false, FooterMode::Normal, "").contains("[SPACE] RX"));
    assert_eq!(
        footer_text(false, FooterMode::FrequencyInput, "433.9"),
        " Frequency (MHz): [433.9▌] | [Enter] confirm | [Esc] cancel "
    );
    assert_eq!(
        footer_text(false, FooterMode::SampleRateInput, ""),
        " Sample rate (2–20 MHz): [▌] | [Enter] confirm | [Esc] cancel "
    );
}

#[test]
fn selector_keys() {
    assert_eq!(selector_step(Some(0), 3, SelectorKey::Up), SelectorStep::Select(0));
    assert_eq!(selector_step(Some(2), 3, SelectorKey::Up), SelectorStep::Select(1));
    assert_eq!(selector_step(Some(1), 3, SelectorKey::Down), SelectorStep::Select(2));
    assert_eq!(selector_step(Some(2), 3, SelectorKey::Down), SelectorStep::Select(2));
    assert_eq!(selector_step(None, 3, SelectorKey::Down), SelectorStep::Select(1));
    assert_eq!(selector_step(Some(1), 3, SelectorKey::Enter), SelectorStep::Done(Some(1)));
    assert_eq!(selector_step(Some(1), 3, SelectorKey::Quit), SelectorStep::Done(None));
    assert_eq!(selector_step(Some(1), 3, SelectorKey::Other), SelectorStep::Ignore);
}

#[test]
fn selector_texts_and_size() {
    assert_eq!(selector_title(1), " 1 device found — press Enter ");
    assert_eq!(selector_title(3), " 3 devices found — select one ");
    assert_eq!(selector_item(2, "0000000000000000457863dc2f2b2f5f"), "  [2]  0000000000000000457863dc2f2b2f5f");
    assert_eq!(dialog_size(3, 120, 40), (64, 7));
    assert_eq!(dialog_size(3, 30, 8), (26, 4));
    assert_eq!(dialog_size(3, 2, 2), (0, 0));
}

#[test]
fn marker_bar_layout() {
    let l = marker_layout(80, 20, Some(23), Some(25), 10);
    assert!(l.show_second && l.show_delta);
    assert_eq!(l.hint_filler, Some(2));
    let l = marker_layout(80, 20, Some(23), None, 10);
    assert!(l.show_second && !l.show_delta);
    assert_eq!(l.hint_filler, Some(27));
    let l = marker_layout(30, 20, Some(23), Some(5), 0);
    assert!(!l.show_second && l.show_delta);
    assert_eq!(l.hint_filler, None);
    assert_eq!(marker_delta_hz(433_920_000, 428_520_000), 5_400_000);
    assert_eq!(marker_delta_hz(1, 2), 1);
}

#[test]
fn late_callback_rows() {
    assert_eq!(late_line(0, 100), ("✓ none over budget".to_string(), Severity::Good));
    assert_eq!(late_line(3, 100), ("3 / 100 over budget".to_string(), Severity::Warn));
    assert_eq!(late_line(6, 100), ("6 / 100 over budget".to_string(), Severity::Crit));
    assert_eq!(budget_track_width(40, 7), 27);
    assert_eq!(budget_track_width(10, 7), 6);
    assert_eq!(deviation_summary(120, 180, 240), "p95 120  p99 180  peak 240 µs");
}

#[test]
fn overlay_is_centred() {
    assert_eq!(centered_rect(46, 9, (0, 0, 100, 30)), (27, 10, 46, 9));
    assert_eq!(centered_rect(10, 4, (5, 2, 20, 10)), (10, 5, 10, 4));
}

#[test]
fn observer_identity_lines() {
    assert_eq!(device_text("HackRF One", "Great Scott Gadgets"), "HackRF One · Great Scott Gadgets");
    assert_eq!(usb_text(480, "500mA", 1, 7), "High Speed (480 Mbit/s) · 500mA · Bus 1, Dev 7");
    assert_eq!(owner_text("gqrx", 4242), "gqrx (PID 4242)");
}

#[test]
fn border_tones() {
    assert_eq!(border_tone(true, true), BorderTone::Focused);
    assert_eq!(border_tone(false, true), BorderTone::Stale);
    assert_eq!(border_tone(false, false), BorderTone::Normal);
}

#[test]
fn rx_badges() {
    assert_eq!(rx_badge(true), ("●", " RX", Severity::Good));
    assert_eq!(rx_badge(false), ("○", " IDLE", Severity::Warn));
}
