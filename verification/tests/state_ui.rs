use sdrtop::state::ui::{decayed_mode, LogLevel, RailMode, UiState, RAIL_MODE_DECAY_MS};
use std::time::{Duration, Instant};

#[test]
fn infer_flags_failures_as_error() {
    for msg in [
        "Tune error: out of range",
        "Error stopping RX: timeout",
        "Startup: failed to set gain",
        "Device is in use by another process",
        "Reset error: denied",
    ] {
        assert_eq!(LogLevel::infer(msg), LogLevel::Error, "{msg:?}");
    }
}

#[test]
fn infer_flags_warnings() {
    for msg in [
        "WARNING: Streaming stopped unexpectedly — press [Space]",
        "No marker near cursor — place one with [M] first",
    ] {
        assert_eq!(LogLevel::infer(msg), LogLevel::Warn, "{msg:?}");
    }
}

#[test]
fn infer_flags_success_events() {
    assert_eq!(LogLevel::infer("RX streaming started"), LogLevel::Success);
    assert_eq!(LogLevel::infer("Connected: HackRF One | Serial: …"), LogLevel::Success);
}

#[test]
fn infer_defaults_to_info() {
    for msg in [
        "Step → 100 kHz",
        "Freq zoom: ×4",
        "Preset: spectrum",
        "RX streaming stopped",
    ] {
        assert_eq!(LogLevel::infer(msg), LogLevel::Info, "{msg:?}");
    }
}

#[test]
fn rail_mode_cycles_hunt_monitor_bench() {
    assert_eq!(RailMode::Hunt.next(), RailMode::Monitor);
    assert_eq!(RailMode::Monitor.next(), RailMode::Bench);
    assert_eq!(RailMode::Bench.next(), RailMode::Hunt);
    assert_eq!(RailMode::default(), RailMode::Monitor);
    assert_eq!(RailMode::ALL, [RailMode::Hunt, RailMode::Monitor, RailMode::Bench]);
}

#[test]
fn auto_mode_decays_to_monitor_when_idle() {
    let ms = |d: Duration| Some(d.as_millis());
    assert_eq!(decayed_mode(RailMode::Hunt, true, ms(Duration::from_secs(2))), RailMode::Hunt);
    assert_eq!(decayed_mode(RailMode::Hunt, true, Some(RAIL_MODE_DECAY_MS)), RailMode::Monitor);
    assert_eq!(decayed_mode(RailMode::Bench, false, ms(Duration::from_secs(999))), RailMode::Bench);
    assert_eq!(decayed_mode(RailMode::Bench, true, None), RailMode::Bench);
}

#[test]
fn note_and_cycle_set_auto_flag() {
    let mut ui = UiState::default();
    ui.note_mode_action(RailMode::Hunt);
    assert_eq!(ui.rail_mode, RailMode::Hunt);
    assert!(ui.rail_mode_auto && ui.last_mode_action.is_some());
    assert_eq!(ui.cycle_rail_mode(), RailMode::Monitor);
    assert!(!ui.rail_mode_auto && ui.last_mode_action.is_none());
}

#[test]
fn push_log_captures_level_and_time() {
    let mut ui = UiState::default();
    ui.push_log("Tune error: nope");
    let e = ui.log.back().unwrap();
    assert_eq!(e.level, LogLevel::Error);
    assert_eq!(e.text.as_str(), "Tune error: nope");
    assert!(e.at_epoch_secs > 0, "timestamp captured");
}

#[test]
fn rail_mode_labels() {
    assert_eq!(RailMode::Hunt.label(), "HUNT");
    assert_eq!(RailMode::Monitor.label(), "MONITOR");
    assert_eq!(RailMode::Bench.label(), "BENCH");
}

#[test]
fn log_is_capped_at_one_hundred_entries() {
    let mut ui = UiState::default();
    for i in 0..150u64 {
        ui.push_log_at(&format!("line {i}"), i);
    }
    assert_eq!(ui.log.len(), 100);
    assert_eq!(ui.log.front().unwrap().text, "line 50");
    assert_eq!(ui.log.back().unwrap().at_epoch_secs, 149);
}

#[test]
fn pinned_mode_renders_as_is_whatever_the_clock() {
    let mut ui = UiState::default();
    ui.note_mode_action(RailMode::Bench);
    assert_eq!(ui.effective_rail_mode_at(Some(100)), RailMode::Bench);
    assert_eq!(ui.effective_rail_mode_at(Some(8000)), RailMode::Monitor);
    ui.cycle_rail_mode();
    assert_eq!(ui.effective_rail_mode_at(None), RailMode::Hunt);
    assert_eq!(ui.effective_rail_mode(), RailMode::Hunt);
}

#[test]
fn mode_action_at_stores_the_given_instant() {
    let mut ui = UiState::default();
    let now = Instant::now();
    ui.note_mode_action_at(RailMode::Bench, now);
    assert_eq!(ui.rail_mode, RailMode::Bench);
    assert!(ui.rail_mode_auto);
    assert_eq!(ui.last_mode_action, Some(now));
    assert!(ui.log.is_empty());
}
