use soccer_tool::data::robot_state::RobotState;
use soccer_tool::windows::console::{ConsoleWindow, MAX_LINES};
use soccer_tool::windows::field::{FieldWindow, VisualizationMode as FieldMode};
use soccer_tool::windows::field_playback::{
    filter_replay_names, LoadFailure, PlaybackWindow, SerializableTimedState, VisualizationMode,
};
use soccer_tool::windows::graph::{GraphWindow, MAX_VALUES};
use soccer_tool::windows::panel_id::PanelId;
use soccer_tool::windows::raw_playback::{PlaybackSnapshot, RawPlaybackWindow};
use soccer_tool::windows::raw_serial::{field_table, find_value, RawSerialWindow};
use soccer_tool::windows::serial_settings::{SerialSettingsWindow, SerialStatus, DEFAULT_BAUD};
use soccer_tool::windows::window_config::WindowConfig;
use soccer_tool::windows::window_layouts::LAYOUT_WINDOW_LAYOUTS_FALLBACK;
use soccer_tool::windows::window_layouts::LayoutWindow;

fn state(id: i8, marker: u8) -> RobotState {
    let mut s = RobotState::default();
    s.esp_now_bot_id = id;
    s.game.flags = marker;
    s
}

fn frame(id: i8, marker: u8) -> SerializableTimedState {
    SerializableTimedState { timestamp: (marker as f64).to_bits(), state: state(id, marker) }
}

fn strings(v: &[&str]) -> Vec<String> {
    v.iter().map(|s| s.to_string()).collect()
}

// ----- console -----

#[test]
fn console_appends_entries_as_lines() {
    let mut c = ConsoleWindow::new();
    assert_eq!(c.log, "Console ready.\n");
    c.push_entry("[]\n");
    assert_eq!(c.log, "Console ready.\n[]\n");
    c.push_entry("[]\n");
    assert_eq!(c.log, "Console ready.\n[]\n[]\n");
}

#[test]
fn console_keeps_at_most_max_lines() {
    let mut c = ConsoleWindow::new();
    for i in 0..MAX_LINES + 100 {
        c.push_entry(&format!("[{}]\n", i));
        assert!(c.log.lines().count() <= MAX_LINES);
    }
    assert_eq!(c.log.lines().count(), MAX_LINES);
    assert_eq!(c.log.lines().next(), Some("[100]"));
    assert_eq!(c.log.lines().last(), Some("[599]"));
}

// ----- graph -----

#[test]
fn graph_keeps_latest_values() {
    let mut g = GraphWindow::new();
    for i in 0..(MAX_VALUES as u32 + 5) {
        g.push_value(i);
    }
    assert_eq!(g.values.len(), MAX_VALUES);
    assert_eq!(g.values[0], 5);
    assert_eq!(*g.values.last().unwrap(), MAX_VALUES as u32 + 4);
}

// ----- window config -----

#[test]
fn window_config_default_places_layout_selector() {
    let c = WindowConfig::default();
    let expected = [80.0f32.to_bits(), 80.0f32.to_bits(), 320.0f32.to_bits(), 360.0f32.to_bits()];
    assert_eq!(LAYOUT_WINDOW_LAYOUTS_FALLBACK, expected);
    assert_eq!(c.rect(PanelId::WindowLayouts), expected);
    assert_eq!(c.rect(PanelId::Console), [0; 4]);
    assert_eq!(c.selected_layout_idx, 0);
    assert!(c.layout_locked);
    assert!(!c.all_panels_placed());
}

#[test]
fn window_config_reads_back_what_was_written() {
    let mut c = WindowConfig::default();
    c.update_panel_rect(PanelId::Graph, [1, 2, 3, 4]);
    assert_eq!(c.rect(PanelId::Graph), [1, 2, 3, 4]);
    assert_eq!(c.rect(PanelId::WindowLayouts), LAYOUT_WINDOW_LAYOUTS_FALLBACK);
    c.update_panel_rect(PanelId::Graph, [5, 6, 7, 8]);
    assert_eq!(c.rect(PanelId::Graph), [5, 6, 7, 8]);
}

#[test]
fn window_config_applies_a_layout() {
    let mut c = WindowConfig::default();
    let ids = [
        PanelId::Console,
        PanelId::Field,
        PanelId::FieldPlayback,
        PanelId::Graph,
        PanelId::RawPlayback,
        PanelId::RawSerial,
        PanelId::SerialSettings,
        PanelId::WindowLayouts,
    ];
    let rects: Vec<(PanelId, [u32; 4])> = ids.iter().enumerate().map(|(i, id)| (*id, [i as u32; 4])).collect();
    c.apply_scaled_layout(1, &rects);
    assert_eq!(c.selected_layout_idx, 1);
    assert!(c.all_panels_placed());
    assert_eq!(c.rect(PanelId::WindowLayouts), [7; 4]);
    assert_eq!(c.rect(PanelId::Console), [0; 4]);
    assert_eq!(c.rect(PanelId::RawSerial), [5; 4]);
}

// ----- raw serial -----

#[test]
fn raw_serial_keeps_latest_per_robot() {
    let mut w = RawSerialWindow::new();
    assert!(w.latest_bot0.is_none() && w.latest_bot1.is_none());
    w.record_state(state(1, 7));
    w.record_state(state(0, 3));
    w.record_state(state(-1, 9));
    w.record_state(state(5, 9));
    w.record_state(state(0, 4));
    assert_eq!(w.latest_bot0.as_ref().unwrap().game.flags, 4);
    assert_eq!(w.latest_bot1.as_ref().unwrap().game.flags, 7);
}

fn pairs(v: &[(&str, &str)]) -> Vec<(String, String)> {
    v.iter().map(|(a, b)| (a.to_string(), b.to_string())).collect()
}

#[test]
fn field_table_merges_sorted_labels() {
    let f0 = pairs(&[("b", "1"), ("a", "2"), ("b", "3")]);
    let f1 = pairs(&[("c", "x"), ("a", "y")]);
    let rows = field_table(Some(&f0), Some(&f1));
    let expected: Vec<(String, String, String)> = [("a", "2", "y"), ("b", "1", "-"), ("c", "-", "x")]
        .iter()
        .map(|(a, b, c)| (a.to_string(), b.to_string(), c.to_string()))
        .collect();
    assert_eq!(rows, expected);
    let only1 = field_table(None, Some(&f1));
    assert_eq!(only1[0], ("a".to_string(), "-".to_string(), "y".to_string()));
    assert!(field_table(None, None).is_empty());
}

#[test]
fn find_value_takes_the_first_match() {
    let f = pairs(&[("k", "first"), ("k", "second")]);
    assert_eq!(find_value(&f, &"k".to_string()), Some("first".to_string()));
    assert_eq!(find_value(&f, &"z".to_string()), None);
}

// ----- raw playback -----

#[test]
fn raw_playback_shows_latest_packets_up_to_playhead() {
    let _w = RawPlaybackWindow::new();
    let frames = vec![frame(0, 1), frame(1, 2), frame(0, 3), frame(1, 4), frame(0, 5)];
    let snap = PlaybackSnapshot { playback_states: frames.clone(), playhead: 2 };
    let (b0, b1) = snap.latest_bots();
    assert_eq!(b0.unwrap().game.flags, 3);
    assert_eq!(b1.unwrap().game.flags, 2);
    let snap = PlaybackSnapshot { playback_states: frames.clone(), playhead: 99 };
    let (b0, b1) = snap.latest_bots();
    assert_eq!(b0.unwrap().game.flags, 5);
    assert_eq!(b1.unwrap().game.flags, 4);
    let snap = PlaybackSnapshot { playback_states: frames, playhead: 0 };
    assert!(snap.latest_bots().1.is_none());
}

// ----- replay panel -----

#[test]
fn replay_scan_filters_and_sorts() {
    let mut p = PlaybackWindow::new();
    let listing = strings(&["b.json", "notes.txt", "a.json", "c.json.bak"]);
    assert_eq!(filter_replay_names(&listing), strings(&["b.json", "a.json"]));
    assert!(p.apply_scan(Some(listing.clone())));
    assert_eq!(p.replay_files, strings(&["a.json", "b.json"]));
    assert_eq!(p.selected_replay_idx, 0);
    p.selected_replay_idx = 1;
    assert!(!p.apply_scan(Some(listing)));
    assert_eq!(p.selected_replay_idx, 1);
}

#[test]
fn replay_scan_of_unreadable_directory_reports_it() {
    let mut p = PlaybackWindow::new();
    p.apply_scan(Some(strings(&["a.json"])));
    p.finish_load(Ok(vec![frame(0, 1)]));
    assert!(!p.apply_scan(None));
    assert!(p.replay_files.is_empty());
    assert!(p.playback_states.is_empty());
    assert_eq!(p.playback_error.as_deref(), Some("Could not read /replays directory"));
}

#[test]
fn replay_load_paths_and_errors() {
    let mut p = PlaybackWindow::new();
    assert_eq!(p.start_load(), None);
    assert_eq!(p.playback_error.as_deref(), Some("No replay files found"));
    p.apply_scan(Some(strings(&["x.json", "w.json"])));
    p.selected_replay_idx = 1;
    assert_eq!(p.start_load(), Some("replays/x.json".to_string()));
    p.finish_load(Err(LoadFailure::Parse("EOF while parsing".to_string())));
    assert_eq!(p.playback_error.as_deref(), Some("Failed to parse replay: EOF while parsing"));
    p.finish_load(Err(LoadFailure::Open("not found".to_string())));
    assert_eq!(p.playback_error.as_deref(), Some("Failed to open replay: not found"));
    p.playing = true;
    p.playhead = 3;
    p.finish_load(Ok(vec![frame(0, 1), frame(1, 2)]));
    assert_eq!(p.playhead, 0);
    assert!(!p.playing);
    assert!(p.playback_error.is_none());
    assert_eq!(p.playback_states.len(), 2);
}

#[test]
fn replay_controls_keep_playhead_on_a_frame() {
    let mut p = PlaybackWindow::new();
    p.finish_load(Ok(vec![frame(0, 1), frame(1, 2), frame(0, 3)]));
    assert!(!p.step_back());
    assert!(p.step_forward());
    assert!(p.step_forward());
    assert!(!p.step_forward());
    assert_eq!(p.playhead, 2);
    assert!(p.step_back());
    assert_eq!(p.playhead, 1);
    p.seek(7);
    p.clamp_playhead();
    assert_eq!(p.playhead, 2);
    p.finish_load(Ok(vec![]));
    p.playhead = 4;
    p.playing = true;
    p.clamp_playhead();
    assert_eq!(p.playhead, 0);
    assert!(!p.playing);
}

#[test]
fn replay_advances_and_stops_at_the_end() {
    let mut p = PlaybackWindow::new();
    p.finish_load(Ok(vec![frame(0, 1), frame(1, 2), frame(0, 3)]));
    p.playing = true;
    assert!(p.advance_due());
    p.advance(false);
    assert_eq!(p.playhead, 0);
    assert!(p.playing);
    p.advance(true);
    assert_eq!(p.playhead, 1);
    assert!(p.playing);
    p.advance(true);
    assert_eq!(p.playhead, 2);
    assert!(!p.playing);
    assert!(!p.advance_due());
}

#[test]
fn replay_mode_and_export() {
    let mut p = PlaybackWindow::new();
    p.finish_load(Ok(vec![frame(0, 1), frame(1, 2), frame(0, 3), frame(1, 4)]));
    p.seek(2);
    assert_eq!(p.latest_state_for_bot(0).unwrap().game.flags, 3);
    assert_eq!(p.latest_state_for_bot(1).unwrap().game.flags, 2);
    assert!(p.latest_state_for_bot(7).is_none());
    assert_eq!(p.export_state().unwrap().game.flags, 3);
    p.select_mode(VisualizationMode::Bot1);
    assert_eq!(p.authoritative_bot, 1);
    assert_eq!(p.export_state().unwrap().game.flags, 2);
    p.select_mode(VisualizationMode::BothBots);
    assert_eq!(p.authoritative_bot, 1);
    assert_eq!(p.export_state().unwrap().game.flags, 2);
    p.authoritative_bot = 2;
    assert!(p.export_state().is_none());
}

// ----- live field -----

#[test]
fn field_routes_packets_by_robot() {
    let w = FieldWindow::new(RobotState::default());
    assert!(w.robot_state_0.is_some() && w.robot_state_1.is_none());
    let mut w = FieldWindow::new(state(1, 2));
    assert!(w.robot_state_0.is_none());
    w.on_new_state(state(0, 5));
    w.on_new_state(state(3, 6));
    assert_eq!(w.robot_state_0.as_ref().unwrap().game.flags, 5);
    assert_eq!(w.robot_state_1.as_ref().unwrap().game.flags, 2);
    assert!(!w.is_logging);
}

#[test]
fn field_export_follows_mode() {
    let mut w = FieldWindow::new(state(0, 1));
    w.on_new_state(state(1, 2));
    assert_eq!(w.export_state().unwrap().game.flags, 1);
    w.select_mode(FieldMode::Bot1);
    assert_eq!(w.export_state().unwrap().game.flags, 2);
    w.select_mode(FieldMode::BothBots);
    assert_eq!(w.authoritative_bot, 1);
    w.authoritative_bot = 0;
    assert_eq!(w.export_state().unwrap().game.flags, 1);
}

// ----- serial settings -----

#[test]
fn serial_settings_start_disconnected() {
    let s = SerialSettingsWindow::new(strings(&["/dev/ttyUSB0"]));
    assert_eq!(s.baud, DEFAULT_BAUD);
    assert_eq!(s.baud, 115200);
    assert_eq!(s.status, SerialStatus::Disconnected);
    assert_eq!(SerialStatus::default(), SerialStatus::Disconnected);
    assert!(!s.connect_enabled());
    assert!(!s.disconnect_enabled());
}

#[test]
fn serial_settings_baud_text() {
    let mut s = SerialSettingsWindow::new(vec![]);
    s.set_baud_text("9600");
    assert_eq!(s.baud, 9600);
    s.set_baud_text("96k");
    assert_eq!(s.baud, 9600);
    s.set_baud_text("");
    assert_eq!(s.baud, 9600);
    s.set_baud_text("+57600");
    assert_eq!(s.baud, 57600);
}

#[test]
fn serial_settings_connect_and_disconnect_requests() {
    let mut s = SerialSettingsWindow::new(strings(&["COM3"]));
    assert!(!s.request_connect());
    s.selected_port = Some("COM3".to_string());
    s.refresh_ports(strings(&["COM3", "COM4"]));
    assert_eq!(s.port_candidates.len(), 2);
    assert!(s.request_connect());
    assert_eq!(s.status, SerialStatus::Connecting);
    assert_eq!(s.pending_connect, Some(("COM3".to_string(), 115200)));
    assert!(!s.request_connect());
    s.on_connect_result("COM3", false);
    assert_eq!(s.status, SerialStatus::Error);
    assert_eq!(s.error_message.as_deref(), Some("Failed to open port: COM3"));
    s.on_connect_result("COM3", true);
    assert_eq!(s.status, SerialStatus::Connected);
    assert!(s.error_message.is_none());
    assert!(s.disconnect_enabled());
    assert!(s.request_disconnect());
    assert_eq!(s.status, SerialStatus::Disconnected);
    assert!(s.pending_disconnect);
    assert!(!s.request_disconnect());
}

#[test]
fn layout_window_is_stateless() {
    let _l = LayoutWindow::new();
}
