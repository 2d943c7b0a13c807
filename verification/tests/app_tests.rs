use soccer_tool::app::{initial_serial_enabled, serial_enabled_after, take_serial_actions, SerialAction};
use soccer_tool::widgets::console::ConsoleWindow;
use soccer_tool::widgets::field::FieldWindow;
use soccer_tool::widgets::graph::{GraphWindow, MAX_SAMPLES};
use soccer_tool::windows::serial_settings::SerialSettingsWindow;

#[test]
fn serial_actions_come_in_order_and_are_cleared() {
    let mut s = SerialSettingsWindow::new(vec![]);
    s.pending_connect = Some(("ttyACM0".to_string(), 9600));
    s.pending_disconnect = true;
    let up = take_serial_actions(true, &mut s);
    assert_eq!(up.len(), 1);
    assert!(matches!(up[0], SerialAction::Disconnect));
    assert!(s.pending_connect.is_some() && !s.pending_disconnect);
    assert!(take_serial_actions(true, &mut s).is_empty());
    s.pending_disconnect = true;
    let actions = take_serial_actions(false, &mut s);
    assert_eq!(actions.len(), 2);
    match &actions[0] {
        SerialAction::Connect { port, baud } => {
            assert_eq!(port, "ttyACM0");
            assert_eq!(*baud, 9600);
        }
        SerialAction::Disconnect => panic!("connect comes first"),
    }
    assert!(matches!(actions[1], SerialAction::Disconnect));
    assert!(s.pending_connect.is_none() && !s.pending_disconnect);
    assert!(take_serial_actions(false, &mut s).is_empty());
}

#[test]
fn link_state_follows_actions() {
    let c = SerialAction::Connect { port: "p".to_string(), baud: 1 };
    assert!(serial_enabled_after(false, &c, true));
    assert!(!serial_enabled_after(false, &c, false));
    assert!(!serial_enabled_after(true, &SerialAction::Disconnect, true));
    assert!(!initial_serial_enabled(true, true));
    assert!(initial_serial_enabled(false, true));
    assert!(!initial_serial_enabled(false, false));
}

#[test]
fn widget_console_logs() {
    let mut c = ConsoleWindow::new();
    assert_eq!(c.logs, vec!["Console started", "Robot connected", "Ball detected"]);
    c.log("kick".to_string());
    assert_eq!(c.logs.last().unwrap(), "kick");
    assert_eq!(c.title(), "Console");
    *c.open() = false;
    assert!(!c.open);
}

#[test]
fn widget_field_and_graph() {
    let mut f = FieldWindow::new();
    assert_eq!(f.title(), "Soccer Field");
    *f.open() = false;
    assert!(!f.open);
    let mut g = GraphWindow::new();
    assert_eq!(g.title(), "Graph");
    g.push(1);
    for i in 0..(MAX_SAMPLES as u64 + 10) {
        g.record_sample(i);
    }
    assert_eq!(g.values.len(), MAX_SAMPLES);
    assert_eq!(*g.values.last().unwrap(), MAX_SAMPLES as u64 + 9);
    assert_eq!(g.values[0], 10);
    *g.open() = false;
    assert!(!g.open);
}
