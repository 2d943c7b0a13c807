use soccer_tool::serial::parser::packet_text;
use soccer_tool::serial::reader::{next_step, ReadOutcome, ReadStep};

#[test]
fn packet_text_keeps_trimmed_json_objects() {
    assert_eq!(packet_text("  {\"esp_now_bot_id\":1}\r\n"), Some("{\"esp_now_bot_id\":1}".to_string()));
    assert_eq!(packet_text("{"), Some("{".to_string()));
}

#[test]
fn packet_text_skips_other_lines() {
    assert_eq!(packet_text(""), None);
    assert_eq!(packet_text("   \r\n"), None);
    assert_eq!(packet_text("boot: ok {"), None);
    assert_eq!(packet_text("[1,2]"), None);
}

#[test]
fn reader_delivers_lines_without_line_ending() {
    match next_step(ReadOutcome::Line("{\"a\":1}\r\n".to_string())) {
        ReadStep::Deliver(l) => assert_eq!(l, "{\"a\":1}"),
        _ => panic!("expected a line"),
    }
}

#[test]
fn reader_continues_or_stops() {
    assert!(matches!(next_step(ReadOutcome::Empty), ReadStep::Continue));
    assert!(matches!(next_step(ReadOutcome::TimedOut), ReadStep::Continue));
    assert!(matches!(next_step(ReadOutcome::Failed), ReadStep::Stop));
}
