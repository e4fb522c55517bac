use serial_monitor::data::{ConnectionConfig, SerialMonitorData};
use serial_monitor::monitor::{SerialMonitorApp, STORED_LINES};
use serial_monitor::serial_parser::ParseError;
use serial_monitor::serial_reader::{Line, SerialConfig, StartMode};
use serial_monitor::notify::{Notification, NotificationType};

fn fresh() -> SerialMonitorApp {
    SerialMonitorApp::new(SerialMonitorData::default())
}

fn line(t: u64, content: &[u8]) -> Line {
    Line { t, content: content.to_vec() }
}

#[test]
fn scenario_schema_mismatch_appends_nothing() {
    // lines "1.0, 2.0", "1.5, 2.5", "2.0, bad": the schema settles at
    // two columns, the third line is a mismatch and reaches no series
    let mut app = fresh();
    assert_eq!(app.handle_record(&line(0, b"1.0, 2.0")), None);
    assert_eq!(app.handle_record(&line(500, b"1.5, 2.5")), None);
    let warn = app.handle_record(&line(1000, b"2.0, bad"));
    assert_eq!(warn, Some(ParseError::ColumnMismatch(2, 1)));
    assert_eq!(app.input_columns(), 2);
    let values = app.raw_values();
    assert_eq!(values.len(), 2);
    assert_eq!(values[0].len(), 2);
    assert_eq!(values[1].len(), 2);
    assert_eq!(values[0][0].v, 1000);
    assert_eq!(values[0][1].v, 1500);
    assert_eq!(values[1][0].v, 2000);
    assert_eq!(values[1][1].v, 2500);
    // the mismatching raw line still reaches the console
    assert_eq!(app.console_lines().len(), 3);
}

#[test]
fn paused_session_drops_records_whole() {
    let mut app = fresh();
    app.set_paused(true);
    assert_eq!(app.handle_record(&line(0, b"1,2")), None);
    assert_eq!(app.input_columns(), 0);
    assert!(app.raw_values().is_empty());
    assert!(app.console_lines().is_empty());
    app.set_paused(false);
    app.handle_record(&line(0, b"1,2"));
    assert_eq!(app.input_columns(), 2);
}

#[test]
fn console_log_caps_at_stored_lines() {
    let mut app = fresh();
    for k in 0..(STORED_LINES + 10) {
        app.handle_input_line(k as u64, &b"x".to_vec());
    }
    assert_eq!(app.console_lines().len(), STORED_LINES);
    // the oldest lines were evicted first
    assert_eq!(app.console_lines()[0].t, 10);
    assert_eq!(app.console_lines()[STORED_LINES - 1].t, (STORED_LINES + 9) as u64);
}

#[test]
fn growing_tuples_grow_the_store_without_placeholders() {
    let mut app = fresh();
    app.handle_input(0, &vec![1]);
    app.handle_input(1, &vec![2, 20]);
    let values = app.raw_values();
    assert_eq!(values.len(), 2);
    assert_eq!(values[0].len(), 2);
    // the late series starts at its first observation; nothing is
    // backfilled
    assert_eq!(values[1].len(), 1);
    assert_eq!(values[1][0].t, 1);
}

#[test]
fn slots_are_created_lazily_with_default_names() {
    let mut app = fresh();
    app.handle_record(&line(0, b"7.5, 8.5, 9.5"));
    app.prep_input_slots(app.input_columns());
    let slots = app.input_slots();
    assert_eq!(slots.len(), 3);
    assert_eq!(slots[0].name, b"Slot 1".to_vec());
    assert_eq!(slots[2].name, b"Slot 3".to_vec());
    assert_eq!(slots[0].index, 0);
    assert_eq!(slots[0].hue, 0);
    assert_eq!(slots[1].hue, 150);
    assert_eq!(slots[2].hue, 300);
    assert_eq!(slots[0].value, 7500);
    assert_eq!(slots[1].value, 8500);
    assert_eq!(slots[2].value, 9500);
}

#[test]
fn slot_values_follow_the_latest_sample() {
    let mut app = fresh();
    app.handle_record(&line(0, b"1"));
    app.prep_input_slots(app.input_columns());
    assert_eq!(app.input_slots()[0].value, 1000);
    app.handle_record(&line(10, b"2"));
    app.prep_input_slots(app.input_columns());
    assert_eq!(app.input_slots()[0].value, 2000);
}

#[test]
fn hue_wraps_around_the_circle() {
    let mut app = fresh();
    app.prep_input_slots(8);
    let slots = app.input_slots();
    assert_eq!(slots[6].hue, 900);
    assert_eq!(slots[7].hue, 50);
}

#[test]
fn plots_get_distinct_ascending_ids() {
    let mut app = fresh();
    app.add_plot();
    app.add_plot();
    app.add_console();
    app.add_plot();
    let plots = app.plots();
    assert_eq!(plots.len(), 4);
    assert_eq!(plots[0].name, b"Plot 1".to_vec());
    assert_eq!(plots[1].name, b"Plot 2".to_vec());
    // the new plot is inserted before the console
    assert_eq!(plots[2].name, b"Plot 3".to_vec());
    assert!(plots[3].console);
    let mut ids: Vec<usize> = plots.iter().map(|p| p.id).collect();
    ids.sort();
    ids.dedup();
    assert_eq!(ids.len(), 4);
}

#[test]
fn second_console_is_refused() {
    let mut app = fresh();
    app.add_console();
    app.add_console();
    assert_eq!(app.plots().len(), 1);
}

#[test]
fn reset_console_clears_the_log() {
    let mut app = fresh();
    app.add_console();
    app.handle_input_line(0, &b"x".to_vec());
    assert_eq!(app.console_lines().len(), 1);
    app.reset_plot(0);
    assert!(app.console_lines().is_empty());
}

#[test]
fn remove_plot_drops_exactly_one() {
    let mut app = fresh();
    app.add_plot();
    app.add_plot();
    let keep = app.plots()[1].id;
    app.remove_plot(0);
    assert_eq!(app.plots().len(), 1);
    assert_eq!(app.plots()[0].id, keep);
}

#[test]
fn load_config_reseeds_the_id_counter() {
    let mut app = fresh();
    let mut config = SerialMonitorData::default();
    let mut donor = fresh();
    donor.add_plot();
    donor.add_plot();
    config.plots = donor.plots().clone();
    let top = config.plots.iter().map(|p| p.id).max().unwrap();
    app.load_config(config);
    app.add_plot();
    let new_id = app.plots().iter().map(|p| p.id).max().unwrap();
    assert!(new_id > top);
}

#[test]
fn disconnect_resets_schema_store_and_pause() {
    let mut app = fresh();
    let conn = ConnectionConfig::default();
    let serial = SerialConfig::from(conn.clone());
    let mut reader = serial_monitor::serial_reader::SerialReader::new(serial);
    assert_eq!(reader.open_precheck(), Ok(()));
    reader.set_opened();
    assert_eq!(reader.begin_read_precheck(), Ok(()));
    reader.set_reading();
    app.attach_reader(reader);
    assert!(app.is_connected());
    app.handle_record(&line(0, b"1,2"));
    app.handle_input_line(0, &b"raw".to_vec());
    app.set_paused(true);
    app.disconnect_current();
    assert!(!app.is_connected());
    assert_eq!(app.input_columns(), 0);
    assert!(app.raw_values().is_empty());
    assert!(!app.is_paused());
    // the console log survives a disconnect
    assert!(!app.console_lines().is_empty());
}

#[test]
fn start_mode_derives_from_config_fields() {
    let mut conn = ConnectionConfig::default();
    conn.start_delay = 2500;
    conn.start_mode = StartMode::Delay(0);
    assert_eq!(StartMode::from(conn.clone()), StartMode::Delay(2500));
    conn.start_mode = StartMode::Message(Vec::new());
    conn.start_msg = b"begin".to_vec();
    assert_eq!(
        StartMode::from(conn.clone()),
        StartMode::Message(b"begin".to_vec())
    );
    conn.start_mode = StartMode::Immediate;
    assert_eq!(StartMode::from(conn.clone()), StartMode::Immediate);
}

#[test]
fn missing_port_resets_to_placeholder() {
    let mut app = fresh();
    app.data.conn_config.port = String::from("/dev/ttyACM3");
    assert!(app.can_connect());
    let devices = vec![String::from("/dev/ttyUSB0")];
    assert!(app.reset_port_if_missing(&devices));
    assert!(!app.can_connect());
    assert_eq!(app.data.conn_config.port, "-");
    // a listed port stays selected
    app.data.conn_config.port = String::from("/dev/ttyUSB0");
    assert!(!app.reset_port_if_missing(&devices));
    assert!(app.can_connect());
}

#[test]
fn notifications_expire_after_their_duration() {
    let n = Notification::new("port gone", 5000, NotificationType::Error);
    assert!(!n.is_expired(0));
    assert!(!n.is_expired(5000));
    assert!(n.is_expired(5001));
    assert_eq!(n.text, "port gone");
}

#[test]
fn slot_names_carry_two_digit_numbers() {
    let mut app = fresh();
    app.prep_input_slots(12);
    assert_eq!(app.input_slots()[9].name, b"Slot 10".to_vec());
    assert_eq!(app.input_slots()[11].name, b"Slot 12".to_vec());
}

#[test]
fn defaults_match_the_documented_session_start() {
    let data = SerialMonitorData::default();
    assert_eq!(data.conn_config.port, "-");
    assert_eq!(data.conn_config.baud_rate, 9600);
    assert_eq!(data.conn_config.data_bits, 8);
    assert_eq!(data.conn_config.stop_bits, 1);
    assert!(data.conn_config.dtr);
    assert_eq!(data.conn_config.start_mode, StartMode::Delay(0));
    assert_eq!(data.conn_config.start_delay, 1000);
    assert_eq!(data.conn_config.start_msg, b"Start".to_vec());
    assert_eq!(data.plot_config.window, 5000);
    assert_eq!(data.plot_config.y_min, 0);
    assert_eq!(data.plot_config.y_max, 1000);
}
