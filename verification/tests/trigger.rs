use serial_monitor::serial_reader::{
    FrameStep, Line, LineFramer, ReadEvent, SerialConfig, SerialError, SerialReader, StartMode,
    TriggerState, WorkerOutput, FlowCtrl, Parity,
};

fn record(bytes: &[u8]) -> ReadEvent {
    ReadEvent::Record(bytes.to_vec())
}

fn config(data_bits: u8, stop_bits: u8) -> SerialConfig {
    SerialConfig {
        port: String::from("/dev/ttyUSB0"),
        baud_rate: 9600,
        data_bits,
        parity: Parity::Off,
        stop_bits,
        flow_ctrl: FlowCtrl::Off,
        timeout_ms: 50,
    }
}

#[test]
fn immediate_reports_every_record_at_elapsed_time() {
    let mut st = TriggerState::new();
    let mode = StartMode::Immediate;
    let out = serial_monitor::serial_reader::worker_step(&mut st, &mode, 0, record(b"a\r"));
    assert_eq!(out, WorkerOutput::Emit(Line { t: 0, content: b"a".to_vec() }));
    let out = serial_monitor::serial_reader::worker_step(&mut st, &mode, 7, record(b"b"));
    assert_eq!(out, WorkerOutput::Emit(Line { t: 7, content: b"b".to_vec() }));
}

#[test]
fn immediate_timestamps_non_decreasing() {
    let mut st = TriggerState::new();
    let mode = StartMode::Immediate;
    let mut last = 0;
    for (t, text) in [(3u64, "x"), (3, "y"), (9, "z")] {
        match serial_monitor::serial_reader::worker_step(&mut st, &mode, t, record(text.as_bytes()))
        {
            WorkerOutput::Emit(line) => {
                assert!(line.t >= last);
                last = line.t;
            }
            other => panic!("expected an emitted line, got {:?}", other),
        }
    }
}

#[test]
fn delay_scenario_reports_adjusted_times() {
    // Delay(1000 ms); records at 500, 1200 and 1800 ms: only the
    // latter two are reported, at 200 and 800 ms.
    let mut st = TriggerState::new();
    let mode = StartMode::Delay(1000);
    let out = serial_monitor::serial_reader::worker_step(&mut st, &mode, 500, record(b"one"));
    assert_eq!(out, WorkerOutput::Skip);
    let out = serial_monitor::serial_reader::worker_step(&mut st, &mode, 1200, record(b"two"));
    assert_eq!(out, WorkerOutput::Emit(Line { t: 200, content: b"two".to_vec() }));
    let out = serial_monitor::serial_reader::worker_step(&mut st, &mode, 1800, record(b"three"));
    assert_eq!(out, WorkerOutput::Emit(Line { t: 800, content: b"three".to_vec() }));
}

#[test]
fn message_trigger_withholds_the_triggering_line() {
    let mut st = TriggerState::new();
    let mode = StartMode::Message(b"go!".to_vec());
    let out = serial_monitor::serial_reader::worker_step(&mut st, &mode, 10, record(b"warmup"));
    assert_eq!(out, WorkerOutput::Skip);
    let out = serial_monitor::serial_reader::worker_step(&mut st, &mode, 20, record(b"now go!\r"));
    assert_eq!(out, WorkerOutput::Skip);
    let out = serial_monitor::serial_reader::worker_step(&mut st, &mode, 30, record(b"data"));
    assert_eq!(out, WorkerOutput::Emit(Line { t: 30, content: b"data".to_vec() }));
}

#[test]
fn read_failure_is_fatal() {
    let mut st = TriggerState::new();
    let mode = StartMode::Immediate;
    let out = serial_monitor::serial_reader::worker_step(
        &mut st,
        &mode,
        5,
        ReadEvent::Failed(String::from("device unplugged")),
    );
    assert_eq!(
        out,
        WorkerOutput::Stop(SerialError::ReadError(String::from("device unplugged")))
    );
}

#[test]
fn zero_length_record_ends_the_stream() {
    let mut st = TriggerState::new();
    let mode = StartMode::Immediate;
    match serial_monitor::serial_reader::worker_step(&mut st, &mode, 5, record(b"")) {
        WorkerOutput::Stop(SerialError::ReadError(_)) => {}
        other => panic!("expected a fatal stop, got {:?}", other),
    }
}

#[test]
fn framer_assembles_lines_and_rejects_non_ascii() {
    let mut f = LineFramer::new();
    assert_eq!(f.push_byte(b'h'), FrameStep::Pending);
    assert_eq!(f.push_byte(b'i'), FrameStep::Pending);
    assert_eq!(f.push_byte(b'\r'), FrameStep::Pending);
    assert_eq!(f.push_byte(b'\n'), FrameStep::Complete(b"hi\r".to_vec()));
    // the buffer restarts after a completed record
    assert_eq!(f.push_byte(b'\n'), FrameStep::Complete(b"".to_vec()));
    assert_eq!(f.push_byte(0x80), FrameStep::NonText);
}

#[test]
fn open_checks_reject_bad_framing_and_double_open() {
    let reader = SerialReader::new(config(9, 1));
    assert_eq!(reader.open_precheck(), Err(SerialError::UnsupportedDataBits(9)));
    let reader = SerialReader::new(config(8, 3));
    assert_eq!(reader.open_precheck(), Err(SerialError::UnsupportedStopBits(3)));
    let mut reader = SerialReader::new(config(8, 1));
    assert_eq!(reader.open_precheck(), Ok(()));
    assert!(!reader.is_open());
    reader.set_opened();
    assert!(reader.is_open());
    assert_eq!(reader.open_precheck(), Err(SerialError::AlreadyOpen));
}

#[test]
fn begin_read_needs_an_open_port_and_one_worker() {
    let mut reader = SerialReader::new(config(8, 1));
    assert_eq!(reader.begin_read_precheck(), Err(SerialError::PortNotOpen));
    reader.set_opened();
    assert_eq!(reader.begin_read_precheck(), Ok(()));
    reader.set_reading();
    assert!(reader.is_open());
    assert_eq!(reader.begin_read_precheck(), Err(SerialError::AlreadyReading));
    assert_eq!(reader.open_precheck(), Err(SerialError::AlreadyOpen));
    reader.set_stopped();
    assert!(!reader.is_open());
}

#[test]
fn message_suffix_matches_after_trimming() {
    // the record is trimmed before the suffix test, so a trailing
    // carriage return does not defeat the trigger
    let mut st = TriggerState::new();
    let mode = StartMode::Message(b"done".to_vec());
    let out = serial_monitor::serial_reader::worker_step(&mut st, &mode, 1, record(b"all done\r"));
    assert_eq!(out, WorkerOutput::Skip);
    let out = serial_monitor::serial_reader::worker_step(&mut st, &mode, 2, record(b"1,2"));
    assert_eq!(out, WorkerOutput::Emit(Line { t: 2, content: b"1,2".to_vec() }));
}

#[test]
fn empty_message_triggers_on_the_first_record() {
    let mut st = TriggerState::new();
    let mode = StartMode::Message(Vec::new());
    let out = serial_monitor::serial_reader::worker_step(&mut st, &mode, 1, record(b"x"));
    assert_eq!(out, WorkerOutput::Skip);
    let out = serial_monitor::serial_reader::worker_step(&mut st, &mode, 2, record(b"y"));
    assert_eq!(out, WorkerOutput::Emit(Line { t: 2, content: b"y".to_vec() }));
}
