//! Line reader core: the logical state of one serial connection, the
//! per-byte line framer, and the start-trigger state machine that the
//! background worker drives.
//!
//! The frontend owns the physical device handle and the worker thread;
//! this module owns every decision they take. The reader state machine
//! says when opening and reading may begin and which error is returned
//! otherwise. The framer turns raw bytes into newline-terminated
//! records. The trigger machine decides, record by record, whether a
//! record is reported, silently discarded, or fatal, and with which
//! adjusted timestamp a reported record is stamped.

use vstd::prelude::*;
use crate::text::{ends_with, ends_with_bytes, trim_bytes, trimmed};

verus! {

/// Failures of the line reader, from configuration checks to fatal
/// stream errors.
#[derive(Debug, Clone, PartialEq, Eq)]
pub enum SerialError {
    UnsupportedDataBits(u8),
    UnsupportedStopBits(u8),
    OpenError(String),
    WriteDtrError,
    PortNotOpen,
    AlreadyOpen,
    AlreadyReading,
    ReadError(String),
}

/// Parity setting of a connection.
#[derive(Clone, Copy, Debug, PartialEq, Eq, Structural)]
pub enum Parity {
    Off,
    Odd,
    Even,
}

/// Flow control setting of a connection.
#[derive(Clone, Copy, Debug, PartialEq, Eq, Structural)]
pub enum FlowCtrl {
    Off,
    Software,
    Hardware,
}

/// Start-trigger policy: report from the first record, only once a
/// delay in milliseconds has elapsed, or only after a record ending
/// with a given message has been observed.
#[derive(Debug, Clone, PartialEq, Eq)]
pub enum StartMode {
    Immediate,
    Delay(u64),
    Message(Vec<u8>),
}

/// One accepted record: elapsed milliseconds relative to the trigger,
/// and the trimmed record content.
#[derive(Debug, Clone, PartialEq, Eq)]
pub struct Line {
    pub t: u64,
    pub content: Vec<u8>,
}

/// Parameters a connection is opened with.
#[derive(Debug, Clone, PartialEq, Eq)]
pub struct SerialConfig {
    pub port: String,
    pub baud_rate: u32,
    pub data_bits: u8,
    pub parity: Parity,
    pub stop_bits: u8,
    pub flow_ctrl: FlowCtrl,
    pub timeout_ms: u64,
}

/// Data bit counts the reader can open.
pub open spec fn data_bits_supported(b: u8) -> bool {
    5 <= b <= 8
}

/// Stop bit counts the reader can open.
pub open spec fn stop_bits_supported(b: u8) -> bool {
    b == 1 || b == 2
}

/// Logical state of one serial connection.
///
/// The frontend performs the physical open, read and close calls; this
/// state machine owns the rules: a handle is held after a successful
/// open, ownership moves to the worker while reading, and both are
/// released on teardown.
pub struct SerialReader {
    config: SerialConfig,
    port_open: bool,
    reading: bool,
}

impl SerialReader {
    /// A handle is currently held (and no worker runs).
    pub closed spec fn is_port_held(&self) -> bool {
        self.port_open
    }

    /// A worker currently owns the handle.
    pub closed spec fn is_reading(&self) -> bool {
        self.reading
    }

    /// The configuration this reader was created with.
    pub closed spec fn spec_config(&self) -> SerialConfig {
        self.config
    }

    /// A fresh reader: configured, nothing open, no worker.
    pub fn new(config: SerialConfig) -> (r: SerialReader)
        ensures
            !r.is_port_held(),
            !r.is_reading(),
            r.spec_config() == config,
    {
        SerialReader { config, port_open: false, reading: false }
    }

    /// A handle is held or a worker is running.
    pub fn is_open(&self) -> (r: bool)
        ensures
            r == (self.is_port_held() || self.is_reading()),
    {
        self.port_open || self.reading
    }

    /// Borrow the configuration, for the frontend's physical open call.
    pub fn config(&self) -> (r: &SerialConfig)
        ensures
            r == self.spec_config(),
    {
        &self.config
    }

    /// The checks `open` makes before any device call: refuse a second
    /// open and unsupported data or stop bits, in that order.
    pub fn open_precheck(&self) -> (r: Result<(), SerialError>)
        ensures
            self.is_port_held() || self.is_reading() ==> r == Err::<(), SerialError>(
                SerialError::AlreadyOpen,
            ),
            !self.is_port_held() && !self.is_reading() && !data_bits_supported(
                self.spec_config().data_bits,
            ) ==> r == Err::<(), SerialError>(
                SerialError::UnsupportedDataBits(self.spec_config().data_bits),
            ),
            !self.is_port_held() && !self.is_reading() && data_bits_supported(
                self.spec_config().data_bits,
            ) && !stop_bits_supported(self.spec_config().stop_bits) ==> r == Err::<
                (),
                SerialError,
            >(SerialError::UnsupportedStopBits(self.spec_config().stop_bits)),
            r is Ok <==> {
                &&& !self.is_port_held()
                &&& !self.is_reading()
                &&& data_bits_supported(self.spec_config().data_bits)
                &&& stop_bits_supported(self.spec_config().stop_bits)
            },
    {
        if self.port_open || self.reading {
            return Err(SerialError::AlreadyOpen);
        }
        let db = self.config.data_bits;
        if !(5 <= db && db <= 8) {
            return Err(SerialError::UnsupportedDataBits(db));
        }
        let sb = self.config.stop_bits;
        if !(sb == 1 || sb == 2) {
            return Err(SerialError::UnsupportedStopBits(sb));
        }
        Ok(())
    }

    /// Record that the physical open (and ready-signal write) succeeded:
    /// the handle is now held.
    pub fn set_opened(&mut self)
        requires
            !old(self).is_port_held(),
            !old(self).is_reading(),
            data_bits_supported(old(self).spec_config().data_bits),
            stop_bits_supported(old(self).spec_config().stop_bits),
        ensures
            final(self).is_port_held(),
            !final(self).is_reading(),
            final(self).spec_config() == old(self).spec_config(),
    {
        self.port_open = true;
    }

    /// The checks `begin_read` makes before spawning a worker: refuse a
    /// second worker, and reading without a held handle.
    pub fn begin_read_precheck(&self) -> (r: Result<(), SerialError>)
        ensures
            self.is_reading() ==> r == Err::<(), SerialError>(SerialError::AlreadyReading),
            !self.is_reading() && !self.is_port_held() ==> r == Err::<(), SerialError>(
                SerialError::PortNotOpen,
            ),
            r is Ok <==> (!self.is_reading() && self.is_port_held()),
    {
        if self.reading {
            return Err(SerialError::AlreadyReading);
        }
        if !self.port_open {
            return Err(SerialError::PortNotOpen);
        }
        Ok(())
    }

    /// Record that exactly one worker was spawned: it takes the handle
    /// for its lifetime.
    pub fn set_reading(&mut self)
        requires
            old(self).is_port_held(),
            !old(self).is_reading(),
        ensures
            final(self).is_reading(),
            !final(self).is_port_held(),
            final(self).spec_config() == old(self).spec_config(),
    {
        self.port_open = false;
        self.reading = true;
    }

    /// Record a completed teardown: the worker was joined and the
    /// handle released, so nothing is open any more.
    pub fn set_stopped(&mut self)
        ensures
            !final(self).is_reading(),
            !final(self).is_port_held(),
            final(self).spec_config() == old(self).spec_config(),
    {
        self.port_open = false;
        self.reading = false;
    }
}

/// Outcome of feeding one byte to the line framer.
#[derive(Debug, Clone, PartialEq, Eq)]
pub enum FrameStep {
    /// The record is still incomplete.
    Pending,
    /// A newline arrived: the completed record, without its newline.
    Complete(Vec<u8>),
    /// The byte is not ASCII text; the stream cannot be decoded.
    NonText,
}

/// Accumulates raw bytes into newline-terminated records, rejecting
/// non-ASCII bytes byte by byte.
pub struct LineFramer {
    buf: Vec<u8>,
}

impl LineFramer {
    /// Bytes accumulated for the record in progress.
    pub closed spec fn spec_buf(&self) -> Seq<u8> {
        self.buf@
    }

    /// An empty framer.
    pub fn new() -> (r: LineFramer)
        ensures
            r.spec_buf() == Seq::<u8>::empty(),
    {
        LineFramer { buf: Vec::new() }
    }

    /// Feed one raw byte: a newline completes the record, a non-ASCII
    /// byte is a decode failure, anything else accumulates.
    pub fn push_byte(&mut self, b: u8) -> (r: FrameStep)
        ensures
            b == 10 ==> {
                &&& r matches FrameStep::Complete(rec)
                &&& rec@ == old(self).spec_buf()
                &&& final(self).spec_buf() == Seq::<u8>::empty()
            },
            b != 10 && b >= 128 ==> r == FrameStep::NonText && final(self).spec_buf() == old(
                self,
            ).spec_buf(),
            b != 10 && b < 128 ==> r == FrameStep::Pending && final(self).spec_buf() == old(
                self,
            ).spec_buf().push(b),
    {
        if b == 10 {
            let mut rec: Vec<u8> = Vec::new();
            core::mem::swap(&mut rec, &mut self.buf);
            FrameStep::Complete(rec)
        } else if b >= 128 {
            FrameStep::NonText
        } else {
            self.buf.push(b);
            FrameStep::Pending
        }
    }
}

/// The delay a mode subtracts from elapsed time, in milliseconds.
pub open spec fn delay_of(mode: StartMode) -> int {
    match mode {
        StartMode::Delay(d) => d as int,
        _ => 0,
    }
}

/// The trigger state after observing one record: `Immediate` triggers
/// at once, `Delay` once the elapsed time reaches the delay, `Message`
/// once a trimmed record ends with the message; once triggered, a
/// session stays triggered.
pub open spec fn trig_after(mode: StartMode, started: bool, elapsed: int, line: Seq<u8>) -> bool {
    match mode {
        StartMode::Immediate => true,
        StartMode::Delay(d) => started || elapsed >= d,
        StartMode::Message(m) => started || ends_with(line, m@),
    }
}

/// Whether the record observed at this step is reported: under
/// `Message` the triggering record itself is withheld, otherwise the
/// record that triggers is already reported.
pub open spec fn emit_gate(mode: StartMode, started_before: bool, elapsed: int, line: Seq<u8>) -> bool {
    match mode {
        StartMode::Message(_) => started_before,
        _ => trig_after(mode, started_before, elapsed, line),
    }
}

/// Reported timestamp: elapsed time, shifted so that t = 0 falls on
/// the trigger time of a `Delay` mode.
pub open spec fn adjusted_time(mode: StartMode, elapsed: int) -> int {
    if elapsed >= delay_of(mode) {
        elapsed - delay_of(mode)
    } else {
        0
    }
}

/// Trigger state of one reading session.
#[derive(Clone, Copy, Debug, PartialEq, Eq, Structural)]
pub struct TriggerState {
    pub started: bool,
}

impl TriggerState {
    /// State at worker start: nothing triggered yet.
    pub fn new() -> (r: TriggerState)
        ensures
            !r.started,
    {
        TriggerState { started: false }
    }
}

/// What the frontend read for one worker iteration: a framed record,
/// or a read failure with its message.
#[derive(Debug, Clone, PartialEq, Eq)]
pub enum ReadEvent {
    Record(Vec<u8>),
    Failed(String),
}

/// The worker's decision for one iteration.
#[derive(Debug, Clone, PartialEq, Eq)]
pub enum WorkerOutput {
    /// Discard silently: the trigger has not fired.
    Skip,
    /// Report this record.
    Emit(Line),
    /// Report a fatal error and terminate the worker.
    Stop(SerialError),
}

/// One step of the worker loop: evaluate the trigger against the
/// record, then report, discard, or fail.
///
/// A read failure and a zero-length read are fatal. A record observed
/// before the trigger fires is silently discarded. A reported record
/// carries its trimmed content and the adjusted timestamp.
pub fn worker_step(st: &mut TriggerState, mode: &StartMode, elapsed_ms: u64, event: ReadEvent) -> (r:
    WorkerOutput)
    ensures
        event matches ReadEvent::Failed(msg) ==> *final(st) == *old(st) && r
            == WorkerOutput::Stop(SerialError::ReadError(msg)),
        event matches ReadEvent::Record(buf) ==> {
            &&& final(st).started == trig_after(
                *mode,
                old(st).started,
                elapsed_ms as int,
                trimmed(buf@),
            )
            &&& buf@.len() == 0 ==> {
                &&& r matches WorkerOutput::Stop(e)
                &&& e matches SerialError::ReadError(_)
            }
            &&& (buf@.len() > 0 && emit_gate(
                *mode,
                old(st).started,
                elapsed_ms as int,
                trimmed(buf@),
            )) ==> {
                &&& r matches WorkerOutput::Emit(l)
                &&& l.t == adjusted_time(*mode, elapsed_ms as int)
                &&& l.content@ == trimmed(buf@)
            }
            &&& (buf@.len() > 0 && !emit_gate(
                *mode,
                old(st).started,
                elapsed_ms as int,
                trimmed(buf@),
            )) ==> r == WorkerOutput::Skip
        },
{
    match event {
        ReadEvent::Failed(msg) => WorkerOutput::Stop(SerialError::ReadError(msg)),
        ReadEvent::Record(buf) => {
            let line = trim_bytes(buf.as_slice());
            let was = st.started;
            match mode {
                StartMode::Immediate => {
                    st.started = true;
                },
                StartMode::Delay(d) => {
                    if elapsed_ms >= *d {
                        st.started = true;
                    }
                },
                StartMode::Message(m) => {
                    if ends_with_bytes(line.as_slice(), m.as_slice()) {
                        st.started = true;
                    }
                },
            }
            let gate = match mode {
                StartMode::Message(_) => was,
                _ => st.started,
            };
            if buf.len() == 0 {
                WorkerOutput::Stop(SerialError::ReadError("end of stream".to_owned()))
            } else if gate {
                let d: u64 = match mode {
                    StartMode::Delay(d) => *d,
                    _ => 0,
                };
                let t = if elapsed_ms >= d {
                    elapsed_ms - d
                } else {
                    0
                };
                WorkerOutput::Emit(Line { t, content: line })
            } else {
                WorkerOutput::Skip
            }
        },
    }
}

/// Trigger state after a whole trace of worker iterations, each given
/// as (elapsed milliseconds, raw record bytes).
pub open spec fn run_started(mode: StartMode, steps: Seq<(int, Seq<u8>)>) -> bool
    decreases steps.len(),
{
    if steps.len() == 0 {
        false
    } else {
        trig_after(
            mode,
            run_started(mode, steps.drop_last()),
            steps.last().0,
            trimmed(steps.last().1),
        )
    }
}

/// The record of step `i` of the trace is reported.
pub open spec fn step_emits(mode: StartMode, steps: Seq<(int, Seq<u8>)>, i: int) -> bool {
    &&& 0 <= i < steps.len()
    &&& steps[i].1.len() > 0
    &&& emit_gate(mode, run_started(mode, steps.subrange(0, i)), steps[i].0, trimmed(steps[i].1))
}

/// The timestamp the record of step `i` is reported with.
pub open spec fn step_time(mode: StartMode, steps: Seq<(int, Seq<u8>)>, i: int) -> int {
    adjusted_time(mode, steps[i].0)
}

/// A worker trace is well formed when its elapsed times are
/// non-negative and non-decreasing, as a monotonic clock yields them.
pub open spec fn wf_trace(steps: Seq<(int, Seq<u8>)>) -> bool {
    &&& forall|i: int| 0 <= i < steps.len() ==> steps[i].0 >= 0
    &&& forall|i: int, j: int| 0 <= i <= j < steps.len() ==> steps[i].0 <= steps[j].0
}

/// Under `Immediate`, every reported timestamp is the raw elapsed time:
/// non-negative, and non-decreasing along the trace.
pub proof fn lemma_immediate_monotone(steps: Seq<(int, Seq<u8>)>, i: int, j: int)
    requires
        wf_trace(steps),
        0 <= i <= j,
        step_emits(StartMode::Immediate, steps, i),
        step_emits(StartMode::Immediate, steps, j),
    ensures
        step_time(StartMode::Immediate, steps, i) >= 0,
        step_time(StartMode::Immediate, steps, i) <= step_time(StartMode::Immediate, steps, j),
{
}

/// A `Delay` session is triggered exactly when some observed elapsed
/// time has reached the delay.
proof fn lemma_delay_started_iff(d: u64, steps: Seq<(int, Seq<u8>)>)
    ensures
        run_started(StartMode::Delay(d), steps) <==> exists|k: int|
            0 <= k < steps.len() && steps[k].0 >= d,
    decreases steps.len(),
{
    let mode = StartMode::Delay(d);
    if steps.len() > 0 {
        lemma_delay_started_iff(d, steps.drop_last());
        if run_started(mode, steps) {
            if steps.last().0 >= d {
                assert(steps[steps.len() - 1].0 >= d);
            } else {
                let k = choose|k: int|
                    0 <= k < steps.drop_last().len() && steps.drop_last()[k].0 >= d;
                assert(steps[k].0 >= d);
            }
        }
        if exists|k: int| 0 <= k < steps.len() && steps[k].0 >= d {
            let k = choose|k: int| 0 <= k < steps.len() && steps[k].0 >= d;
            if k < steps.len() - 1 {
                assert(steps.drop_last()[k].0 >= d);
            }
        }
    }
}

/// Under `Delay(d)`, no record with raw elapsed time below `d` is ever
/// reported, and a reported record's adjusted timestamp is its elapsed
/// time shifted by `d`, hence non-negative.
pub proof fn lemma_delay_trigger(d: u64, steps: Seq<(int, Seq<u8>)>, i: int)
    requires
        wf_trace(steps),
        step_emits(StartMode::Delay(d), steps, i),
    ensures
        steps[i].0 >= d,
        step_time(StartMode::Delay(d), steps, i) == steps[i].0 - d,
        step_time(StartMode::Delay(d), steps, i) >= 0,
{
    let mode = StartMode::Delay(d);
    let pre = steps.subrange(0, i);
    if !(steps[i].0 >= d) {
        assert(run_started(mode, pre));
        lemma_delay_started_iff(d, pre);
        let k = choose|k: int| 0 <= k < pre.len() && pre[k].0 >= d;
        assert(steps[k].0 >= d);
        assert(steps[k].0 <= steps[i].0);
    }
}

/// A `Message` session is triggered exactly when some observed trimmed
/// record ends with the message.
proof fn lemma_message_started_iff(m: Vec<u8>, steps: Seq<(int, Seq<u8>)>)
    ensures
        run_started(StartMode::Message(m), steps) <==> exists|k: int|
            0 <= k < steps.len() && ends_with(trimmed(steps[k].1), m@),
    decreases steps.len(),
{
    let mode = StartMode::Message(m);
    if steps.len() > 0 {
        lemma_message_started_iff(m, steps.drop_last());
        if run_started(mode, steps) {
            if ends_with(trimmed(steps.last().1), m@) {
                assert(ends_with(trimmed(steps[steps.len() - 1].1), m@));
            } else {
                let k = choose|k: int|
                    0 <= k < steps.drop_last().len() && ends_with(
                        trimmed(steps.drop_last()[k].1),
                        m@,
                    );
                assert(ends_with(trimmed(steps[k].1), m@));
            }
        }
        if exists|k: int| 0 <= k < steps.len() && ends_with(trimmed(steps[k].1), m@) {
            let k = choose|k: int| 0 <= k < steps.len() && ends_with(trimmed(steps[k].1), m@);
            if k < steps.len() - 1 {
                assert(ends_with(trimmed(steps.drop_last()[k].1), m@));
            }
        }
    }
}

/// Under `Message(m)`, nothing is reported before a trimmed record
/// ending with `m` has been observed.
pub proof fn lemma_message_trigger(m: Vec<u8>, steps: Seq<(int, Seq<u8>)>, i: int)
    requires
        step_emits(StartMode::Message(m), steps, i),
    ensures
        exists|k: int| 0 <= k < i && ends_with(trimmed(steps[k].1), m@),
{
    let pre = steps.subrange(0, i);
    lemma_message_started_iff(m, pre);
    let k = choose|k: int| 0 <= k < pre.len() && ends_with(trimmed(pre[k].1), m@);
    assert(0 <= k < i && ends_with(trimmed(steps[k].1), m@));
}

/// Under `Message(m)`, the first record ending with `m` — the
/// triggering record — is itself not reported.
pub proof fn lemma_message_first_not_reported(m: Vec<u8>, steps: Seq<(int, Seq<u8>)>, k: int)
    requires
        forall|x: int| 0 <= x < k ==> !ends_with(trimmed(steps[x].1), m@),
    ensures
        !step_emits(StartMode::Message(m), steps, k),
{
    if 0 <= k < steps.len() {
        let pre = steps.subrange(0, k);
        lemma_message_started_iff(m, pre);
        assert(forall|x: int| 0 <= x < pre.len() ==> !ends_with(trimmed(pre[x].1), m@));
    }
}

/// Under `Message(m)`, every non-empty record after an observed
/// trigger record is reported.
pub proof fn lemma_message_after_reported(m: Vec<u8>, steps: Seq<(int, Seq<u8>)>, k: int, j: int)
    requires
        0 <= k < j < steps.len(),
        ends_with(trimmed(steps[k].1), m@),
        steps[j].1.len() > 0,
    ensures
        step_emits(StartMode::Message(m), steps, j),
{
    let pre = steps.subrange(0, j);
    lemma_message_started_iff(m, pre);
    assert(ends_with(trimmed(pre[k].1), m@));
}

} // verus!
