//! Session controller: owns the schema parser, the sample store, the
//! bounded console log and the plot surfaces of one monitoring
//! session, and drives the open → read → poll → close lifecycle.
//!
//! The frontend drains the worker's queue and hands each record to
//! `handle_record`; everything the record changes — schema, series
//! history, console log — is decided and proved here. Plot identifiers
//! come from an explicit monotonic counter that is reseeded above every
//! persisted identifier when a configuration is loaded, so fresh plots
//! never collide.

use vstd::prelude::*;
use vstd::pervasive::VecAdditionalExecFns;
use std::collections::VecDeque;
use crate::data::{
    plot_name, slot_hue, slot_name, ConnectionConfig, InputSlot, PlotData, SerialMonitorData,
    make_plot_name, make_slot_hue, make_slot_name,
};
use crate::serial_parser::{line_values, ParseError, SerialParser};
use crate::serial_reader::{Line, SerialConfig, SerialReader, StartMode};
use crate::window::Sample;

verus! {

/// How many console lines are retained; the oldest is evicted first.
pub const STORED_LINES: usize = 512;

/// How much history a presentation layer is expected to show at most,
/// in milliseconds (the largest selectable window length).
pub const STORED_DURATION_MS: u64 = 60000;

/// The series histories `after` are `before` with the tuple `vals`
/// appended at time `t`: series grow on demand up to the tuple width,
/// each series in the tuple gets one sample, series beyond the tuple
/// are untouched.
pub open spec fn series_appended(
    before: Seq<Vec<Sample>>,
    after: Seq<Vec<Sample>>,
    t: u64,
    vals: Seq<i64>,
) -> bool {
    &&& after.len() == if vals.len() > before.len() {
        vals.len()
    } else {
        before.len()
    }
    &&& forall|i: int|
        0 <= i < vals.len() ==> after[i]@ == (if i < before.len() {
            before[i]@
        } else {
            Seq::<Sample>::empty()
        }).push(Sample { t, v: vals[i] })
    &&& forall|i: int| vals.len() <= i < before.len() ==> after[i]@ == before[i]@
}

/// The console log `after` is `before` with one line of content
/// `content` at time `t` appended, the oldest line evicted beyond the
/// retention cap.
pub open spec fn console_appended(
    before: Seq<Line>,
    after: Seq<Line>,
    t: u64,
    content: Seq<u8>,
) -> bool {
    let shift: int = if before.len() + 1 > STORED_LINES {
        1
    } else {
        0
    };
    &&& after.len() == before.len() + 1 - shift
    &&& forall|i: int| 0 <= i < after.len() - 1 ==> after[i] == before[i + shift]
    &&& after[after.len() - 1].t == t
    &&& after[after.len() - 1].content@ == content
}

/// The value a slot shows after an update: the latest sample of its
/// series, zero for an empty series, its old value where no series
/// exists.
pub open spec fn slot_value_after(values: Seq<Vec<Sample>>, i: int, old_v: i64) -> i64 {
    if 0 <= i < values.len() {
        if values[i]@.len() == 0 {
            0i64
        } else {
            values[i]@.last().v
        }
    } else {
        old_v
    }
}

/// Some plot in the list is the console surface.
pub open spec fn has_console_in(plots: Seq<PlotData>) -> bool {
    exists|i: int| 0 <= i < plots.len() && plots[i].console
}

/// The device list names this port.
pub open spec fn port_listed(devices: Seq<String>, port: Seq<char>) -> bool {
    exists|i: int| 0 <= i < devices.len() && devices[i]@ == port
}

/// Two connection configurations agree on everything but the port.
pub open spec fn same_but_port(a: ConnectionConfig, b: ConnectionConfig) -> bool {
    &&& a.baud_rate == b.baud_rate
    &&& a.data_bits == b.data_bits
    &&& a.parity == b.parity
    &&& a.stop_bits == b.stop_bits
    &&& a.flow_ctrl == b.flow_ctrl
    &&& a.dtr == b.dtr
    &&& a.start_mode == b.start_mode
    &&& a.start_delay == b.start_delay
    &&& a.start_msg == b.start_msg
}

/// An attached reader with a handle held or a worker running counts as
/// connected.
pub open spec fn reader_connected(r: Option<SerialReader>) -> bool {
    match r {
        Some(rd) => rd.is_port_held() || rd.is_reading(),
        None => false,
    }
}

/// The session controller of the monitor.
pub struct SerialMonitorApp {
    /// Persistent settings, slots and plot surfaces.
    pub data: SerialMonitorData,
    /// Schema parser of the active connection.
    pub parser: SerialParser,
    /// Logical state of the active connection, if one was attached.
    pub reader: Option<SerialReader>,
    /// Per-series sample history of the session.
    pub values: Vec<Vec<Sample>>,
    /// Bounded log of recent raw lines, oldest first.
    pub lines: VecDeque<Line>,
    /// While paused, drained records are dropped and zooming is free.
    pub paused: bool,
    /// The identifier the next plot surface will get.
    pub next_plot_id: usize,
}

impl SerialMonitorApp {
    /// A fresh session around the given data, with the plot identifier
    /// counter reseeded above every persisted identifier.
    pub fn new(data: SerialMonitorData) -> (r: SerialMonitorApp)
        requires
            forall|i: int| 0 <= i < data.plots@.len() ==> data.plots@[i].id < usize::MAX,
        ensures
            r.data == data,
            r.parser.spec_columns() == 0,
            r.reader is None,
            r.values@ == Seq::<Vec<Sample>>::empty(),
            r.lines@ == Seq::<Line>::empty(),
            !r.paused,
            forall|i: int| 0 <= i < data.plots@.len() ==> r.next_plot_id > data.plots@[i].id,
    {
        let next = next_id_above(&data.plots);
        SerialMonitorApp {
            data,
            parser: SerialParser::new(),
            reader: None,
            values: Vec::new(),
            lines: VecDeque::new(),
            paused: false,
            next_plot_id: next,
        }
    }

    /// Reset the selected port to the placeholder when the device list
    /// no longer offers it; report whether that happened.
    pub fn reset_port_if_missing(&mut self, devices: &Vec<String>) -> (r: bool)
        ensures
            port_listed(devices@, old(self).data.conn_config.port@) ==> !r && *final(self) == *old(
                self,
            ),
            !port_listed(devices@, old(self).data.conn_config.port@) ==> {
                &&& r
                &&& final(self).data.conn_config.port@ == "-"@
                &&& same_but_port(final(self).data.conn_config, old(self).data.conn_config)
                &&& final(self).data.plot_config == old(self).data.plot_config
                &&& final(self).data.inp_slots == old(self).data.inp_slots
                &&& final(self).data.plots == old(self).data.plots
                &&& final(self).parser == old(self).parser
                &&& final(self).reader == old(self).reader
                &&& final(self).values == old(self).values
                &&& final(self).lines == old(self).lines
                &&& final(self).paused == old(self).paused
                &&& final(self).next_plot_id == old(self).next_plot_id
            },
    {
        let n = devices.len();
        let mut i: usize = 0;
        while i < n
            invariant
                0 <= i <= n == devices@.len(),
                forall|k: int| 0 <= k < i ==> devices@[k]@ != self.data.conn_config.port@,
                *self == *old(self),
            decreases n - i,
        {
            if devices[i] == self.data.conn_config.port {
                return false;
            }
            i = i + 1;
        }
        self.data.conn_config.port = "-".to_owned();
        true
    }

    /// The currently selected port is a real device, not the
    /// placeholder.
    pub fn can_connect(&self) -> (r: bool)
        ensures
            r == (self.data.conn_config.port@ != "-"@),
    {
        let no_port = ConnectionConfig::no_port();
        !(self.data.conn_config.port == no_port)
    }

    /// A reader is attached and open or reading.
    pub fn is_connected(&self) -> (r: bool)
        ensures
            r == reader_connected(self.reader),
    {
        match &self.reader {
            Some(reader) => reader.is_open(),
            None => false,
        }
    }

    /// Adopt the logical reader of a connection whose worker runs; the
    /// session resumes unpaused.
    pub fn attach_reader(&mut self, reader: SerialReader)
        requires
            reader.is_reading(),
        ensures
            final(self).reader == Some(reader),
            !final(self).paused,
            final(self).data == old(self).data,
            final(self).parser == old(self).parser,
            final(self).values == old(self).values,
            final(self).lines == old(self).lines,
            final(self).next_plot_id == old(self).next_plot_id,
    {
        self.reader = Some(reader);
        self.paused = false;
    }

    /// Tear the session down: detach the reader, forget the schema,
    /// clear the sample history and resume unpaused. The console log
    /// stays. Without an attached reader nothing changes.
    pub fn disconnect_current(&mut self)
        ensures
            old(self).reader is Some ==> {
                &&& final(self).reader is None
                &&& final(self).parser.spec_columns() == 0
                &&& final(self).values@ == Seq::<Vec<Sample>>::empty()
                &&& !final(self).paused
                &&& final(self).data == old(self).data
                &&& final(self).lines == old(self).lines
                &&& final(self).next_plot_id == old(self).next_plot_id
            },
            old(self).reader is None ==> *final(self) == *old(self),
    {
        match &self.reader {
            Some(_) => {
                self.reader = None;
                self.parser.reset();
                self.values.clear();
                self.paused = false;
            },
            None => {},
        }
    }

    /// Append one parsed tuple to the series histories at time `t`.
    pub fn handle_input(&mut self, t: u64, vals: &Vec<i64>)
        ensures
            series_appended(old(self).values@, final(self).values@, t, vals@),
            final(self).data == old(self).data,
            final(self).parser == old(self).parser,
            final(self).reader == old(self).reader,
            final(self).lines == old(self).lines,
            final(self).paused == old(self).paused,
            final(self).next_plot_id == old(self).next_plot_id,
    {
        let ghost before = self.values@;
        while self.values.len() < vals.len()
            invariant
                before == old(self).values@,
                before.len() <= self.values@.len(),
                self.values@.len() <= if vals@.len() > before.len() {
                    vals@.len()
                } else {
                    before.len()
                },
                forall|k: int| 0 <= k < before.len() ==> self.values@[k] == before[k],
                forall|k: int|
                    before.len() <= k < self.values@.len() ==> self.values@[k]@ == Seq::<
                        Sample,
                    >::empty(),
                self.data == old(self).data,
                self.parser == old(self).parser,
                self.reader == old(self).reader,
                self.lines == old(self).lines,
                self.paused == old(self).paused,
                self.next_plot_id == old(self).next_plot_id,
            decreases vals@.len() - self.values@.len(),
        {
            self.values.push(Vec::new());
        }
        let n = vals.len();
        let mut i: usize = 0;
        while i < n
            invariant
                0 <= i <= n == vals@.len(),
                before == old(self).values@,
                self.values@.len() == if vals@.len() > before.len() {
                    vals@.len()
                } else {
                    before.len()
                },
                n <= self.values@.len(),
                forall|k: int|
                    0 <= k < i ==> self.values@[k]@ == (if k < before.len() {
                        before[k]@
                    } else {
                        Seq::<Sample>::empty()
                    }).push(Sample { t, v: vals@[k] }),
                forall|k: int|
                    i <= k < self.values@.len() ==> self.values@[k]@ == (if k < before.len() {
                        before[k]@
                    } else {
                        Seq::<Sample>::empty()
                    }),
                self.data == old(self).data,
                self.parser == old(self).parser,
                self.reader == old(self).reader,
                self.lines == old(self).lines,
                self.paused == old(self).paused,
                self.next_plot_id == old(self).next_plot_id,
            decreases n - i,
        {
            let mut row: Vec<Sample> = Vec::new();
            self.values.set_and_swap(i, &mut row);
            row.push(Sample { t, v: vals[i] });
            self.values.set(i, row);
            i = i + 1;
        }
    }

    /// Append one raw line to the console log, evicting the oldest
    /// line beyond the retention cap.
    pub fn handle_input_line(&mut self, t: u64, content: &Vec<u8>)
        ensures
            console_appended(old(self).lines@, final(self).lines@, t, content@),
            final(self).data == old(self).data,
            final(self).parser == old(self).parser,
            final(self).reader == old(self).reader,
            final(self).values == old(self).values,
            final(self).paused == old(self).paused,
            final(self).next_plot_id == old(self).next_plot_id,
    {
        let copy = content.clone();
        proof {
            assert(copy@ =~= content@);
        }
        self.lines.push_back(Line { t, content: copy });
        if self.lines.len() > STORED_LINES {
            self.lines.pop_front();
        }
    }

    /// Route one accepted record: parse it against the schema, append
    /// its tuple to the series histories, and log the raw line. While
    /// paused the record is dropped whole. A column mismatch is
    /// returned as a recoverable warning: the record's numeric data is
    /// dropped, the raw line is still logged, the session continues.
    pub fn handle_record(&mut self, line: &Line) -> (warn: Option<ParseError>)
        ensures
            old(self).paused ==> *final(self) == *old(self) && warn is None,
            !old(self).paused ==> {
                let vals = line_values(line.content@);
                &&& console_appended(old(self).lines@, final(self).lines@, line.t, line.content@)
                &&& (old(self).parser.spec_columns() == 0 || vals.len() == old(
                    self,
                ).parser.spec_columns()) ==> {
                    &&& warn is None
                    &&& final(self).parser.spec_columns() == vals.len()
                    &&& series_appended(old(self).values@, final(self).values@, line.t, vals)
                }
                &&& (old(self).parser.spec_columns() != 0 && vals.len() != old(
                    self,
                ).parser.spec_columns()) ==> {
                    &&& warn == Some(
                        ParseError::ColumnMismatch(
                            old(self).parser.spec_columns(),
                            vals.len() as usize,
                        ),
                    )
                    &&& final(self).parser.spec_columns() == old(self).parser.spec_columns()
                    &&& final(self).values == old(self).values
                }
                &&& final(self).data == old(self).data
                &&& final(self).reader == old(self).reader
                &&& final(self).paused == old(self).paused
                &&& final(self).next_plot_id == old(self).next_plot_id
            },
    {
        if self.paused {
            return None;
        }
        let warn = match self.parser.parse_values(line.content.as_slice()) {
            Ok(vals) => {
                self.handle_input(line.t, &vals);
                None
            },
            Err(e) => Some(e),
        };
        self.handle_input_line(line.t, &line.content);
        warn
    }

    /// Create missing slots up to `slots` columns, with their default
    /// names and hues, and refresh every slot's latest value from its
    /// series.
    pub fn prep_input_slots(&mut self, slots: usize)
        ensures
            final(self).data.inp_slots@.len() == if slots > old(self).data.inp_slots@.len() {
                slots as int
            } else {
                old(self).data.inp_slots@.len() as int
            },
            forall|i: int|
                0 <= i < final(self).data.inp_slots@.len() ==> {
                    let s = #[trigger] final(self).data.inp_slots@[i];
                    if i < old(self).data.inp_slots@.len() {
                        &&& s.index == old(self).data.inp_slots@[i].index
                        &&& s.name@ == old(self).data.inp_slots@[i].name@
                        &&& s.hue == old(self).data.inp_slots@[i].hue
                        &&& s.value == slot_value_after(
                            old(self).values@,
                            i,
                            old(self).data.inp_slots@[i].value,
                        )
                    } else {
                        &&& s.index == i
                        &&& s.name@ == slot_name((i + 1) as nat)
                        &&& s.hue == slot_hue(i as nat)
                        &&& s.value == slot_value_after(old(self).values@, i, 0i64)
                    }
                },
            final(self).data.conn_config == old(self).data.conn_config,
            final(self).data.plot_config == old(self).data.plot_config,
            final(self).data.plots == old(self).data.plots,
            final(self).parser == old(self).parser,
            final(self).reader == old(self).reader,
            final(self).values == old(self).values,
            final(self).lines == old(self).lines,
            final(self).paused == old(self).paused,
            final(self).next_plot_id == old(self).next_plot_id,
    {
        let ghost before = self.data.inp_slots@;
        while self.data.inp_slots.len() < slots
            invariant
                before == old(self).data.inp_slots@,
                before.len() <= self.data.inp_slots@.len(),
                self.data.inp_slots@.len() <= if slots as int > before.len() {
                    slots as int
                } else {
                    before.len() as int
                },
                forall|k: int| 0 <= k < before.len() ==> self.data.inp_slots@[k] == before[k],
                forall|k: int|
                    before.len() <= k < self.data.inp_slots@.len() ==> {
                        let s = #[trigger] self.data.inp_slots@[k];
                        &&& s.index == k
                        &&& s.name@ == slot_name((k + 1) as nat)
                        &&& s.hue == slot_hue(k as nat)
                        &&& s.value == 0i64
                    },
                self.data.conn_config == old(self).data.conn_config,
                self.data.plot_config == old(self).data.plot_config,
                self.data.plots == old(self).data.plots,
                self.parser == old(self).parser,
                self.reader == old(self).reader,
                self.values == old(self).values,
                self.lines == old(self).lines,
                self.paused == old(self).paused,
                self.next_plot_id == old(self).next_plot_id,
            decreases slots - self.data.inp_slots@.len(),
        {
            let i = self.data.inp_slots.len();
            let slot = InputSlot {
                index: i,
                name: make_slot_name(i + 1),
                hue: make_slot_hue(i),
                value: 0,
            };
            self.data.inp_slots.push(slot);
        }
        let ghost created = self.data.inp_slots@;
        let n = self.data.inp_slots.len();
        let mut i: usize = 0;
        while i < n
            invariant
                0 <= i <= n == self.data.inp_slots@.len(),
                n == created.len(),
                forall|k: int|
                    i <= k < n ==> self.data.inp_slots@[k] == created[k],
                forall|k: int|
                    0 <= k < i ==> {
                        let s = #[trigger] self.data.inp_slots@[k];
                        &&& s.index == created[k].index
                        &&& s.name@ == created[k].name@
                        &&& s.hue == created[k].hue
                        &&& s.value == slot_value_after(self.values@, k, created[k].value)
                    },
                self.data.conn_config == old(self).data.conn_config,
                self.data.plot_config == old(self).data.plot_config,
                self.data.plots == old(self).data.plots,
                self.parser == old(self).parser,
                self.reader == old(self).reader,
                self.values == old(self).values,
                self.lines == old(self).lines,
                self.paused == old(self).paused,
                self.next_plot_id == old(self).next_plot_id,
            decreases n - i,
        {
            if i < self.values.len() {
                let row_len = self.values[i].len();
                let v: i64 = if row_len == 0 {
                    0
                } else {
                    self.values[i][row_len - 1].v
                };
                let mut taken = InputSlot { index: 0, name: Vec::new(), hue: 0, value: 0 };
                self.data.inp_slots.set_and_swap(i, &mut taken);
                let updated = InputSlot { value: v, ..taken };
                self.data.inp_slots.set(i, updated);
            }
            i = i + 1;
        }
    }

    /// The established column count of the active connection.
    pub fn input_columns(&self) -> (r: usize)
        ensures
            r == self.parser.spec_columns(),
    {
        self.parser.columns()
    }

    /// A schema with at least one column is established.
    pub fn has_input(&self) -> (r: bool)
        ensures
            r == (self.parser.spec_columns() > 0),
    {
        self.parser.columns() > 0
    }

    /// The console surface exists.
    pub fn has_console(&self) -> (r: bool)
        ensures
            r == has_console_in(self.data.plots@),
    {
        let n = self.data.plots.len();
        let mut i: usize = 0;
        while i < n
            invariant
                0 <= i <= n == self.data.plots@.len(),
                forall|k: int| 0 <= k < i ==> !self.data.plots@[k].console,
            decreases n - i,
        {
            if self.data.plots[i].console {
                return true;
            }
            i = i + 1;
        }
        false
    }

    /// Add a fresh plot surface before the console (if any), named
    /// after its position and numbered by the identifier counter.
    pub fn add_plot(&mut self)
        requires
            old(self).next_plot_id < usize::MAX,
            old(self).data.plots@.len() < usize::MAX,
        ensures
            ({
                let idx = old(self).data.plots@.len() - (if has_console_in(
                    old(self).data.plots@,
                ) {
                    1int
                } else {
                    0int
                });
                let p = final(self).data.plots@[idx];
                &&& final(self).data.plots@ == old(self).data.plots@.insert(idx, p)
                &&& p.id == old(self).next_plot_id
                &&& p.name@ == plot_name((idx + 1) as nat)
                &&& p.hidden@ == Seq::<usize>::empty()
                &&& !p.console
                &&& p.vrange is None
            }),
            final(self).next_plot_id == old(self).next_plot_id + 1,
            final(self).data.conn_config == old(self).data.conn_config,
            final(self).data.plot_config == old(self).data.plot_config,
            final(self).data.inp_slots == old(self).data.inp_slots,
            final(self).parser == old(self).parser,
            final(self).reader == old(self).reader,
            final(self).values == old(self).values,
            final(self).lines == old(self).lines,
            final(self).paused == old(self).paused,
    {
        let off: usize = if self.has_console() {
            1
        } else {
            0
        };
        let index = self.data.plots.len() - off;
        let name = make_plot_name(index + 1);
        let p = PlotData::new(self.next_plot_id, name);
        self.data.plots.insert(index, p);
        self.next_plot_id = self.next_plot_id + 1;
    }

    /// Remove the plot surface at `index`.
    pub fn remove_plot(&mut self, index: usize)
        requires
            index < old(self).data.plots@.len(),
        ensures
            final(self).data.plots@ == old(self).data.plots@.remove(index as int),
            final(self).data.conn_config == old(self).data.conn_config,
            final(self).data.plot_config == old(self).data.plot_config,
            final(self).data.inp_slots == old(self).data.inp_slots,
            final(self).parser == old(self).parser,
            final(self).reader == old(self).reader,
            final(self).values == old(self).values,
            final(self).lines == old(self).lines,
            final(self).paused == old(self).paused,
            final(self).next_plot_id == old(self).next_plot_id,
    {
        self.data.plots.remove(index);
    }

    /// Reset the plot surface at `index`: its AutoMax accumulator
    /// restarts, and resetting the console clears the console log.
    pub fn reset_plot(&mut self, index: usize)
        requires
            index < old(self).data.plots@.len(),
        ensures
            final(self).data.plots@.len() == old(self).data.plots@.len(),
            forall|k: int|
                0 <= k < old(self).data.plots@.len() && k != index ==> final(self).data.plots@[k]
                    == old(self).data.plots@[k],
            ({
                let p = final(self).data.plots@[index as int];
                let q = old(self).data.plots@[index as int];
                &&& p.id == q.id
                &&& p.name@ == q.name@
                &&& p.hidden == q.hidden
                &&& p.height == q.height
                &&& p.console == q.console
                &&& p.vrange is None
            }),
            old(self).data.plots@[index as int].console ==> final(self).lines@ == Seq::<
                Line,
            >::empty(),
            !old(self).data.plots@[index as int].console ==> final(self).lines == old(self).lines,
            final(self).data.conn_config == old(self).data.conn_config,
            final(self).data.plot_config == old(self).data.plot_config,
            final(self).data.inp_slots == old(self).data.inp_slots,
            final(self).parser == old(self).parser,
            final(self).reader == old(self).reader,
            final(self).values == old(self).values,
            final(self).paused == old(self).paused,
            final(self).next_plot_id == old(self).next_plot_id,
    {
        let mut taken = PlotData::new(0, Vec::new());
        self.data.plots.set_and_swap(index, &mut taken);
        let is_console = taken.console;
        let cleared = PlotData { vrange: None, ..taken };
        self.data.plots.set(index, cleared);
        if is_console {
            self.lines.clear();
        }
    }

    /// Add the console surface, unless it already exists.
    pub fn add_console(&mut self)
        requires
            old(self).next_plot_id < usize::MAX,
        ensures
            has_console_in(old(self).data.plots@) ==> *final(self) == *old(self),
            !has_console_in(old(self).data.plots@) ==> {
                let p = final(self).data.plots@[final(self).data.plots@.len() - 1];
                &&& final(self).data.plots@ == old(self).data.plots@.push(p)
                &&& p.id == old(self).next_plot_id
                &&& p.console
                &&& final(self).next_plot_id == old(self).next_plot_id + 1
                &&& final(self).data.conn_config == old(self).data.conn_config
                &&& final(self).data.plot_config == old(self).data.plot_config
                &&& final(self).data.inp_slots == old(self).data.inp_slots
                &&& final(self).parser == old(self).parser
                &&& final(self).reader == old(self).reader
                &&& final(self).values == old(self).values
                &&& final(self).lines == old(self).lines
                &&& final(self).paused == old(self).paused
            },
    {
        if !self.has_console() {
            let p = PlotData::console(self.next_plot_id);
            self.data.plots.push(p);
            self.next_plot_id = self.next_plot_id + 1;
        }
    }

    /// Whether the session is paused.
    pub fn is_paused(&self) -> (r: bool)
        ensures
            r == self.paused,
    {
        self.paused
    }

    /// Pause or resume the session.
    pub fn set_paused(&mut self, pause: bool)
        ensures
            final(self).paused == pause,
            final(self).data == old(self).data,
            final(self).parser == old(self).parser,
            final(self).reader == old(self).reader,
            final(self).values == old(self).values,
            final(self).lines == old(self).lines,
            final(self).next_plot_id == old(self).next_plot_id,
    {
        self.paused = pause;
    }

    /// Free zooming is allowed exactly while the session is paused.
    pub fn zoom_enabled(&self) -> (r: bool)
        ensures
            r == self.paused,
    {
        self.is_paused()
    }

    /// Replace the session's data with a loaded configuration: the
    /// running connection is torn down, and the plot identifier
    /// counter is reseeded above every loaded identifier.
    pub fn load_config(&mut self, config: SerialMonitorData)
        requires
            forall|i: int| 0 <= i < config.plots@.len() ==> config.plots@[i].id < usize::MAX,
        ensures
            final(self).data == config,
            final(self).reader is None,
            final(self).parser.spec_columns() == 0,
            final(self).values@ == Seq::<Vec<Sample>>::empty(),
            !final(self).paused,
            final(self).lines == old(self).lines,
            forall|i: int|
                0 <= i < config.plots@.len() ==> final(self).next_plot_id > config.plots@[i].id,
    {
        self.disconnect_current();
        self.reader = None;
        self.parser.reset();
        self.values.clear();
        self.paused = false;
        let next = next_id_above(&config.plots);
        self.data = config;
        self.next_plot_id = next;
    }

    /// The parameters a new connection is opened and triggered with:
    /// the configured serial settings under the polling read timeout,
    /// and the armed start policy.
    pub fn connect_params(&self) -> (r: (SerialConfig, StartMode))
        ensures
            r.0.port@ == self.data.conn_config.port@,
            r.0.baud_rate == self.data.conn_config.baud_rate,
            r.0.data_bits == self.data.conn_config.data_bits,
            r.0.parity == self.data.conn_config.parity,
            r.0.stop_bits == self.data.conn_config.stop_bits,
            r.0.flow_ctrl == self.data.conn_config.flow_ctrl,
            r.0.timeout_ms == 50,
            self.data.conn_config.start_mode is Immediate ==> r.1 == StartMode::Immediate,
            self.data.conn_config.start_mode is Delay ==> r.1 == StartMode::Delay(
                self.data.conn_config.start_delay as u64,
            ),
            self.data.conn_config.start_mode is Message ==> {
                &&& r.1 matches StartMode::Message(m)
                &&& m@ == self.data.conn_config.start_msg@
            },
    {
        let c = &self.data.conn_config;
        let cfg = SerialConfig {
            port: c.port.clone(),
            baud_rate: c.baud_rate,
            data_bits: c.data_bits,
            parity: c.parity,
            stop_bits: c.stop_bits,
            flow_ctrl: c.flow_ctrl,
            timeout_ms: 50,
        };
        let mode = match &c.start_mode {
            StartMode::Immediate => StartMode::Immediate,
            StartMode::Delay(_) => StartMode::Delay(c.start_delay as u64),
            StartMode::Message(_) => {
                let m = c.start_msg.clone();
                proof {
                    assert(m@ =~= c.start_msg@);
                }
                StartMode::Message(m)
            },
        };
        (cfg, mode)
    }

    /// Borrow the connection configuration.
    pub fn conn_config(&self) -> (r: &ConnectionConfig)
        ensures
            *r == self.data.conn_config,
    {
        &self.data.conn_config
    }

    /// Borrow the plot configuration.
    pub fn plot_config(&self) -> (r: &crate::data::PlotConfig)
        ensures
            *r == self.data.plot_config,
    {
        &self.data.plot_config
    }

    /// Borrow the slot list.
    pub fn input_slots(&self) -> (r: &Vec<InputSlot>)
        ensures
            *r == self.data.inp_slots,
    {
        &self.data.inp_slots
    }

    /// Borrow the plot surfaces.
    pub fn plots(&self) -> (r: &Vec<PlotData>)
        ensures
            *r == self.data.plots,
    {
        &self.data.plots
    }

    /// Borrow the per-series sample history.
    pub fn raw_values(&self) -> (r: &Vec<Vec<Sample>>)
        ensures
            *r == self.values,
    {
        &self.values
    }

    /// Borrow the console log.
    pub fn console_lines(&self) -> (r: &VecDeque<Line>)
        ensures
            *r == self.lines,
    {
        &self.lines
    }
}

/// One above the largest plot identifier in the list, or 1 for an
/// empty list.
pub fn next_id_above(plots: &Vec<PlotData>) -> (r: usize)
    requires
        forall|i: int| 0 <= i < plots@.len() ==> plots@[i].id < usize::MAX,
    ensures
        r >= 1,
        forall|i: int| 0 <= i < plots@.len() ==> r > plots@[i].id,
{
    let n = plots.len();
    let mut r: usize = 1;
    let mut i: usize = 0;
    while i < n
        invariant
            0 <= i <= n == plots@.len(),
            r >= 1,
            forall|k: int| 0 <= k < plots@.len() ==> plots@[k].id < usize::MAX,
            forall|k: int| 0 <= k < i ==> r > plots@[k].id,
        decreases n - i,
    {
        if plots[i].id >= r {
            r = plots[i].id + 1;
        }
        i = i + 1;
    }
    r
}

} // verus!
