//! Session data model: connection settings, plot configuration and the
//! per-plot and per-series metadata kept across one monitoring session.
//!
//! Numeric knobs that presentation layers show as fractional values are
//! held as plain integers: window lengths and delays in milliseconds,
//! vertical bounds and slot values in fixed-point milli-units, default
//! slot hues in permille of the hue circle.

use vstd::prelude::*;
use crate::serial_reader::{FlowCtrl, Parity, SerialConfig, StartMode};
use crate::text::{dec_bytes, dec_digits};
use crate::window::ScaleRange;

verus! {

/// Windowing mode of a plot: a sliding trailing window, or an
/// oscilloscope-style wrap-around sweep.
#[derive(Clone, Copy, Debug, PartialEq, Eq, Structural)]
pub enum PlotMode {
    Continous,
    Cyclic,
}

/// Vertical auto-scale policy of a plot.
#[derive(Clone, Copy, Debug, PartialEq, Eq, Structural)]
pub enum PlotScaleMode {
    Auto,
    AutoMax,
    Manual,
}

/// Everything a connection is opened and triggered with. The
/// `start_mode` variant selects the policy; `start_delay` (ms) and
/// `start_msg` supply the delay and message actually used.
#[derive(Debug, Clone, PartialEq, Eq)]
pub struct ConnectionConfig {
    pub port: String,
    pub baud_rate: u32,
    pub data_bits: u8,
    pub parity: Parity,
    pub stop_bits: u8,
    pub flow_ctrl: FlowCtrl,
    pub dtr: bool,
    pub start_mode: StartMode,
    pub start_delay: u32,
    pub start_msg: Vec<u8>,
}

impl ConnectionConfig {
    /// The placeholder device identifier shown while none is selected.
    pub fn no_port() -> (r: String)
        ensures
            r@ == "-"@,
    {
        "-".to_owned()
    }
}

/// The default connection settings: 9600 baud 8N1 without flow
/// control, ready signal asserted, a delay trigger of zero, and no
/// device selected.
pub open spec fn is_default_conn(c: ConnectionConfig) -> bool {
    &&& c.port@ == "-"@
    &&& c.baud_rate == 9600
    &&& c.data_bits == 8
    &&& c.parity == Parity::Off
    &&& c.stop_bits == 1
    &&& c.flow_ctrl == FlowCtrl::Off
    &&& c.dtr
    &&& c.start_mode == StartMode::Delay(0)
    &&& c.start_delay == 1000
    &&& c.start_msg@ == start_text()
}

impl Default for ConnectionConfig {
    /// 9600 baud 8N1 without flow control, ready signal asserted, a
    /// delay trigger of zero, and no device selected.
    fn default() -> (r: Self)
        ensures
            is_default_conn(r),
    {
        let mut msg: Vec<u8> = Vec::new();
        msg.push(83);
        msg.push(116);
        msg.push(97);
        msg.push(114);
        msg.push(116);
        proof {
            assert(msg@ =~= start_text());
        }
        Self {
            port: "-".to_owned(),
            baud_rate: 9600,
            data_bits: 8,
            parity: Parity::Off,
            stop_bits: 1,
            flow_ctrl: FlowCtrl::Off,
            dtr: true,
            start_mode: StartMode::Delay(0),
            start_delay: 1000,
            start_msg: msg,
        }
    }
}

/// The bytes of the default trigger message, "Start".
pub open spec fn start_text() -> Seq<u8> {
    seq![83u8, 116u8, 97u8, 114u8, 116u8]
}

/// The serial parameters derived from a connection configuration: same
/// port and framing, no read timeout yet.
pub open spec fn serial_config_of(c: ConnectionConfig) -> SerialConfig {
    SerialConfig {
        port: c.port,
        baud_rate: c.baud_rate,
        data_bits: c.data_bits,
        parity: c.parity,
        stop_bits: c.stop_bits,
        flow_ctrl: c.flow_ctrl,
        timeout_ms: 0,
    }
}

impl From<ConnectionConfig> for SerialConfig {
    fn from(value: ConnectionConfig) -> (r: SerialConfig)
        ensures
            r == serial_config_of(value),
    {
        SerialConfig {
            port: value.port,
            baud_rate: value.baud_rate,
            data_bits: value.data_bits,
            parity: value.parity,
            stop_bits: value.stop_bits,
            flow_ctrl: value.flow_ctrl,
            timeout_ms: 0,
        }
    }
}

impl vstd::std_specs::convert::FromSpecImpl<ConnectionConfig> for SerialConfig {
    open spec fn obeys_from_spec() -> bool {
        true
    }

    open spec fn from_spec(t: ConnectionConfig) -> SerialConfig {
        serial_config_of(t)
    }
}

/// The effective start policy of a connection configuration: the
/// selected variant, armed with the configured delay or message.
pub open spec fn start_mode_of(c: ConnectionConfig) -> StartMode {
    match c.start_mode {
        StartMode::Immediate => StartMode::Immediate,
        StartMode::Delay(_) => StartMode::Delay(c.start_delay as u64),
        StartMode::Message(_) => StartMode::Message(c.start_msg),
    }
}

impl From<ConnectionConfig> for StartMode {
    fn from(value: ConnectionConfig) -> (r: StartMode)
        ensures
            r == start_mode_of(value),
    {
        match value.start_mode {
            StartMode::Immediate => StartMode::Immediate,
            StartMode::Delay(_) => StartMode::Delay(value.start_delay as u64),
            StartMode::Message(_) => StartMode::Message(value.start_msg),
        }
    }
}

impl vstd::std_specs::convert::FromSpecImpl<ConnectionConfig> for StartMode {
    open spec fn obeys_from_spec() -> bool {
        true
    }

    open spec fn from_spec(t: ConnectionConfig) -> StartMode {
        start_mode_of(t)
    }
}

/// Window and auto-scale settings shared by all plots: window length in
/// milliseconds, manual vertical bounds in milli-units.
#[derive(Debug, Clone, Copy, PartialEq, Eq, Structural)]
pub struct PlotConfig {
    pub mode: PlotMode,
    pub window: u64,
    pub scale_mode: PlotScaleMode,
    pub y_min: i64,
    pub y_max: i64,
}

/// The default plot settings: a five-second continuous window with
/// automatic scaling and a manual range of zero to one.
pub open spec fn default_plot_config() -> PlotConfig {
    PlotConfig {
        mode: PlotMode::Continous,
        window: 5000u64,
        scale_mode: PlotScaleMode::Auto,
        y_min: 0i64,
        y_max: 1000i64,
    }
}

impl Default for PlotConfig {
    /// A five-second continuous window with automatic scaling and a
    /// manual range of zero to one.
    fn default() -> (r: Self)
        ensures
            r == default_plot_config(),
    {
        Self {
            mode: PlotMode::Continous,
            window: 5000,
            scale_mode: PlotScaleMode::Auto,
            y_min: 0,
            y_max: 1000,
        }
    }
}

/// Per-series metadata: stable index, editable display name, default
/// hue derived from the index, and the most recent value.
#[derive(Debug, Clone, PartialEq, Eq)]
pub struct InputSlot {
    pub index: usize,
    pub name: Vec<u8>,
    pub hue: u16,
    pub value: i64,
}

/// The bytes of the default name of slot number `n`: "Slot " then the
/// decimal digits of `n`.
pub open spec fn slot_name(n: nat) -> Seq<u8> {
    seq![83u8, 108u8, 111u8, 116u8, 32u8] + dec_digits(n)
}

/// The default hue of slot index `i`, in permille of the hue circle:
/// 150 permille further per slot, wrapping around.
pub open spec fn slot_hue(i: nat) -> u16 {
    ((i * 150) % 1000) as u16
}

/// Build the default display name of slot number `n`.
pub fn make_slot_name(n: usize) -> (r: Vec<u8>)
    ensures
        r@ == slot_name(n as nat),
{
    let mut r: Vec<u8> = Vec::new();
    r.push(83);
    r.push(108);
    r.push(111);
    r.push(116);
    r.push(32);
    let mut d = dec_bytes(n);
    r.append(&mut d);
    proof {
        assert(r@ =~= slot_name(n as nat));
    }
    r
}

/// Compute the default hue of slot index `i`.
pub fn make_slot_hue(i: usize) -> (r: u16)
    ensures
        r == slot_hue(i as nat),
{
    let step: u64 = (i as u64) % 1000;
    let hue = (step * 150) % 1000;
    proof {
        vstd::arithmetic::div_mod::lemma_mul_mod_noop_left(i as int, 150int, 1000int);
    }
    hue as u16
}

/// The bytes of the default name of plot number `n`: "Plot " then the
/// decimal digits of `n`.
pub open spec fn plot_name(n: nat) -> Seq<u8> {
    seq![80u8, 108u8, 111u8, 116u8, 32u8] + dec_digits(n)
}

/// Build the default display name of plot number `n`.
pub fn make_plot_name(n: usize) -> (r: Vec<u8>)
    ensures
        r@ == plot_name(n as nat),
{
    let mut r: Vec<u8> = Vec::new();
    r.push(80);
    r.push(108);
    r.push(111);
    r.push(116);
    r.push(32);
    let mut d = dec_bytes(n);
    r.append(&mut d);
    proof {
        assert(r@ =~= plot_name(n as nat));
    }
    r
}

/// One visual surface: a plot of series data, or the console view.
/// `vrange` is the widening vertical range that the AutoMax policy
/// accumulates for this plot until it is reset.
#[derive(Debug, Clone, PartialEq, Eq)]
pub struct PlotData {
    pub id: usize,
    pub name: Vec<u8>,
    pub hidden: Vec<usize>,
    pub height: u32,
    pub console: bool,
    pub vrange: Option<ScaleRange>,
}

/// The bytes of the console surface's name, "Console".
pub open spec fn console_text() -> Seq<u8> {
    seq![67u8, 111u8, 110u8, 115u8, 111u8, 108u8, 101u8]
}

impl PlotData {
    /// A fresh plot surface under the given identifier and name.
    pub fn new(id: usize, name: Vec<u8>) -> (r: Self)
        ensures
            r.id == id,
            r.name == name,
            r.hidden@ == Seq::<usize>::empty(),
            r.height == 256,
            !r.console,
            r.vrange is None,
    {
        Self { id, name, hidden: Vec::new(), height: 256, console: false, vrange: None }
    }

    /// The console surface under the given identifier.
    pub fn console(id: usize) -> (r: Self)
        ensures
            r.id == id,
            r.name@ == console_text(),
            r.hidden@ == Seq::<usize>::empty(),
            r.height == 192,
            r.console,
            r.vrange is None,
    {
        let mut name: Vec<u8> = Vec::new();
        name.push(67);
        name.push(111);
        name.push(110);
        name.push(115);
        name.push(111);
        name.push(108);
        name.push(101);
        proof {
            assert(name@ =~= console_text());
        }
        Self { id, name, hidden: Vec::new(), height: 192, console: true, vrange: None }
    }
}

/// Everything a session persists across runs: connection settings,
/// plot settings, the slot list and the plot surfaces.
#[derive(Debug, Clone, PartialEq, Eq)]
pub struct SerialMonitorData {
    pub conn_config: ConnectionConfig,
    pub plot_config: PlotConfig,
    pub inp_slots: Vec<InputSlot>,
    pub plots: Vec<PlotData>,
}

impl Default for SerialMonitorData {
    /// Default settings, no slots, no plot surfaces.
    fn default() -> (r: Self)
        ensures
            is_default_conn(r.conn_config),
            r.plot_config == default_plot_config(),
            r.inp_slots@ == Seq::<InputSlot>::empty(),
            r.plots@ == Seq::<PlotData>::empty(),
    {
        Self {
            conn_config: Default::default(),
            plot_config: Default::default(),
            inp_slots: Vec::new(),
            plots: Vec::new(),
        }
    }
}

} // verus!
