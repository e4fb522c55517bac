//! Core of a line-oriented serial telemetry monitor.
//!
//! The library owns the acquisition and windowing engine of the monitor:
//! the start-trigger state machine that decides when framed records begin
//! to be reported, the schema parser that infers and enforces a stable
//! numeric column count, the sample store with its continuous and cyclic
//! windowing queries and auto-scale policies, and the session controller
//! that ties them together.
//!
//! Time is carried as whole milliseconds and numeric samples as
//! fixed-point values scaled by 1000, so that every rule of the engine is
//! stated and proved over plain integers. The unverified frontend owns
//! the device handle, the worker thread and all rendering; it feeds the
//! library framed records and elapsed times and reads back the windowed
//! views.

use vstd::prelude::*;

pub mod data;
pub mod monitor;
pub mod notify;
pub mod numeric;
pub mod serial_parser;
pub mod serial_reader;
pub mod text;
pub mod window;

verus! {

/// Scale factor of fixed-point sample values: a stored value of 1000
/// stands for the telemetry reading 1.0.
pub const VALUE_SCALE: u64 = 1000;

} // verus!
