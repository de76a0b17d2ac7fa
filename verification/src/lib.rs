//! Firmware core for a network-attached multi-axis stepper motion controller.
//!
//! A host streams G-code lines over a socket; the device parses them into
//! commands, plans per-axis step counts and speeds in 10-bit fixed point,
//! drives the pulse generators, and answers with `(ack id)` / `(done id)`
//! s-expressions.  This crate holds the verified core of that pipeline:
//! the fixed-point arithmetic, the G-code grammar, the reply wire format,
//! the command queue and its ordering guarantees, the motion planner, and
//! the trapezoidal velocity planner.  The unverified shell around it (socket
//! handling, timers, the PIO hardware itself) lives outside this crate and
//! only exchanges plain values with it.

pub mod channel;
pub mod driver;
pub mod fixnum;
pub mod gcode;
pub mod motion;
pub mod movement;
pub mod server;
pub mod session;
pub mod units;
pub mod util;
pub mod wire;

use vstd::prelude::*;

verus! {

} // verus!
