//! Reports an unrecoverable fault over an ITM stimulus port.
//!
//! `wire` states the report's byte format and renders its numbers, `stim`
//! decides each transfer to the port from its ready bit, and `handler` lays
//! out the fault handler's moves, from masking interrupts to the final halt.
use vstd::prelude::*;

pub mod stim;
pub mod wire;
pub mod handler;

verus! {

} // verus!
