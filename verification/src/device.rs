//! One iteration of the main loop: poll the latch, and report if it was set.
//!
//! The loop has two states, idle and reporting. It leaves idle exactly when
//! `take` on the edge latch returns true; it then samples the bus, renders
//! the report line, and is back in idle — reporting never outlasts one call.
//! When no edge is pending, nothing is sampled and nothing is emitted. The
//! caller writes the returned line to the serial sink and may then suspend
//! until the next interrupt.

use vstd::prelude::*;
use crate::latch::{after_take, take_result, EdgeLatch};
use crate::reporter::{render_line, spec_report_line};

verus! {

/// Services at most one pending edge: clears the latch, and returns the
/// report line of the current bus state exactly when an edge was pending.
pub fn poll(latch: &mut EdgeLatch, pins: &[bool; 16]) -> (emitted: Option<Vec<char>>)
    ensures
        final(latch)@ == after_take(old(latch)@),
        take_result(old(latch)@) ==> (emitted matches Some(line) && line@ == spec_report_line(
            pins@,
        )),
        !take_result(old(latch)@) ==> emitted is None,
{
    if latch.take() {
        Some(render_line(pins))
    } else {
        None
    }
}

} // verus!
