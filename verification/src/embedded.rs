//! Valve hardware model: pin numbers, valve states, and the status values
//! reported for a whole pin layout.

pub mod command;
pub mod configuration;
pub mod fake;

use vstd::prelude::*;

verus! {

/// An opaque small integer identifying one controllable valve.
#[derive(Clone, Copy, Debug, PartialEq, Eq, Structural, Hash)]
pub struct ValvePinNumber(pub u8);

/// Whether a valve currently lets water through.
#[derive(Clone, Copy, Debug, PartialEq, Eq, Structural)]
pub enum ValveStatus {
    OPEN,
    CLOSED,
}

/// The reported state of a single valve.
#[derive(Clone, Copy, Debug, PartialEq, Eq, Structural)]
pub struct ToggleValveStatus {
    pub valve_pin_number: ValvePinNumber,
    pub status: ValveStatus,
}

/// The reported state of every valve in a layout.
#[derive(Clone, Debug)]
pub struct LayoutStatus {
    pub valves: Vec<ToggleValveStatus>,
}

/// A failure reported by the hardware layer.
#[derive(Clone, Debug)]
pub enum Error {
    Unexpected(String),
}

impl Error {
    /// The human-readable text of the failure.
    pub fn message(&self) -> (r: &String)
        ensures
            self matches Error::Unexpected(s) && r == s,
    {
        match self {
            Error::Unexpected(s) => s,
        }
    }
}

/// Whether closing this valve should also power the pump off: the pump is
/// needed exactly while some other valve is still open, so it goes off only
/// when no other valve is.
pub fn should_power_off_pump(status: &LayoutStatus, closing: ValvePinNumber) -> (r: bool)
    ensures
        r == !(exists|i: int|
            0 <= i < status.valves@.len() && status.valves@[i].valve_pin_number != closing
                && status.valves@[i].status == ValveStatus::OPEN),
{
    let n = status.valves.len();
    let mut i: usize = 0;
    while i < n
        invariant
            n == status.valves@.len(),
            i <= n,
            forall|j: int|
                0 <= j < i ==> !(status.valves@[j].valve_pin_number != closing
                    && status.valves@[j].status == ValveStatus::OPEN),
        decreases n - i,
    {
        let v = &status.valves[i];
        let is_open = match v.status {
            ValveStatus::OPEN => true,
            ValveStatus::CLOSED => false,
        };
        if v.valve_pin_number.0 != closing.0 && is_open {
            return false;
        }
        i = i + 1;
    }
    true
}

} // verus!
