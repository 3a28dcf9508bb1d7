//! Commands that express intent towards the hardware: open or close one
//! valve. Produced by schedules, remote commands and physical buttons alike,
//! and applied by exactly one consumer.

use vstd::prelude::*;

use crate::embedded::fake::{spec_first_pin_match, FakePinLayout};
use crate::embedded::{Error, ValvePinNumber, ValveStatus};

verus! {

/// Open or close intent for a valve, independent of the hardware backend.
#[derive(Clone, Copy, Debug, PartialEq, Eq, Structural)]
pub enum LayoutCommand {
    Open(ValvePinNumber),
    Close(ValvePinNumber),
}

impl LayoutCommand {
    /// The valve the command speaks of.
    pub open spec fn spec_pin(&self) -> ValvePinNumber {
        match *self {
            LayoutCommand::Open(p) => p,
            LayoutCommand::Close(p) => p,
        }
    }
}

/// The valve state a command asks for: open for `Open`, closed for `Close`.
pub open spec fn spec_commanded_status(command: LayoutCommand) -> ValveStatus {
    match command {
        LayoutCommand::Open(_) => ValveStatus::OPEN,
        LayoutCommand::Close(_) => ValveStatus::CLOSED,
    }
}

/// Apply one layout command to the simulated layout: `Open` turns the named
/// valve on, `Close` turns it off. This is the decision step of the command
/// listener; the channel it listens on lives with the runtime.
pub fn apply_layout_command(layout: &mut FakePinLayout, command: LayoutCommand) -> (r: Result<
    (),
    Error,
>)
    ensures
        r is Ok,
        final(layout).view().len() == old(layout).view().len(),
        forall|i: int|
            spec_first_pin_match(old(layout).view(), command.spec_pin(), i) ==> final(layout).view()[i].spec_pin() == command.spec_pin() && final(layout).view()[i].spec_status()
                == spec_commanded_status(command) && forall|j: int|
                0 <= j < old(layout).view().len() && j != i ==> final(layout).view()[j] == old(layout).view()[j],
        !old(layout).spec_has_pin(command.spec_pin()) ==> final(layout).view() == old(layout).view(),
{
    match command {
        LayoutCommand::Open(pin_num) => layout.turn_on(pin_num),
        LayoutCommand::Close(pin_num) => layout.turn_off(pin_num),
    }
}

} // verus!
