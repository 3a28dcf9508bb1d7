//! A simulated valve backend: it keeps each valve's open/closed state in
//! memory instead of driving GPIO pins, and otherwise behaves like the
//! hardware layout.

use vstd::prelude::*;

use crate::embedded::configuration::{LayoutConfig, ValveConfig};
use crate::embedded::{Error, LayoutStatus, ToggleValveStatus, ValvePinNumber, ValveStatus};

verus! {

/// One simulated valve: a pin number and an in-memory open/closed state.
#[derive(Clone, Debug)]
pub struct FakeToggleValve {
    valve_pin_number: ValvePinNumber,
    status: ValveStatus,
}

impl FakeToggleValve {
    pub closed spec fn spec_pin(&self) -> ValvePinNumber {
        self.valve_pin_number
    }

    pub closed spec fn spec_status(&self) -> ValveStatus {
        self.status
    }

    /// A newly configured valve starts closed.
    pub fn from_config(valve: &ValveConfig) -> (v: FakeToggleValve)
        ensures
            v.spec_pin().0 == valve.spec_valve_pin_num(),
            v.spec_status() == ValveStatus::CLOSED,
    {
        FakeToggleValve {
            status: ValveStatus::CLOSED,
            valve_pin_number: ValvePinNumber(valve.get_valve_pin_num()),
        }
    }

    pub fn turn_on(&mut self) -> (r: Result<(), Error>)
        ensures
            r is Ok,
            final(self).spec_status() == ValveStatus::OPEN,
            final(self).spec_pin() == old(self).spec_pin(),
    {
        self.status = ValveStatus::OPEN;
        Ok(())
    }

    pub fn turn_off(&mut self) -> (r: Result<(), Error>)
        ensures
            r is Ok,
            final(self).spec_status() == ValveStatus::CLOSED,
            final(self).spec_pin() == old(self).spec_pin(),
    {
        self.status = ValveStatus::CLOSED;
        Ok(())
    }

    pub fn is_on(&self) -> (r: Result<bool, Error>)
        ensures
            r matches Ok(b) && b == (self.spec_status() == ValveStatus::OPEN),
    {
        Ok(match self.status {
            ValveStatus::OPEN => true,
            ValveStatus::CLOSED => false,
        })
    }

    pub fn get_valve_pin_num(&self) -> (r: &ValvePinNumber)
        ensures
            *r == self.spec_pin(),
    {
        &self.valve_pin_number
    }
}

/// True when `i` is the index of the first valve in `s` that carries `pin`.
pub open spec fn spec_first_pin_match(
    s: Seq<FakeToggleValve>,
    pin: ValvePinNumber,
    i: int,
) -> bool {
    &&& 0 <= i < s.len()
    &&& s[i].spec_pin() == pin
    &&& forall|j: int| 0 <= j < i ==> s[j].spec_pin() != pin
}

/// The simulated counterpart of the whole pin layout: one simulated valve
/// per configured valve.
pub struct FakePinLayout {
    toggle_valves: Vec<FakeToggleValve>,
}

impl FakePinLayout {
    pub closed spec fn view(&self) -> Seq<FakeToggleValve> {
        self.toggle_valves@
    }

    /// True when some valve in the layout carries this pin number.
    pub open spec fn spec_has_pin(&self, pin: ValvePinNumber) -> bool {
        exists|i: int| 0 <= i < self.view().len() && self.view()[i].spec_pin() == pin
    }

    /// Build the layout from its configuration: each configured valve
    /// becomes a simulated valve, closed.
    pub fn new(config: &LayoutConfig) -> (l: FakePinLayout)
        ensures
            l.view().len() == config.spec_valves().len(),
            forall|i: int|
                0 <= i < l.view().len() ==> l.view()[i].spec_pin().0
                    == config.spec_valves()[i].spec_valve_pin_num() && l.view()[i].spec_status()
                    == ValveStatus::CLOSED,
    {
        let valve_configs = config.get_valves();
        let mut toggle_valves: Vec<FakeToggleValve> = Vec::new();
        let mut i: usize = 0;
        while i < valve_configs.len()
            invariant
                i <= valve_configs@.len(),
                valve_configs@ == config.spec_valves(),
                toggle_valves@.len() == i,
                forall|j: int|
                    0 <= j < i ==> toggle_valves@[j].spec_pin().0
                        == config.spec_valves()[j].spec_valve_pin_num()
                        && toggle_valves@[j].spec_status() == ValveStatus::CLOSED,
            decreases valve_configs@.len() - i,
        {
            toggle_valves.push(FakeToggleValve::from_config(&valve_configs[i]));
            i = i + 1;
        }
        FakePinLayout { toggle_valves }
    }

    /// Locate the valve that carries this pin number; the index of the first
    /// match, or a failure when no valve has it.
    pub fn find_pin(&self, valve_pin_num: ValvePinNumber) -> (r: Result<usize, ()>)
        ensures
            match r {
                Ok(i) => spec_first_pin_match(self.view(), valve_pin_num, i as int),
                Err(()) => !self.spec_has_pin(valve_pin_num),
            },
    {
        let n = self.toggle_valves.len();
        let mut i: usize = 0;
        while i < n
            invariant
                n == self.view().len(),
                i <= n,
                forall|j: int| 0 <= j < i ==> self.view()[j].spec_pin() != valve_pin_num,
            decreases n - i,
        {
            if self.toggle_valves[i].get_valve_pin_num().0 == valve_pin_num.0 {
                return Ok(i);
            }
            i = i + 1;
        }
        Err(())
    }

    /// A snapshot of every valve's pin number and open/closed state, in
    /// layout order.
    pub fn get_layout_status(&self) -> (r: LayoutStatus)
        ensures
            r.valves@.len() == self.view().len(),
            forall|i: int|
                0 <= i < self.view().len() ==> r.valves@[i] == (ToggleValveStatus {
                    valve_pin_number: self.view()[i].spec_pin(),
                    status: self.view()[i].spec_status(),
                }),
    {
        let n = self.toggle_valves.len();
        let mut valves: Vec<ToggleValveStatus> = Vec::new();
        let mut i: usize = 0;
        while i < n
            invariant
                n == self.view().len(),
                i <= n,
                valves@.len() == i,
                forall|j: int|
                    0 <= j < i ==> valves@[j] == (ToggleValveStatus {
                        valve_pin_number: self.view()[j].spec_pin(),
                        status: self.view()[j].spec_status(),
                    }),
            decreases n - i,
        {
            let valve = &self.toggle_valves[i];
            let status = match valve.is_on() {
                Ok(true) => ValveStatus::OPEN,
                _ => ValveStatus::CLOSED,
            };
            valves.push(ToggleValveStatus { valve_pin_number: *valve.get_valve_pin_num(), status });
            i = i + 1;
        }
        LayoutStatus { valves }
    }

    /// Open the valve with this pin number: the first valve carrying the pin
    /// becomes open, every other valve keeps its state. A pin that no valve
    /// carries is silently ignored: the simulated backend never fails.
    pub fn turn_on(&mut self, valve_pin_num: ValvePinNumber) -> (r: Result<(), Error>)
        ensures
            r is Ok,
            final(self).view().len() == old(self).view().len(),
            forall|i: int|
                spec_first_pin_match(old(self).view(), valve_pin_num, i) ==> final(self).view()[i].spec_pin() == valve_pin_num && final(self).view()[i].spec_status()
                    == ValveStatus::OPEN && forall|j: int|
                    0 <= j < old(self).view().len() && j != i ==> final(self).view()[j] == old(self).view()[j],
            !old(self).spec_has_pin(valve_pin_num) ==> final(self).view() == old(self).view(),
    {
        if let Ok(i) = self.find_pin(valve_pin_num) {
            let pin = *self.toggle_valves[i].get_valve_pin_num();
            self.toggle_valves.set(
                i,
                FakeToggleValve { valve_pin_number: pin, status: ValveStatus::OPEN },
            );
        }
        Ok(())
    }

    /// Close the valve with this pin number: the first valve carrying the pin
    /// becomes closed, every other valve keeps its state. A pin that no valve
    /// carries is silently ignored.
    pub fn turn_off(&mut self, valve_pin_num: ValvePinNumber) -> (r: Result<(), Error>)
        ensures
            r is Ok,
            final(self).view().len() == old(self).view().len(),
            forall|i: int|
                spec_first_pin_match(old(self).view(), valve_pin_num, i) ==> final(self).view()[i].spec_pin() == valve_pin_num && final(self).view()[i].spec_status()
                    == ValveStatus::CLOSED && forall|j: int|
                    0 <= j < old(self).view().len() && j != i ==> final(self).view()[j] == old(self).view()[j],
            !old(self).spec_has_pin(valve_pin_num) ==> final(self).view() == old(self).view(),
    {
        if let Ok(i) = self.find_pin(valve_pin_num) {
            let pin = *self.toggle_valves[i].get_valve_pin_num();
            self.toggle_valves.set(
                i,
                FakeToggleValve { valve_pin_number: pin, status: ValveStatus::CLOSED },
            );
        }
        Ok(())
    }
}

} // verus!
