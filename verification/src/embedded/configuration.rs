//! Static description of the pin layout: which pins drive valves, buttons,
//! status LEDs, the pump, and the power and error indicators.

use vstd::prelude::*;

verus! {

/// Configuration of one valve: its GPIO pin and the optional pins of its
/// status LED and its physical push button.
#[derive(Clone, Debug)]
pub struct ValveConfig {
    valve: u8,
    button: Option<u8>,
    status_led: Option<u8>,
}

impl ValveConfig {
    pub fn new(valve: u8, button: Option<u8>, status_led: Option<u8>) -> (c: ValveConfig)
        ensures
            c.spec_valve_pin_num() == valve,
            c.spec_button_pin_num() == button,
            c.spec_status_led_pin_num() == status_led,
    {
        ValveConfig { valve, button, status_led }
    }

    pub closed spec fn spec_valve_pin_num(&self) -> u8 {
        self.valve
    }

    pub closed spec fn spec_button_pin_num(&self) -> Option<u8> {
        self.button
    }

    pub closed spec fn spec_status_led_pin_num(&self) -> Option<u8> {
        self.status_led
    }

    pub fn get_valve_pin_num(&self) -> (r: u8)
        ensures
            r == self.spec_valve_pin_num(),
    {
        self.valve
    }

    pub fn get_status_led_pin_num(&self) -> (r: Option<u8>)
        ensures
            r == self.spec_status_led_pin_num(),
    {
        self.status_led
    }

    pub fn get_button_pin_num(&self) -> (r: Option<u8>)
        ensures
            r == self.spec_button_pin_num(),
    {
        self.button
    }
}

/// Configuration of the pump: its power pin and an optional status LED pin.
#[derive(Clone, Debug)]
pub struct PumpConfig {
    power_pin: u8,
    status_led: Option<u8>,
}

impl PumpConfig {
    pub fn new(power_pin: u8, status_led: Option<u8>) -> (c: PumpConfig)
        ensures
            c.spec_power_pin_num() == power_pin,
            c.spec_status_led_pin_num() == status_led,
    {
        PumpConfig { power_pin, status_led }
    }

    pub closed spec fn spec_power_pin_num(&self) -> u8 {
        self.power_pin
    }

    pub closed spec fn spec_status_led_pin_num(&self) -> Option<u8> {
        self.status_led
    }

    pub fn get_power_pin_num(&self) -> (r: u8)
        ensures
            r == self.spec_power_pin_num(),
    {
        self.power_pin
    }

    pub fn get_status_led_pin_num(&self) -> (r: Option<u8>)
        ensures
            r == self.spec_status_led_pin_num(),
    {
        self.status_led
    }
}

/// The whole static pin layout of the device.
#[derive(Clone, Debug)]
pub struct LayoutConfig {
    power: Option<u8>,
    error: Option<u8>,
    pump: Option<PumpConfig>,
    valves: Vec<ValveConfig>,
}

impl LayoutConfig {
    pub fn new(
        power: Option<u8>,
        error: Option<u8>,
        pump: Option<PumpConfig>,
        valves: Vec<ValveConfig>,
    ) -> (c: LayoutConfig)
        ensures
            c.spec_power_pin_num() == power,
            c.spec_error_pin_num() == error,
            c.spec_pump() == pump,
            c.spec_valves() == valves@,
    {
        LayoutConfig { power, error, pump, valves }
    }

    pub closed spec fn spec_power_pin_num(&self) -> Option<u8> {
        self.power
    }

    pub closed spec fn spec_error_pin_num(&self) -> Option<u8> {
        self.error
    }

    pub closed spec fn spec_pump(&self) -> Option<PumpConfig> {
        self.pump
    }

    pub closed spec fn spec_valves(&self) -> Seq<ValveConfig> {
        self.valves@
    }

    pub fn get_power_pin_num(&self) -> (r: Option<u8>)
        ensures
            r == self.spec_power_pin_num(),
    {
        self.power
    }

    pub fn get_error_pin_num(&self) -> (r: Option<u8>)
        ensures
            r == self.spec_error_pin_num(),
    {
        self.error
    }

    pub fn get_valves(&self) -> (r: &Vec<ValveConfig>)
        ensures
            r@ == self.spec_valves(),
    {
        &self.valves
    }

    pub fn get_pump(&self) -> (r: &Option<PumpConfig>)
        ensures
            *r == self.spec_pump(),
    {
        &self.pump
    }
}

} // verus!
