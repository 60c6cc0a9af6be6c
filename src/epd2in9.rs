//! SPI commands of the Waveshare 2.9" e-ink display.
use vstd::prelude::*;

verus! {

/// Commands of the 2.9" controller; the opcode of each is given by `address`.
#[allow(non_camel_case_types)]
#[derive(Copy, Clone, Debug, PartialEq, Eq, Structural)]
pub enum Command {
    /// Driver output control, followed by three data bytes.
    DRIVER_OUTPUT_CONTROL,
    /// Booster soft start control, followed by three data bytes.
    BOOSTER_SOFT_START_CONTROL,
    /// Deep sleep mode control, followed by one data byte.
    DEEP_SLEEP_MODE,
}

impl Command {
    /// The one-byte opcode of a command.
    pub open spec fn spec_address(self) -> u8 {
        match self {
            Command::DRIVER_OUTPUT_CONTROL => 0x01,
            Command::BOOSTER_SOFT_START_CONTROL => 0x0C,
            Command::DEEP_SLEEP_MODE => 0x10,
        }
    }

    /// Returns the opcode of the command.
    pub fn address(self) -> (r: u8)
        ensures
            r == self.spec_address(),
    {
        match self {
            Command::DRIVER_OUTPUT_CONTROL => 0x01,
            Command::BOOSTER_SOFT_START_CONTROL => 0x0C,
            Command::DEEP_SLEEP_MODE => 0x10,
        }
    }
}

} // verus!
