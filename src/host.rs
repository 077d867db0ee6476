use vstd::prelude::*;

pub use wokwi_chip_ll::PinId;

verus! {

/// One request to the simulation host.
///
/// The library decides which request is due; the plugin's glue performs it through the
/// host's interface and hands any answer back as a plain value.
#[derive(Debug, PartialEq, Eq)]
pub enum HostCall {
    /// Allocate a pin by name, in the given mode code.
    PinInit { name: String, mode: u32 },
    /// Read the raw level of a pin.
    PinRead { pin: PinId },
    /// Drive a pin to a raw level.
    PinWrite { pin: PinId, value: u32 },
    /// Change a pin's mode code.
    PinMode { pin: PinId, mode: u32 },
    /// Arm a watch on a pin for the given edge code.
    PinWatch { pin: PinId, edge: u32 },
    /// Disarm the watch on a pin.
    PinWatchStop { pin: PinId },
    /// Wire a bus device: its registration token, bus address and clock and data pins.
    I2CInit { token: usize, address: u32, scl: PinId, sda: PinId },
    /// Emit text on the debug channel.
    DebugPrint { text: String },
}

/// The channel for debug text.
pub struct Printer;

impl Printer {
    /// The request that emits `s` on the debug channel, unchanged.
    pub fn write_str(&mut self, s: &str) -> (r: HostCall)
        ensures
            r matches HostCall::DebugPrint { text } && text@ == s@,
    {
        HostCall::DebugPrint { text: s.to_owned() }
    }
}

} // verus!
