//! Pin, watch and bus-device bookkeeping for a chip plugin of a simulation host.
//!
//! The host is reached only through `HostCall` values that this library hands out and
//! through raw values that the host hands back; everything that decides what to ask of
//! the host, and which callback a notification belongs to, is here.
pub mod bus;
pub mod host;
pub mod pin;
pub mod value;
pub mod watch;

pub use bus::{create, BusStep, DeviceRegistry, I2CDeviceConfig};
pub use host::{HostCall, PinId, Printer};
pub use pin::{GPIOPin, Pin};
pub use watch::{Dispatch, WatchRegistry, WatchSlot};
pub use value::{PinMode, PinValue, WatchEdge};
