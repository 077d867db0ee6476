use vstd::prelude::*;

use crate::host::{HostCall, PinId};
use crate::value::{edge_code, mode_code, raw_of, PinMode, PinValue, WatchEdge};

verus! {

/// A pin of the host, known by the id the host gave it, with the mode it was last set to.
pub struct Pin {
    id: PinId,
    mode: PinMode,
}

/// The same handle under the name the plugin API also uses for it.
pub type GPIOPin = Pin;

impl Pin {
    /// The host-assigned id of this pin.
    pub closed spec fn spec_id(&self) -> PinId {
        self.id
    }

    /// The mode this pin was last set to.
    pub closed spec fn spec_mode(&self) -> PinMode {
        self.mode
    }

    /// The request that allocates a pin named `name` in `mode`; the id the host answers
    /// with is then handed to `Pin::new`.
    pub fn init_call(name: &str, mode: PinMode) -> (r: HostCall)
        ensures
            r matches HostCall::PinInit { name: n, mode: m } && n@ == name@ && m == mode_code(mode),
    {
        HostCall::PinInit { name: name.to_owned(), mode: mode.code() }
    }

    /// A handle over the id the host assigned to a pin created in `mode`.
    pub fn new(id: PinId, mode: PinMode) -> (r: Pin)
        ensures
            r.spec_id() == id,
            r.spec_mode() == mode,
    {
        Pin { id, mode }
    }

    /// The request that reads this pin; the raw answer reads as `PinValue::from_raw`.
    pub fn read(&self) -> (r: HostCall)
        ensures
            r == (HostCall::PinRead { pin: self.spec_id() }),
    {
        HostCall::PinRead { pin: self.id }
    }

    /// The request that drives this pin to `value`.
    pub fn write(&self, value: PinValue) -> (r: HostCall)
        ensures
            r == (HostCall::PinWrite { pin: self.spec_id(), value: raw_of(value) }),
    {
        HostCall::PinWrite { pin: self.id, value: value.raw() }
    }

    /// The request that drives this pin low.
    pub fn set_low(&self) -> (r: HostCall)
        ensures
            r == (HostCall::PinWrite { pin: self.spec_id(), value: raw_of(PinValue::Low) }),
    {
        self.write(PinValue::Low)
    }

    /// The request that drives this pin high.
    pub fn set_high(&self) -> (r: HostCall)
        ensures
            r == (HostCall::PinWrite { pin: self.spec_id(), value: raw_of(PinValue::High) }),
    {
        self.write(PinValue::High)
    }

    /// The mode this pin was last set to.
    pub fn get_mode(&self) -> (r: PinMode)
        ensures
            r == self.spec_mode(),
    {
        self.mode
    }

    /// Records `mode` as this pin's mode and gives the request that sets it on the host.
    pub fn set_mode(&mut self, mode: PinMode) -> (r: HostCall)
        ensures
            final(self).spec_mode() == mode,
            final(self).spec_id() == old(self).spec_id(),
            r == (HostCall::PinMode { pin: old(self).spec_id(), mode: mode_code(mode) }),
    {
        self.mode = mode;
        HostCall::PinMode { pin: self.id, mode: mode.code() }
    }

    /// The host-assigned id of this pin.
    pub fn get_id(&self) -> (r: PinId)
        ensures
            r == self.spec_id(),
    {
        self.id
    }
}

/// The request that arms a watch for `edge` on the pin with id `pin`.
pub open spec fn watch_request(pin: PinId, edge: WatchEdge) -> HostCall {
    HostCall::PinWatch { pin, edge: edge_code(edge) }
}

} // verus!
