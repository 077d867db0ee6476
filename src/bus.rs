use vstd::prelude::*;

use crate::host::HostCall;
use crate::pin::Pin;

verus! {

/// A bus device: its address, its clock and data pins, and up to four callbacks.
pub struct I2CDeviceConfig<CC, RC, WC, DC> {
    pub address: u32,
    pub scl: Pin,
    pub sda: Pin,
    /// Asked whether the device answers when addressed, and in which direction.
    pub connect_callback: Option<CC>,
    /// Asked for the next byte the bus master reads.
    pub read_callback: Option<RC>,
    /// Given each byte the bus master writes; answers whether it is acknowledged.
    pub write_callback: Option<WC>,
    /// Told that the transaction is over.
    pub disconnect_callback: Option<DC>,
}

/// What a bus notification comes to: an answer the library gives at once, or a callback
/// to run, which the caller then hands back with its result.
pub enum BusStep<F, T> {
    Reply(T),
    Call(F),
}

/// The answer to a connect when the device has no connect callback: accept.
pub const CONNECT_DEFAULT: bool = true;

/// The byte read from a device without a read callback.
pub const READ_DEFAULT: u8 = 0;

/// The acknowledgement of a write to a device without a write callback.
pub const WRITE_DEFAULT: bool = true;

/// The table of registered bus devices; a device's token is its place in it, and a
/// device stays registered for the life of the table.
pub struct DeviceRegistry<CC, RC, WC, DC> {
    devices: Vec<I2CDeviceConfig<CC, RC, WC, DC>>,
}

impl<CC, RC, WC, DC> View for DeviceRegistry<CC, RC, WC, DC> {
    type V = Seq<I2CDeviceConfig<CC, RC, WC, DC>>;

    closed spec fn view(&self) -> Seq<I2CDeviceConfig<CC, RC, WC, DC>> {
        self.devices@
    }
}

impl<CC, RC, WC, DC> I2CDeviceConfig<CC, RC, WC, DC> {
    pub open spec fn with_connect(self, c: Option<CC>) -> Self {
        I2CDeviceConfig { connect_callback: c, ..self }
    }

    pub open spec fn with_read(self, c: Option<RC>) -> Self {
        I2CDeviceConfig { read_callback: c, ..self }
    }

    pub open spec fn with_write(self, c: Option<WC>) -> Self {
        I2CDeviceConfig { write_callback: c, ..self }
    }

    pub open spec fn with_disconnect(self, c: Option<DC>) -> Self {
        I2CDeviceConfig { disconnect_callback: c, ..self }
    }
}

/// The step a notification takes for a slot: its callback where the device has one at
/// hand, else the default answer.
pub open spec fn step_of<F, T>(slot: Option<F>, default: T) -> BusStep<F, T> {
    match slot {
        Some(f) => BusStep::Call(f),
        None => BusStep::Reply(default),
    }
}

/// Registers `config` in `registry` and gives the request that wires it on the host,
/// under the token the host will name it by.
pub fn create<CC, RC, WC, DC>(
    registry: &mut DeviceRegistry<CC, RC, WC, DC>,
    config: I2CDeviceConfig<CC, RC, WC, DC>,
) -> (r: HostCall)
    ensures
        final(registry)@ == old(registry)@.push(config),
        r == (HostCall::I2CInit {
            token: old(registry)@.len() as usize,
            address: config.address,
            scl: config.scl.spec_id(),
            sda: config.sda.spec_id(),
        }),
{
    let call = HostCall::I2CInit {
        token: registry.devices.len(),
        address: config.address,
        scl: config.scl.get_id(),
        sda: config.sda.get_id(),
    };
    registry.devices.push(config);
    call
}

impl<CC, RC, WC, DC> DeviceRegistry<CC, RC, WC, DC> {
    /// An empty table.
    pub fn new() -> (r: Self)
        ensures
            r@ == Seq::<I2CDeviceConfig<CC, RC, WC, DC>>::empty(),
    {
        DeviceRegistry { devices: Vec::new() }
    }

    /// Number of registered devices.
    pub fn len(&self) -> (r: usize)
        ensures
            r == self@.len(),
    {
        self.devices.len()
    }

    /// The host addressed device `token`. Hands out its connect callback, which then
    /// waits to be handed back; without one, or for an unknown token, the answer is to
    /// accept.
    pub fn begin_connect(&mut self, token: usize) -> (r: BusStep<CC, bool>)
        ensures
            token < old(self)@.len() ==> {
                &&& r == step_of(old(self)@[token as int].connect_callback, CONNECT_DEFAULT)
                &&& final(self)@ == old(self)@.update(token as int, old(self)@[token as int].with_connect(None))
            },
            token >= old(self)@.len() ==> r == BusStep::<CC, bool>::Reply(CONNECT_DEFAULT) && final(self)@ == old(self)@,
    {
        if token >= self.devices.len() {
            return BusStep::Reply(CONNECT_DEFAULT);
        }
        match self.devices[token].connect_callback.take() {
            Some(f) => BusStep::Call(f),
            None => BusStep::Reply(CONNECT_DEFAULT),
        }
    }

    /// Hands back the connect callback of device `token` with what it answered, and
    /// gives that answer, unchanged, for the host.
    pub fn end_connect(&mut self, token: usize, callback: CC, accepted: bool) -> (r: bool)
        ensures
            r == accepted,
            token < old(self)@.len() && old(self)@[token as int].connect_callback is None
                ==> final(self)@ == old(self)@.update(token as int, old(self)@[token as int].with_connect(Some(callback))),
            !(token < old(self)@.len() && old(self)@[token as int].connect_callback is None)
                ==> final(self)@ == old(self)@,
    {
        if token < self.devices.len() && self.devices[token].connect_callback.is_none() {
            self.devices[token].connect_callback = Some(callback);
        }
        accepted
    }

    /// The bus master reads from device `token`. Hands out its read callback, which
    /// then waits to be handed back; without one, or for an unknown token, the byte
    /// read is 0.
    pub fn begin_read(&mut self, token: usize) -> (r: BusStep<RC, u8>)
        ensures
            token < old(self)@.len() ==> {
                &&& r == step_of(old(self)@[token as int].read_callback, READ_DEFAULT)
                &&& final(self)@ == old(self)@.update(token as int, old(self)@[token as int].with_read(None))
            },
            token >= old(self)@.len() ==> r == BusStep::<RC, u8>::Reply(READ_DEFAULT) && final(self)@ == old(self)@,
    {
        if token >= self.devices.len() {
            return BusStep::Reply(READ_DEFAULT);
        }
        match self.devices[token].read_callback.take() {
            Some(f) => BusStep::Call(f),
            None => BusStep::Reply(READ_DEFAULT),
        }
    }

    /// Hands back the read callback of device `token` with the byte it gave, and gives
    /// that byte, unchanged, for the host.
    pub fn end_read(&mut self, token: usize, callback: RC, data: u8) -> (r: u8)
        ensures
            r == data,
            token < old(self)@.len() && old(self)@[token as int].read_callback is None
                ==> final(self)@ == old(self)@.update(token as int, old(self)@[token as int].with_read(Some(callback))),
            !(token < old(self)@.len() && old(self)@[token as int].read_callback is None)
                ==> final(self)@ == old(self)@,
    {
        if token < self.devices.len() && self.devices[token].read_callback.is_none() {
            self.devices[token].read_callback = Some(callback);
        }
        data
    }

    /// The bus master writes a byte to device `token`. Hands out its write callback,
    /// which then waits to be handed back; without one, or for an unknown token, the
    /// byte is acknowledged.
    pub fn begin_write(&mut self, token: usize) -> (r: BusStep<WC, bool>)
        ensures
            token < old(self)@.len() ==> {
                &&& r == step_of(old(self)@[token as int].write_callback, WRITE_DEFAULT)
                &&& final(self)@ == old(self)@.update(token as int, old(self)@[token as int].with_write(None))
            },
            token >= old(self)@.len() ==> r == BusStep::<WC, bool>::Reply(WRITE_DEFAULT) && final(self)@ == old(self)@,
    {
        if token >= self.devices.len() {
            return BusStep::Reply(WRITE_DEFAULT);
        }
        match self.devices[token].write_callback.take() {
            Some(f) => BusStep::Call(f),
            None => BusStep::Reply(WRITE_DEFAULT),
        }
    }

    /// Hands back the write callback of device `token` with its acknowledgement, and
    /// gives that acknowledgement, unchanged, for the host.
    pub fn end_write(&mut self, token: usize, callback: WC, ack: bool) -> (r: bool)
        ensures
            r == ack,
            token < old(self)@.len() && old(self)@[token as int].write_callback is None
                ==> final(self)@ == old(self)@.update(token as int, old(self)@[token as int].with_write(Some(callback))),
            !(token < old(self)@.len() && old(self)@[token as int].write_callback is None)
                ==> final(self)@ == old(self)@,
    {
        if token < self.devices.len() && self.devices[token].write_callback.is_none() {
            self.devices[token].write_callback = Some(callback);
        }
        ack
    }

    /// The transaction with device `token` is over. Hands out its disconnect callback,
    /// which then waits to be handed back; without one, or for an unknown token,
    /// nothing is to be done.
    pub fn begin_disconnect(&mut self, token: usize) -> (r: BusStep<DC, ()>)
        ensures
            token < old(self)@.len() ==> {
                &&& r == step_of(old(self)@[token as int].disconnect_callback, ())
                &&& final(self)@ == old(self)@.update(token as int, old(self)@[token as int].with_disconnect(None))
            },
            token >= old(self)@.len() ==> r == BusStep::<DC, ()>::Reply(()) && final(self)@ == old(self)@,
    {
        if token >= self.devices.len() {
            return BusStep::Reply(());
        }
        match self.devices[token].disconnect_callback.take() {
            Some(f) => BusStep::Call(f),
            None => BusStep::Reply(()),
        }
    }

    /// Hands back the disconnect callback of device `token` once it has run.
    pub fn end_disconnect(&mut self, token: usize, callback: DC)
        ensures
            token < old(self)@.len() && old(self)@[token as int].disconnect_callback is None
                ==> final(self)@ == old(self)@.update(token as int, old(self)@[token as int].with_disconnect(Some(callback))),
            !(token < old(self)@.len() && old(self)@[token as int].disconnect_callback is None)
                ==> final(self)@ == old(self)@,
    {
        if token < self.devices.len() && self.devices[token].disconnect_callback.is_none() {
            self.devices[token].disconnect_callback = Some(callback);
        }
    }
}

} // verus!
