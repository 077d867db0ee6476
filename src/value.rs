use vstd::prelude::*;

verus! {

/// Raw level the host uses for a low pin.
pub const LOW: u32 = 0;

/// Raw level the host uses for a high pin.
pub const HIGH: u32 = 1;

/// Mode codes of the host's pin interface.
pub const INPUT: u32 = 0;
pub const OUTPUT: u32 = 1;
pub const INPUT_PULLUP: u32 = 2;
pub const INPUT_PULLDOWN: u32 = 3;
pub const ANALOG: u32 = 4;
pub const OUTPUT_LOW: u32 = 16;
pub const OUTPUT_HIGH: u32 = 17;

/// Edge codes of the host's watch interface.
pub const RISING: u32 = 1;
pub const FALLING: u32 = 2;
pub const BOTH: u32 = 3;

/// How a pin is configured on the host.
#[derive(Clone, Copy, Debug, PartialEq, Eq, Structural)]
pub enum PinMode {
    Input,
    Output,
    InputPullup,
    InputPulldown,
    Analog,
    OutputLow,
    OutputHigh,
}

/// The digital level of a pin.
#[derive(Clone, Copy, Debug, PartialEq, Eq, Structural)]
pub enum PinValue {
    Low,
    High,
}

/// Which transitions of a watched pin are reported.
#[derive(Clone, Copy, Debug, PartialEq, Eq, Structural)]
pub enum WatchEdge {
    Rising,
    Falling,
    Both,
}

/// The host's code for a pin mode.
pub open spec fn mode_code(mode: PinMode) -> u32 {
    match mode {
        PinMode::Input => INPUT,
        PinMode::Output => OUTPUT,
        PinMode::InputPullup => INPUT_PULLUP,
        PinMode::InputPulldown => INPUT_PULLDOWN,
        PinMode::Analog => ANALOG,
        PinMode::OutputLow => OUTPUT_LOW,
        PinMode::OutputHigh => OUTPUT_HIGH,
    }
}

/// The host's code for a watch edge.
pub open spec fn edge_code(edge: WatchEdge) -> u32 {
    match edge {
        WatchEdge::Rising => RISING,
        WatchEdge::Falling => FALLING,
        WatchEdge::Both => BOTH,
    }
}

/// The level that a raw host value stands for: zero is low, anything else high.
pub open spec fn level_of(raw: u32) -> PinValue {
    if raw == 0 {
        PinValue::Low
    } else {
        PinValue::High
    }
}

/// The opposite level.
pub open spec fn negate(v: PinValue) -> PinValue {
    match v {
        PinValue::Low => PinValue::High,
        PinValue::High => PinValue::Low,
    }
}

/// The raw value the host is sent for a level.
pub open spec fn raw_of(v: PinValue) -> u32 {
    match v {
        PinValue::Low => LOW,
        PinValue::High => HIGH,
    }
}

impl PinMode {
    /// The host's code for this mode.
    pub fn code(self) -> (r: u32)
        ensures
            r == mode_code(self),
    {
        match self {
            PinMode::Input => INPUT,
            PinMode::Output => OUTPUT,
            PinMode::InputPullup => INPUT_PULLUP,
            PinMode::InputPulldown => INPUT_PULLDOWN,
            PinMode::Analog => ANALOG,
            PinMode::OutputLow => OUTPUT_LOW,
            PinMode::OutputHigh => OUTPUT_HIGH,
        }
    }
}

impl WatchEdge {
    /// The host's code for this edge.
    pub fn code(self) -> (r: u32)
        ensures
            r == edge_code(self),
    {
        match self {
            WatchEdge::Rising => RISING,
            WatchEdge::Falling => FALLING,
            WatchEdge::Both => BOTH,
        }
    }
}

impl PinValue {
    /// Reads a raw host level: zero is low, every other value is high.
    pub fn from_raw(raw: u32) -> (r: PinValue)
        ensures
            r == level_of(raw),
            r == PinValue::Low <==> raw == 0,
    {
        if raw == 0 {
            PinValue::Low
        } else {
            PinValue::High
        }
    }

    /// The raw level sent to the host: 0 for low, 1 for high.
    pub fn raw(self) -> (r: u32)
        ensures
            r == raw_of(self),
            level_of(r) == self,
    {
        match self {
            PinValue::Low => LOW,
            PinValue::High => HIGH,
        }
    }
}

impl core::ops::Not for PinValue {
    type Output = PinValue;

    fn not(self) -> (r: PinValue)
        ensures
            r == negate(self),
    {
        match self {
            PinValue::Low => PinValue::High,
            PinValue::High => PinValue::Low,
        }
    }
}

impl vstd::std_specs::ops::NotSpecImpl for PinValue {
    open spec fn obeys_not_spec() -> bool {
        true
    }

    open spec fn not_req(self) -> bool {
        true
    }

    open spec fn not_spec(self) -> PinValue {
        negate(self)
    }
}

/// Negation swaps the two levels and undoes itself.
pub proof fn lemma_negate_involution(v: PinValue)
    ensures
        negate(PinValue::Low) == PinValue::High,
        negate(PinValue::High) == PinValue::Low,
        negate(negate(v)) == v,
        negate(v) != v,
{
}

/// Every nonzero raw level reads as high; zero reads as low; writing a level and
/// reading it back gives the same level.
pub proof fn lemma_level_encoding(raw: u32, v: PinValue)
    ensures
        level_of(0) == PinValue::Low,
        raw != 0 ==> level_of(raw) == PinValue::High,
        level_of(raw_of(v)) == v,
{
}

} // verus!
