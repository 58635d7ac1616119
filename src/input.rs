use vstd::prelude::*;

verus! {

/// Analog values are fixed-point integers: `ANALOG_ONE` stands for a full
/// deflection of 1.0, so the usual range is `-ANALOG_ONE..=ANALOG_ONE`.
pub const ANALOG_ONE: i32 = 1_000_000;

/// Magnitude at or below which an analog signal counts as not actuated
/// (a quarter of full deflection).
pub const DEAD_ZONE: i32 = 250_000;

/// Abstract gamepad buttons.
#[derive(Clone, Copy, Debug, PartialEq, Eq, Hash, Structural)]
pub enum ButtonId {
    South,
    East,
    North,
    West,
    C,
    Z,
    LeftTrigger,
    LeftTrigger2,
    RightTrigger,
    RightTrigger2,
    Select,
    Start,
    Mode,
    LeftThumb,
    RightThumb,
    DPadUp,
    DPadDown,
    DPadLeft,
    DPadRight,
    Unknown,
}

/// Abstract gamepad axes.
#[derive(Clone, Copy, Debug, PartialEq, Eq, Hash, Structural)]
pub enum AxisId {
    LeftStickX,
    LeftStickY,
    LeftZ,
    RightStickX,
    RightStickY,
    RightZ,
    DPadX,
    DPadY,
    Unknown,
}

/// One raw input event, with analog values in `ANALOG_ONE` units.
#[derive(Clone, Copy, Debug, PartialEq, Eq, Structural)]
pub enum RawEvent {
    ButtonChanged(ButtonId, i32),
    AxisChanged(AxisId, i32),
    Disconnected,
    /// Any event that the normalization ignores.
    Other,
}

impl ButtonId {
    pub open spec fn spec_is_dpad(self) -> bool {
        self == ButtonId::DPadUp || self == ButtonId::DPadDown || self == ButtonId::DPadLeft
            || self == ButtonId::DPadRight
    }

    /// Whether this is one of the four directional-pad buttons.
    pub fn is_dpad(self) -> (r: bool)
        ensures
            r == self.spec_is_dpad(),
    {
        match self {
            ButtonId::DPadUp | ButtonId::DPadDown | ButtonId::DPadLeft | ButtonId::DPadRight => true,
            _ => false,
        }
    }
}

/// The direction level of an analog value: its sign when its magnitude
/// exceeds the dead zone, else 0.
pub open spec fn quantize(v: int) -> int {
    if v > DEAD_ZONE {
        1
    } else if v < -DEAD_ZONE {
        -1
    } else {
        0
    }
}

/// Whether an analog value counts as pressed.
pub open spec fn pressed(v: int) -> bool {
    v > DEAD_ZONE
}

} // verus!
