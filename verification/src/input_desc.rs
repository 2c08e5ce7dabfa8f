//! Identifiers for logical actions and descriptors for physical inputs.
//!
//! Device codes are plain integers: a keyboard key code, a mouse button
//! code, a gamepad button or axis code as the host platform reports them.
//! An analog axis is split into its positive and negative half-axes, each
//! addressable as an independent descriptor.

use crate::assoc_map::MapKey;
use vstd::prelude::*;

verus! {

/// An opaque, comparable token identifying a logical action. One action may
/// be bound to any number of physical inputs, while one physical input maps
/// to at most one action.
#[derive(Clone, Copy, Debug, PartialEq, Eq, Structural)]
pub struct ActionId(pub u32);

/// Which half of an analog axis a descriptor addresses.
#[derive(Clone, Copy, Debug, PartialEq, Eq, Structural)]
pub enum AnalogDirection {
    Positive,
    Negative,
}

/// A mouse-motion axis.
#[derive(Clone, Copy, Debug, PartialEq, Eq, Structural)]
pub enum MouseAxis {
    Horizontal,
    Vertical,
}

/// One half-axis of one gamepad: the player slot the gamepad occupies, the
/// platform's code for the axis, and the addressed direction.
#[derive(Clone, Copy, Debug, PartialEq, Eq, Structural)]
pub struct GamepadAnalog {
    pub player: u32,
    pub axis: u32,
    pub direction: AnalogDirection,
}

/// A physical input, tagged by device category.
#[derive(Clone, Copy, Debug, PartialEq, Eq, Structural)]
pub enum DeviceInput {
    /// A keyboard key, by key code.
    KeyboardKey(u32),
    /// A mouse button, by button code.
    MouseButton(u32),
    /// One direction of mouse motion.
    MouseMotion(MouseAxis, AnalogDirection),
    /// A gamepad button: player slot, then button code.
    GamepadButton(u32, u32),
    /// One half of a gamepad axis.
    GamepadAxis(GamepadAnalog),
}

impl MapKey for ActionId {
    fn key_eq(&self, other: &Self) -> (r: bool)
        ensures
            r <==> self == other,
    {
        self.0 == other.0
    }
}

impl MapKey for DeviceInput {
    fn key_eq(&self, other: &Self) -> (r: bool)
        ensures
            r <==> self == other,
    {
        match (self, other) {
            (DeviceInput::KeyboardKey(a), DeviceInput::KeyboardKey(b)) => *a == *b,
            (DeviceInput::MouseButton(a), DeviceInput::MouseButton(b)) => *a == *b,
            (
                DeviceInput::MouseMotion(ax_a, dir_a),
                DeviceInput::MouseMotion(ax_b, dir_b),
            ) => *ax_a == *ax_b && *dir_a == *dir_b,
            (
                DeviceInput::GamepadButton(player_a, code_a),
                DeviceInput::GamepadButton(player_b, code_b),
            ) => *player_a == *player_b && *code_a == *code_b,
            (DeviceInput::GamepadAxis(a), DeviceInput::GamepadAxis(b)) => *a == *b,
            _ => false,
        }
    }
}

impl MapKey for u32 {
    fn key_eq(&self, other: &Self) -> (r: bool)
        ensures
            r <==> self == other,
    {
        *self == *other
    }
}

} // verus!
