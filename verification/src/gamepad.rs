//! Gamepad bindings: buttons and half-axes per player slot, and the
//! half-axis filter a gamepad-axis adapter applies to a signed axis value.

use crate::input_desc::{ActionId, AnalogDirection, DeviceInput, GamepadAnalog};
use crate::kurinji::Kurinji;
use crate::strength::STRENGTH_SCALE;
use vstd::prelude::*;

verus! {

/// The strength a half-axis adapter reports for a signed axis value: the
/// magnitude when the value points into the addressed direction, `0`
/// otherwise.
pub open spec fn half_axis_value(direction: AnalogDirection, value: int) -> int {
    match direction {
        AnalogDirection::Positive => if value > 0 {
            value
        } else {
            0
        },
        AnalogDirection::Negative => if value < 0 {
            -value
        } else {
            0
        },
    }
}

/// Filters a signed fixed-point axis value down to the half-axis a binding
/// addresses; a result of `0` means the binding's direction saw no input.
pub fn half_axis_strength(direction: AnalogDirection, value: i32) -> (r: u32)
    requires
        -(STRENGTH_SCALE as int) <= value <= STRENGTH_SCALE as int,
    ensures
        r == half_axis_value(direction, value as int),
        r <= STRENGTH_SCALE,
{
    match direction {
        AnalogDirection::Positive => if value > 0 {
            value as u32
        } else {
            0
        },
        AnalogDirection::Negative => if value < 0 {
            (-value) as u32
        } else {
            0
        },
    }
}

impl Kurinji {
    /// Binds a button of player slot `0`'s gamepad to an action.
    pub fn bind_gamepad_button_pressed(&mut self, pad_button: u32, action: ActionId)
        requires
            old(self).wf(),
        ensures
            final(self).wf(),
            final(self).live_bindings().table_map() == old(self).live_bindings()
                .table_map().insert(DeviceInput::GamepadButton(0, pad_button), action),
            final(self).live_bindings().deadzone_map()
                == old(self).live_bindings().deadzone_map(),
            final(self).live_bindings().phase_map() == old(self).live_bindings().phase_map(),
            final(self).curve_map() == old(self).curve_map(),
            Self::same_strengths(*old(self), *final(self)),
            Self::same_stack(*old(self), *final(self)),
            Self::same_pads(*old(self), *final(self)),
    {
        self.bind_gamepad_button_pressed_with_player(0, pad_button, action)
    }

    /// Binds a button of one player slot's gamepad to an action.
    pub fn bind_gamepad_button_pressed_with_player(
        &mut self,
        player: u32,
        pad_button: u32,
        action: ActionId,
    )
        requires
            old(self).wf(),
        ensures
            final(self).wf(),
            final(self).live_bindings().table_map() == old(self).live_bindings()
                .table_map().insert(DeviceInput::GamepadButton(player, pad_button), action),
            final(self).live_bindings().deadzone_map()
                == old(self).live_bindings().deadzone_map(),
            final(self).live_bindings().phase_map() == old(self).live_bindings().phase_map(),
            final(self).curve_map() == old(self).curve_map(),
            Self::same_strengths(*old(self), *final(self)),
            Self::same_stack(*old(self), *final(self)),
            Self::same_pads(*old(self), *final(self)),
    {
        self.bind_input(DeviceInput::GamepadButton(player, pad_button), action)
    }

    /// Unbinds a button of player slot `0`'s gamepad.
    pub fn unbind_gamepad_button_pressed(&mut self, pad_button: u32)
        requires
            old(self).wf(),
        ensures
            final(self).wf(),
            final(self).live_bindings().table_map() == old(self).live_bindings()
                .table_map().remove(DeviceInput::GamepadButton(0, pad_button)),
            final(self).live_bindings().deadzone_map()
                == old(self).live_bindings().deadzone_map(),
            final(self).live_bindings().phase_map() == old(self).live_bindings().phase_map(),
            final(self).curve_map() == old(self).curve_map(),
            Self::same_strengths(*old(self), *final(self)),
            Self::same_stack(*old(self), *final(self)),
            Self::same_pads(*old(self), *final(self)),
    {
        self.unbind_gamepad_button_pressed_with_player(0, pad_button)
    }

    /// Unbinds a button of one player slot's gamepad.
    pub fn unbind_gamepad_button_pressed_with_player(&mut self, player: u32, pad_button: u32)
        requires
            old(self).wf(),
        ensures
            final(self).wf(),
            final(self).live_bindings().table_map() == old(self).live_bindings()
                .table_map().remove(DeviceInput::GamepadButton(player, pad_button)),
            final(self).live_bindings().deadzone_map()
                == old(self).live_bindings().deadzone_map(),
            final(self).live_bindings().phase_map() == old(self).live_bindings().phase_map(),
            final(self).curve_map() == old(self).curve_map(),
            Self::same_strengths(*old(self), *final(self)),
            Self::same_stack(*old(self), *final(self)),
            Self::same_pads(*old(self), *final(self)),
    {
        self.unbind_input(DeviceInput::GamepadButton(player, pad_button))
    }

    /// Binds one half-axis of player slot `0`'s gamepad to an action.
    pub fn bind_gamepad_axis(
        &mut self,
        axis_type: u32,
        analog_direction: AnalogDirection,
        action: ActionId,
    )
        requires
            old(self).wf(),
        ensures
            final(self).wf(),
            final(self).live_bindings().table_map() == old(self).live_bindings()
                .table_map().insert(
                DeviceInput::GamepadAxis(
                    GamepadAnalog { player: 0, axis: axis_type, direction: analog_direction },
                ),
                action,
            ),
            final(self).live_bindings().deadzone_map()
                == old(self).live_bindings().deadzone_map(),
            final(self).live_bindings().phase_map() == old(self).live_bindings().phase_map(),
            final(self).curve_map() == old(self).curve_map(),
            Self::same_strengths(*old(self), *final(self)),
            Self::same_stack(*old(self), *final(self)),
            Self::same_pads(*old(self), *final(self)),
    {
        self.bind_gamepad_axis_with_handle(0, axis_type, analog_direction, action)
    }

    /// Binds one gamepad half-axis, given whole, to an action.
    pub fn bind_gamepad_axis_with_axis(&mut self, analog: GamepadAnalog, action: ActionId)
        requires
            old(self).wf(),
        ensures
            final(self).wf(),
            final(self).live_bindings().table_map() == old(self).live_bindings()
                .table_map().insert(DeviceInput::GamepadAxis(analog), action),
            final(self).live_bindings().deadzone_map()
                == old(self).live_bindings().deadzone_map(),
            final(self).live_bindings().phase_map() == old(self).live_bindings().phase_map(),
            final(self).curve_map() == old(self).curve_map(),
            Self::same_strengths(*old(self), *final(self)),
            Self::same_stack(*old(self), *final(self)),
            Self::same_pads(*old(self), *final(self)),
    {
        self.bind_input(DeviceInput::GamepadAxis(analog), action)
    }

    /// Binds one half-axis of one player slot's gamepad to an action.
    pub fn bind_gamepad_axis_with_handle(
        &mut self,
        pad_handle: u32,
        axis_type: u32,
        analog_direction: AnalogDirection,
        action: ActionId,
    )
        requires
            old(self).wf(),
        ensures
            final(self).wf(),
            final(self).live_bindings().table_map() == old(self).live_bindings()
                .table_map().insert(
                DeviceInput::GamepadAxis(
                    GamepadAnalog {
                        player: pad_handle,
                        axis: axis_type,
                        direction: analog_direction,
                    },
                ),
                action,
            ),
            final(self).live_bindings().deadzone_map()
                == old(self).live_bindings().deadzone_map(),
            final(self).live_bindings().phase_map() == old(self).live_bindings().phase_map(),
            final(self).curve_map() == old(self).curve_map(),
            Self::same_strengths(*old(self), *final(self)),
            Self::same_stack(*old(self), *final(self)),
            Self::same_pads(*old(self), *final(self)),
    {
        self.bind_gamepad_axis_with_axis(
            GamepadAnalog { player: pad_handle, axis: axis_type, direction: analog_direction },
            action,
        )
    }

    /// Unbinds one half-axis of player slot `0`'s gamepad.
    pub fn unbind_gamepad_axis(&mut self, axis_type: u32, analog_direction: AnalogDirection)
        requires
            old(self).wf(),
        ensures
            final(self).wf(),
            final(self).live_bindings().table_map() == old(self).live_bindings()
                .table_map().remove(
                DeviceInput::GamepadAxis(
                    GamepadAnalog { player: 0, axis: axis_type, direction: analog_direction },
                ),
            ),
            final(self).live_bindings().deadzone_map()
                == old(self).live_bindings().deadzone_map(),
            final(self).live_bindings().phase_map() == old(self).live_bindings().phase_map(),
            final(self).curve_map() == old(self).curve_map(),
            Self::same_strengths(*old(self), *final(self)),
            Self::same_stack(*old(self), *final(self)),
            Self::same_pads(*old(self), *final(self)),
    {
        self.unbind_gamepad_axis_with_handle(0, axis_type, analog_direction)
    }

    /// Unbinds one gamepad half-axis given whole.
    pub fn unbind_gamepad_axis_with_axis(&mut self, analog: GamepadAnalog)
        requires
            old(self).wf(),
        ensures
            final(self).wf(),
            final(self).live_bindings().table_map() == old(self).live_bindings()
                .table_map().remove(DeviceInput::GamepadAxis(analog)),
            final(self).live_bindings().deadzone_map()
                == old(self).live_bindings().deadzone_map(),
            final(self).live_bindings().phase_map() == old(self).live_bindings().phase_map(),
            final(self).curve_map() == old(self).curve_map(),
            Self::same_strengths(*old(self), *final(self)),
            Self::same_stack(*old(self), *final(self)),
            Self::same_pads(*old(self), *final(self)),
    {
        self.unbind_input(DeviceInput::GamepadAxis(analog))
    }

    /// Unbinds one half-axis of one player slot's gamepad.
    pub fn unbind_gamepad_axis_with_handle(
        &mut self,
        pad_handle: u32,
        axis_type: u32,
        analog_direction: AnalogDirection,
    )
        requires
            old(self).wf(),
        ensures
            final(self).wf(),
            final(self).live_bindings().table_map() == old(self).live_bindings()
                .table_map().remove(
                DeviceInput::GamepadAxis(
                    GamepadAnalog {
                        player: pad_handle,
                        axis: axis_type,
                        direction: analog_direction,
                    },
                ),
            ),
            final(self).live_bindings().deadzone_map()
                == old(self).live_bindings().deadzone_map(),
            final(self).live_bindings().phase_map() == old(self).live_bindings().phase_map(),
            final(self).curve_map() == old(self).curve_map(),
            Self::same_strengths(*old(self), *final(self)),
            Self::same_stack(*old(self), *final(self)),
            Self::same_pads(*old(self), *final(self)),
    {
        self.unbind_gamepad_axis_with_axis(
            GamepadAnalog { player: pad_handle, axis: axis_type, direction: analog_direction },
        )
    }
}

} // verus!
