//! Mouse bindings: buttons, and motion split into half-axes per direction.

use crate::input_desc::{ActionId, AnalogDirection, DeviceInput, MouseAxis};
use crate::kurinji::Kurinji;
use vstd::prelude::*;

verus! {

impl Kurinji {
    /// Binds a mouse button to an action.
    pub fn bind_mouse_button_pressed(&mut self, button: u32, action: ActionId)
        requires
            old(self).wf(),
        ensures
            final(self).wf(),
            final(self).live_bindings().table_map() == old(self).live_bindings()
                .table_map().insert(DeviceInput::MouseButton(button), action),
            final(self).live_bindings().deadzone_map()
                == old(self).live_bindings().deadzone_map(),
            final(self).live_bindings().phase_map() == old(self).live_bindings().phase_map(),
            final(self).curve_map() == old(self).curve_map(),
            Self::same_strengths(*old(self), *final(self)),
            Self::same_stack(*old(self), *final(self)),
            Self::same_pads(*old(self), *final(self)),
    {
        self.bind_input(DeviceInput::MouseButton(button), action)
    }

    /// Unbinds a mouse button.
    pub fn unbind_mouse_button_pressed(&mut self, button: u32)
        requires
            old(self).wf(),
        ensures
            final(self).wf(),
            final(self).live_bindings().table_map() == old(self).live_bindings()
                .table_map().remove(DeviceInput::MouseButton(button)),
            final(self).live_bindings().deadzone_map()
                == old(self).live_bindings().deadzone_map(),
            final(self).live_bindings().phase_map() == old(self).live_bindings().phase_map(),
            final(self).curve_map() == old(self).curve_map(),
            Self::same_strengths(*old(self), *final(self)),
            Self::same_stack(*old(self), *final(self)),
            Self::same_pads(*old(self), *final(self)),
    {
        self.unbind_input(DeviceInput::MouseButton(button))
    }

    /// Binds one direction of mouse motion along one axis to an action.
    pub fn bind_mouse_motion(
        &mut self,
        axis: MouseAxis,
        direction: AnalogDirection,
        action: ActionId,
    )
        requires
            old(self).wf(),
        ensures
            final(self).wf(),
            final(self).live_bindings().table_map() == old(self).live_bindings()
                .table_map().insert(DeviceInput::MouseMotion(axis, direction), action),
            final(self).live_bindings().deadzone_map()
                == old(self).live_bindings().deadzone_map(),
            final(self).live_bindings().phase_map() == old(self).live_bindings().phase_map(),
            final(self).curve_map() == old(self).curve_map(),
            Self::same_strengths(*old(self), *final(self)),
            Self::same_stack(*old(self), *final(self)),
            Self::same_pads(*old(self), *final(self)),
    {
        self.bind_input(DeviceInput::MouseMotion(axis, direction), action)
    }

    /// Unbinds one direction of mouse motion along one axis.
    pub fn unbind_mouse_motion(&mut self, axis: MouseAxis, direction: AnalogDirection)
        requires
            old(self).wf(),
        ensures
            final(self).wf(),
            final(self).live_bindings().table_map() == old(self).live_bindings()
                .table_map().remove(DeviceInput::MouseMotion(axis, direction)),
            final(self).live_bindings().deadzone_map()
                == old(self).live_bindings().deadzone_map(),
            final(self).live_bindings().phase_map() == old(self).live_bindings().phase_map(),
            final(self).curve_map() == old(self).curve_map(),
            Self::same_strengths(*old(self), *final(self)),
            Self::same_stack(*old(self), *final(self)),
            Self::same_pads(*old(self), *final(self)),
    {
        self.unbind_input(DeviceInput::MouseMotion(axis, direction))
    }
}

} // verus!
