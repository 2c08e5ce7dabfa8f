//! Keyboard bindings: a key code pressed maps to an action at full
//! strength.

use crate::input_desc::{ActionId, DeviceInput};
use crate::kurinji::Kurinji;
use vstd::prelude::*;

verus! {

impl Kurinji {
    /// Binds a keyboard key to an action.
    pub fn bind_keyboard_key_pressed(&mut self, key: u32, action: ActionId)
        requires
            old(self).wf(),
        ensures
            final(self).wf(),
            final(self).live_bindings().table_map() == old(self).live_bindings()
                .table_map().insert(DeviceInput::KeyboardKey(key), action),
            final(self).live_bindings().deadzone_map()
                == old(self).live_bindings().deadzone_map(),
            final(self).live_bindings().phase_map() == old(self).live_bindings().phase_map(),
            final(self).curve_map() == old(self).curve_map(),
            Self::same_strengths(*old(self), *final(self)),
            Self::same_stack(*old(self), *final(self)),
            Self::same_pads(*old(self), *final(self)),
    {
        self.bind_input(DeviceInput::KeyboardKey(key), action)
    }

    /// Unbinds a keyboard key.
    pub fn unbind_keyboard_key_pressed(&mut self, key: u32)
        requires
            old(self).wf(),
        ensures
            final(self).wf(),
            final(self).live_bindings().table_map() == old(self).live_bindings()
                .table_map().remove(DeviceInput::KeyboardKey(key)),
            final(self).live_bindings().deadzone_map()
                == old(self).live_bindings().deadzone_map(),
            final(self).live_bindings().phase_map() == old(self).live_bindings().phase_map(),
            final(self).curve_map() == old(self).curve_map(),
            Self::same_strengths(*old(self), *final(self)),
            Self::same_stack(*old(self), *final(self)),
            Self::same_pads(*old(self), *final(self)),
    {
        self.unbind_input(DeviceInput::KeyboardKey(key))
    }
}

} // verus!
