//! An input-abstraction engine: physical inputs (keys, mouse buttons and
//! axes, gamepad buttons and axes) are bound to named logical actions, and
//! each tick the engine derives a normalized strength and a lifecycle phase
//! (begin / in-progress / ended) per action, so consumers react to actions
//! instead of devices.
//!
//! Strengths are fixed-point fractions: an integer `s` in
//! `[0, STRENGTH_SCALE]` stands for the real value `s / STRENGTH_SCALE`.

pub use crate::action_event::{
    ActionEvents, OnActionActive, OnActionBegin, OnActionEnd, OnActionProgress,
};
pub use crate::bindings::Bindings;
pub use crate::event_phase::{ActionPhase, EventPhase};
pub use crate::input_desc::{ActionId, AnalogDirection, DeviceInput, GamepadAnalog, MouseAxis};
pub use crate::kurinji::Kurinji;
pub use crate::strength::{CurveFunction, STRENGTH_SCALE};

pub mod action_event;
pub mod assoc_map;
pub mod bindings;
pub mod event_phase;
pub mod gamepad;
pub mod input_desc;
pub mod keyboard;
pub mod kurinji;
pub mod mouse;
pub mod strength;
