//! The gamepad slot pool and the gamepad binding helpers.

use kurinji::gamepad::half_axis_strength;
use kurinji::input_desc::{ActionId, AnalogDirection, DeviceInput, GamepadAnalog};
use kurinji::kurinji::Kurinji;

const FIRE: ActionId = ActionId(3);

#[test]
fn ninth_connection_is_dropped() {
    // A pool of 8: connecting 9 devices leaves the 9th without a slot.
    let mut k = Kurinji::new();
    for pad in 0..8u32 {
        let slot = k.gamepad_connected(100 + pad);
        assert_eq!(slot, Some(pad));
    }
    assert_eq!(k.gamepad_connected(108), None);
    // Disconnecting device #3 (slot 2) frees its slot for the next device.
    k.gamepad_disconnected(102);
    assert_eq!(k.gamepad_connected(200), Some(2));
}

#[test]
fn slot_mapping_is_bidirectional() {
    let mut k = Kurinji::new();
    assert_eq!(k.gamepad_connected(42), Some(0));
    assert_eq!(k.get_player_handle_for_gamepad(42), Some(0));
    assert_eq!(k.get_gamepad_from_player_handle(0), Some(42));
    assert_eq!(k.get_player_handle_for_gamepad(7), None);
    assert_eq!(k.get_gamepad_from_player_handle(1), None);
    k.gamepad_disconnected(42);
    assert_eq!(k.get_player_handle_for_gamepad(42), None);
    assert_eq!(k.get_gamepad_from_player_handle(0), None);
}

#[test]
fn available_handle_is_lowest_free() {
    let mut k = Kurinji::new();
    assert_eq!(k.get_available_player_handle(), Some(0));
    k.gamepad_connected(1);
    k.gamepad_connected(2);
    assert_eq!(k.get_available_player_handle(), Some(2));
    k.gamepad_disconnected(1);
    assert_eq!(k.get_available_player_handle(), Some(0));
}

#[test]
fn disconnecting_unknown_gamepad_is_a_noop() {
    let mut k = Kurinji::new();
    k.gamepad_connected(5);
    k.gamepad_disconnected(99);
    assert_eq!(k.get_player_handle_for_gamepad(5), Some(0));
}

#[test]
fn gamepad_button_bindings_roundtrip() {
    let mut k = Kurinji::new();
    k.bind_gamepad_button_pressed(4, FIRE);
    assert_eq!(k.action_for_input(&DeviceInput::GamepadButton(0, 4)), Some(FIRE));
    k.bind_gamepad_button_pressed_with_player(3, 4, FIRE);
    assert_eq!(k.action_for_input(&DeviceInput::GamepadButton(3, 4)), Some(FIRE));
    k.unbind_gamepad_button_pressed(4);
    assert_eq!(k.action_for_input(&DeviceInput::GamepadButton(0, 4)), None);
    k.unbind_gamepad_button_pressed_with_player(3, 4);
    assert_eq!(k.action_for_input(&DeviceInput::GamepadButton(3, 4)), None);
}

#[test]
fn gamepad_axis_bindings_roundtrip() {
    let mut k = Kurinji::new();
    let analog = GamepadAnalog { player: 0, axis: 1, direction: AnalogDirection::Positive };
    k.bind_gamepad_axis(1, AnalogDirection::Positive, FIRE);
    assert_eq!(k.action_for_input(&DeviceInput::GamepadAxis(analog)), Some(FIRE));
    k.unbind_gamepad_axis(1, AnalogDirection::Positive);
    assert_eq!(k.action_for_input(&DeviceInput::GamepadAxis(analog)), None);
    let far = GamepadAnalog { player: 2, axis: 1, direction: AnalogDirection::Negative };
    k.bind_gamepad_axis_with_handle(2, 1, AnalogDirection::Negative, FIRE);
    assert_eq!(k.action_for_input(&DeviceInput::GamepadAxis(far)), Some(FIRE));
    k.unbind_gamepad_axis_with_handle(2, 1, AnalogDirection::Negative);
    assert_eq!(k.action_for_input(&DeviceInput::GamepadAxis(far)), None);
    k.bind_gamepad_axis_with_axis(analog, FIRE);
    assert_eq!(k.action_for_input(&DeviceInput::GamepadAxis(analog)), Some(FIRE));
    k.unbind_gamepad_axis_with_axis(analog);
    assert_eq!(k.action_for_input(&DeviceInput::GamepadAxis(analog)), None);
}

#[test]
fn half_axis_filter_keeps_matching_direction() {
    assert_eq!(half_axis_strength(AnalogDirection::Positive, 600), 600);
    assert_eq!(half_axis_strength(AnalogDirection::Positive, -600), 0);
    assert_eq!(half_axis_strength(AnalogDirection::Negative, -600), 600);
    assert_eq!(half_axis_strength(AnalogDirection::Negative, 600), 0);
    assert_eq!(half_axis_strength(AnalogDirection::Positive, 0), 0);
    assert_eq!(half_axis_strength(AnalogDirection::Negative, 0), 0);
}
