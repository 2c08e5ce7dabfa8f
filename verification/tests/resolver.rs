//! The strength resolver: deadzone remap, curve shaping, and their
//! composition through `get_action_strength`.

use kurinji::input_desc::ActionId;
use kurinji::kurinji::Kurinji;
use kurinji::strength::{apply_curve, apply_deadzone, CurveFunction, STRENGTH_SCALE};

const MOVE: ActionId = ActionId(1);

#[test]
fn deadzone_at_threshold_is_zero() {
    // A raw strength equal to the threshold resolves to 0.
    assert_eq!(apply_deadzone(200, 200), 0);
}

#[test]
fn deadzone_below_threshold_is_zero() {
    assert_eq!(apply_deadzone(200, 100), 0);
    assert_eq!(apply_deadzone(200, 0), 0);
}

#[test]
fn deadzone_full_scale_stays_full_scale() {
    assert_eq!(apply_deadzone(200, STRENGTH_SCALE), STRENGTH_SCALE);
    assert_eq!(apply_deadzone(0, STRENGTH_SCALE), STRENGTH_SCALE);
    assert_eq!(apply_deadzone(999, STRENGTH_SCALE), STRENGTH_SCALE);
}

#[test]
fn deadzone_remaps_linearly() {
    // (500 - 200) * 1000 / (1000 - 200) = 375.
    assert_eq!(apply_deadzone(200, 500), 375);
}

#[test]
fn squared_curve_exact_values() {
    assert_eq!(apply_curve(CurveFunction::Squared, 700), 490);
    assert_eq!(apply_curve(CurveFunction::Squared, 500), 250);
    assert_eq!(apply_curve(CurveFunction::Squared, 0), 0);
    assert_eq!(apply_curve(CurveFunction::Squared, STRENGTH_SCALE), STRENGTH_SCALE);
}

#[test]
fn identity_curve_is_identity() {
    assert_eq!(apply_curve(CurveFunction::Identity, 375), 375);
}

#[test]
fn square_root_curve_exact_values() {
    // sqrt(0.25) = 0.5; sqrt(0.5) ~ 0.707.
    assert_eq!(apply_curve(CurveFunction::SquareRoot, 250), 500);
    assert_eq!(apply_curve(CurveFunction::SquareRoot, 500), 707);
    assert_eq!(apply_curve(CurveFunction::SquareRoot, 0), 0);
    assert_eq!(apply_curve(CurveFunction::SquareRoot, STRENGTH_SCALE), STRENGTH_SCALE);
}

#[test]
fn square_root_curve_composes_after_deadzone() {
    let mut k = Kurinji::new();
    k.set_dead_zone(MOVE, 200);
    k.set_strength_curve_function(MOVE, CurveFunction::SquareRoot);
    k.set_raw_action_strength(MOVE, 500);
    // deadzone: 375; isqrt(375000) = 612.
    assert_eq!(k.get_action_strength(MOVE), 612);
}

#[test]
fn unset_action_resolves_to_zero() {
    let k = Kurinji::new();
    assert_eq!(k.get_action_strength(MOVE), 0);
}

#[test]
fn raw_strength_without_config_passes_through() {
    let mut k = Kurinji::new();
    k.set_raw_action_strength(MOVE, 730);
    assert_eq!(k.get_action_strength(MOVE), 730);
}

#[test]
fn deadzone_scenario_two_ticks() {
    // Deadzone 0.2 on "Move", raw sequence [0.1, 0.5] -> resolved [0, 0.375].
    let mut k = Kurinji::new();
    k.set_dead_zone(MOVE, 200);
    k.action_reset_system();
    k.set_raw_action_strength(MOVE, 100);
    assert_eq!(k.get_action_strength(MOVE), 0);
    k.action_reset_system();
    k.set_raw_action_strength(MOVE, 500);
    assert_eq!(k.get_action_strength(MOVE), 375);
}

#[test]
fn curve_composes_after_deadzone() {
    let mut k = Kurinji::new();
    k.set_dead_zone(MOVE, 200);
    k.set_strength_curve_function(MOVE, CurveFunction::Squared);
    k.set_raw_action_strength(MOVE, 500);
    // deadzone: 375; squared: 375 * 375 / 1000 = 140.
    assert_eq!(k.get_action_strength(MOVE), 140);
}

#[test]
fn curve_without_deadzone_applies_to_raw() {
    // With a curve set and no deadzone, resolve(raw) == curve(raw).
    let mut k = Kurinji::new();
    k.set_strength_curve_function(MOVE, CurveFunction::Squared);
    k.set_raw_action_strength(MOVE, 500);
    assert_eq!(k.get_action_strength(MOVE), apply_curve(CurveFunction::Squared, 500));
    assert_eq!(k.get_action_strength(MOVE), 250);
}

#[test]
fn resolve_is_idempotent_within_a_tick() {
    let mut k = Kurinji::new();
    k.set_dead_zone(MOVE, 200);
    k.set_raw_action_strength(MOVE, 500);
    let first = k.get_action_strength(MOVE);
    let second = k.get_action_strength(MOVE);
    assert_eq!(first, second);
}

#[test]
fn last_raw_write_wins() {
    let mut k = Kurinji::new();
    k.set_raw_action_strength(MOVE, 300);
    k.set_raw_action_strength(MOVE, 700);
    assert_eq!(k.get_action_strength(MOVE), 700);
}
