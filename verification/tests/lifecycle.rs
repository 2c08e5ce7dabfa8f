//! The tick lifecycle: reset stage, phase classification, activity
//! selectors, and event production.

use kurinji::action_event::ActionEvents;
use kurinji::event_phase::{ActionPhase, EventPhase};
use kurinji::input_desc::{ActionId, DeviceInput};
use kurinji::kurinji::Kurinji;
use kurinji::strength::STRENGTH_SCALE;

const JUMP: ActionId = ActionId(7);

fn ended_count(evs: &ActionEvents, a: ActionId) -> usize {
    evs.ended.iter().filter(|e| e.action == a).count()
}

#[test]
fn phase_sequence_over_four_ticks() {
    // Raw strengths [0, 0.8, 0.8, 0] -> phases [Idle, Begin, InProgress, Ended].
    let mut k = Kurinji::new();
    let raws: [u32; 4] = [0, 800, 800, 0];
    let expected = [
        ActionPhase::Idle,
        ActionPhase::Begin,
        ActionPhase::InProgress,
        ActionPhase::Ended,
    ];
    for (raw, want) in raws.iter().zip(expected.iter()) {
        k.action_reset_system();
        k.set_raw_action_strength(JUMP, *raw);
        assert_eq!(k.current_action_phase(JUMP), *want);
    }
}

#[test]
fn reset_snapshots_then_clears() {
    let mut k = Kurinji::new();
    k.set_dead_zone(JUMP, 200);
    k.set_raw_action_strength(JUMP, 500);
    k.action_reset_system();
    // The snapshot holds the resolved strength of last tick...
    assert_eq!(k.get_prev_strength(JUMP), 375);
    // ...and the raw accumulator starts the tick empty.
    assert_eq!(k.get_action_strength(JUMP), 0);
}

#[test]
fn keyboard_scenario_press_then_release() {
    // Bind Space -> "Jump"; tick 1 presses at full strength, tick 2 releases.
    let mut k = Kurinji::new();
    k.bind_keyboard_key_pressed(32, JUMP);
    k.action_reset_system();
    // The adapter looks the key up and writes full strength.
    let bound = k.action_for_input(&DeviceInput::KeyboardKey(32)).unwrap();
    k.set_raw_action_strength(bound, STRENGTH_SCALE);
    assert_eq!(k.get_action_strength(JUMP), STRENGTH_SCALE);
    let evs = k.action_event_producer();
    assert_eq!(evs.begin.len(), 1);
    assert_eq!(evs.begin[0].action, JUMP);
    assert_eq!(evs.begin[0].strength, STRENGTH_SCALE);
    assert!(evs.ended.is_empty());
    // Tick 2: no input arrives.
    k.action_reset_system();
    assert_eq!(k.get_action_strength(JUMP), 0);
    let evs2 = k.action_event_producer();
    assert_eq!(ended_count(&evs2, JUMP), 1);
    assert!(evs2.begin.is_empty());
    assert!(evs2.progress.is_empty());
}

#[test]
fn released_action_ends_exactly_once() {
    // Pressed in tick N, absent from the raw map in tick N+1: exactly one
    // end notification in tick N+1.
    let mut k = Kurinji::new();
    k.action_reset_system();
    k.set_raw_action_strength(JUMP, 600);
    k.action_reset_system();
    let evs = k.action_event_producer();
    assert_eq!(ended_count(&evs, JUMP), 1);
}

#[test]
fn progress_fires_while_held() {
    let mut k = Kurinji::new();
    k.action_reset_system();
    k.set_raw_action_strength(JUMP, 800);
    k.action_reset_system();
    k.set_raw_action_strength(JUMP, 600);
    let evs = k.action_event_producer();
    assert_eq!(evs.progress.len(), 1);
    assert_eq!(evs.progress[0].action, JUMP);
    assert_eq!(evs.progress[0].strength, 600);
    // Default selector is OnProgress, so the action is also active.
    assert_eq!(evs.active.len(), 1);
    assert_eq!(evs.active[0].strength, 600);
    assert!(k.is_action_active(JUMP));
}

#[test]
fn default_selector_is_on_progress() {
    assert_eq!(EventPhase::default(), EventPhase::OnProgress);
    let mut k = Kurinji::new();
    k.action_reset_system();
    k.set_raw_action_strength(JUMP, 500);
    // Phase is Begin in the first tick, so OnProgress says: not active yet.
    assert!(!k.is_action_active(JUMP));
}

#[test]
fn on_begin_selector_activates_on_begin() {
    let mut k = Kurinji::new();
    k.set_event_phase(JUMP, EventPhase::OnBegin);
    k.action_reset_system();
    k.set_raw_action_strength(JUMP, 500);
    assert!(k.is_action_active(JUMP));
    let evs = k.action_event_producer();
    assert_eq!(evs.active.len(), 1);
    assert_eq!(evs.begin.len(), 1);
    k.action_reset_system();
    k.set_raw_action_strength(JUMP, 500);
    assert!(!k.is_action_active(JUMP));
}

#[test]
fn on_ended_selector_activates_on_release() {
    let mut k = Kurinji::new();
    k.set_event_phase(JUMP, EventPhase::OnEnded);
    k.action_reset_system();
    k.set_raw_action_strength(JUMP, 500);
    assert!(!k.is_action_active(JUMP));
    k.action_reset_system();
    assert!(k.is_action_active(JUMP));
    let evs = k.action_event_producer();
    assert_eq!(evs.active.len(), 1);
    assert_eq!(ended_count(&evs, JUMP), 1);
}

#[test]
fn idle_action_emits_nothing() {
    let mut k = Kurinji::new();
    k.action_reset_system();
    k.set_raw_action_strength(JUMP, 0);
    let evs = k.action_event_producer();
    assert!(evs.active.is_empty());
    assert!(evs.begin.is_empty());
    assert!(evs.progress.is_empty());
    assert!(evs.ended.is_empty());
}

#[test]
fn deadzone_swallows_weak_press_entirely() {
    // A press below the deadzone never begins.
    let mut k = Kurinji::new();
    k.set_dead_zone(JUMP, 200);
    k.action_reset_system();
    k.set_raw_action_strength(JUMP, 100);
    assert_eq!(k.current_action_phase(JUMP), ActionPhase::Idle);
    let evs = k.action_event_producer();
    assert!(evs.begin.is_empty());
}
