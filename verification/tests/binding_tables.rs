//! Binding sets, merge precedence, the binding stack, and snapshot
//! import/export.

use kurinji::bindings::Bindings;
use kurinji::event_phase::EventPhase;
use kurinji::input_desc::{ActionId, DeviceInput};
use kurinji::kurinji::Kurinji;

const X: ActionId = ActionId(10);
const Y: ActionId = ActionId(11);
const KEY: DeviceInput = DeviceInput::KeyboardKey(32);

#[test]
fn merge_prefers_second_set() {
    // A maps KEY -> X, B maps KEY -> Y: merge(A, B) maps KEY -> Y.
    let mut a = Bindings::new();
    a.bind(KEY, X);
    let mut b = Bindings::new();
    b.bind(KEY, Y);
    a.merge(b);
    assert_eq!(a.action_for(&KEY), Some(Y));
}

#[test]
fn merge_reversed_prefers_first_writer_last() {
    // merge(B, A) maps KEY -> X.
    let mut a = Bindings::new();
    a.bind(KEY, X);
    let mut b = Bindings::new();
    b.bind(KEY, Y);
    b.merge(a);
    assert_eq!(b.action_for(&KEY), Some(X));
}

#[test]
fn merge_keeps_disjoint_entries() {
    let other = DeviceInput::MouseButton(1);
    let mut a = Bindings::new();
    a.bind(KEY, X);
    let mut b = Bindings::new();
    b.bind(other, Y);
    a.merge(b);
    assert_eq!(a.action_for(&KEY), Some(X));
    assert_eq!(a.action_for(&other), Some(Y));
}

#[test]
fn merge_covers_deadzone_and_phase() {
    let mut a = Bindings::new();
    a.set_dead_zone(X, 100);
    a.set_event_phase(X, EventPhase::OnBegin);
    let mut b = Bindings::new();
    b.set_dead_zone(X, 300);
    a.merge(b);
    assert_eq!(a.dead_zone_for(&X), Some(300));
    assert_eq!(a.phase_for(&X), Some(EventPhase::OnBegin));
}

#[test]
fn bind_is_idempotent_and_replaces() {
    let mut a = Bindings::new();
    a.bind(KEY, X);
    a.bind(KEY, X);
    assert_eq!(a.action_for(&KEY), Some(X));
    a.bind(KEY, Y);
    assert_eq!(a.action_for(&KEY), Some(Y));
}

#[test]
fn unbind_removes_and_tolerates_absence() {
    let mut a = Bindings::new();
    a.bind(KEY, X);
    a.unbind(KEY);
    assert_eq!(a.action_for(&KEY), None);
    a.unbind(KEY);
    assert_eq!(a.action_for(&KEY), None);
}

#[test]
fn snapshot_roundtrip() {
    let mut k = Kurinji::new();
    k.bind_keyboard_key_pressed(32, X);
    k.set_dead_zone(X, 250);
    k.set_event_phase(X, EventPhase::OnEnded);
    let snapshot = k.get_bindings();
    let mut k2 = Kurinji::new();
    k2.set_bindings(snapshot);
    assert_eq!(k2.action_for_input(&KEY), Some(X));
    let snapshot2 = k2.get_bindings();
    assert_eq!(snapshot2.dead_zone_for(&X), Some(250));
    assert_eq!(snapshot2.phase_for(&X), Some(EventPhase::OnEnded));
}

#[test]
fn stack_pops_in_reverse_order() {
    let mut k = Kurinji::new();
    let mut a = Bindings::new();
    a.bind(KEY, X);
    let mut b = Bindings::new();
    b.bind(KEY, Y);
    k.push_bindings(a);
    k.push_bindings(b);
    let top = k.pop_bindings().unwrap();
    assert_eq!(top.action_for(&KEY), Some(Y));
    let base = k.pop_bindings().unwrap();
    assert_eq!(base.action_for(&KEY), Some(X));
    assert!(k.pop_bindings().is_none());
}

#[test]
fn effective_bindings_prefer_topmost() {
    let mut k = Kurinji::new();
    let mut a = Bindings::new();
    a.bind(KEY, X);
    a.set_dead_zone(X, 100);
    let mut b = Bindings::new();
    b.bind(KEY, Y);
    k.push_bindings(a);
    k.push_bindings(b);
    let eff = k.effective_bindings();
    assert_eq!(eff.action_for(&KEY), Some(Y));
    assert_eq!(eff.dead_zone_for(&X), Some(100));
}

#[test]
fn effective_bindings_of_empty_stack_is_empty() {
    let k = Kurinji::new();
    let eff = k.effective_bindings();
    assert_eq!(eff.action_for(&KEY), None);
}
