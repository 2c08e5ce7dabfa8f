//! The engine: live bindings, per-action configuration, the two
//! generations of strengths (this tick's raw accumulator and the previous
//! tick's resolved snapshot), the binding stack, and the gamepad slot pool.
//!
//! Each tick the host runs three ordered stages: `action_reset_system`
//! snapshots resolved strengths and clears the raw accumulator, device
//! adapters then write raw strengths through `set_raw_action_strength`, and
//! the event producer finally walks the union of this tick's and last
//! tick's actions.

use crate::assoc_map::AssocMap;
use crate::bindings::{fold_deadzones, fold_phases, fold_tables, Bindings};
use crate::event_phase::{phase_from_strengths, phase_matches, ActionPhase, EventPhase};
use crate::input_desc::{ActionId, DeviceInput};
use crate::strength::{
    apply_curve, apply_deadzone, curve_value, deadzone_remap, lemma_curve_bounds,
    lemma_deadzone_properties, CurveFunction, STRENGTH_SCALE,
};
use vstd::prelude::*;

verus! {

/// How many gamepad player slots exist.
pub const MAX_PLAYER_HANDLES: u32 = 8;

/// The input-to-action engine.
pub struct Kurinji {
    pub(crate) bindings: Bindings,
    pub(crate) action_strength_curve: AssocMap<ActionId, CurveFunction>,
    pub(crate) action_raw_strength: AssocMap<ActionId, u32>,
    pub(crate) action_prev_strength: AssocMap<ActionId, u32>,
    pub(crate) stack: Vec<Bindings>,
    pub(crate) pad_to_slot: AssocMap<u32, u32>,
    pub(crate) slot_to_pad: AssocMap<u32, u32>,
}

impl Kurinji {
    /// The live binding set.
    pub closed spec fn live_bindings(self) -> Bindings {
        self.bindings
    }

    /// The per-action shaping curves.
    pub closed spec fn curve_map(self) -> Map<ActionId, CurveFunction> {
        self.action_strength_curve@
    }

    /// This tick's raw strengths, as written by the device adapters.
    pub closed spec fn raw_map(self) -> Map<ActionId, u32> {
        self.action_raw_strength@
    }

    /// The previous tick's resolved strengths.
    pub closed spec fn prev_map(self) -> Map<ActionId, u32> {
        self.action_prev_strength@
    }

    /// The binding stack, base first.
    pub closed spec fn stack_seq(self) -> Seq<Bindings> {
        self.stack@
    }

    /// Which player slot each connected gamepad occupies.
    pub closed spec fn pad_slot_map(self) -> Map<u32, u32> {
        self.pad_to_slot@
    }

    /// Which gamepad occupies each taken player slot.
    pub closed spec fn slot_pad_map(self) -> Map<u32, u32> {
        self.slot_to_pad@
    }

    /// Well-formedness: every table is well-formed, every stored strength
    /// lies in `[0, STRENGTH_SCALE]`, every stacked binding set is
    /// well-formed, and the two slot tables are inverse to each other with
    /// slots below `MAX_PLAYER_HANDLES`.
    pub closed spec fn wf(self) -> bool {
        &&& self.bindings.wf()
        &&& self.action_strength_curve.wf()
        &&& self.action_raw_strength.wf()
        &&& self.action_prev_strength.wf()
        &&& self.pad_to_slot.wf()
        &&& self.slot_to_pad.wf()
        &&& forall|a: ActionId| self.action_raw_strength@.contains_key(a)
            ==> (#[trigger] self.action_raw_strength@[a]) <= STRENGTH_SCALE
        &&& forall|a: ActionId| self.action_prev_strength@.contains_key(a)
            ==> (#[trigger] self.action_prev_strength@[a]) <= STRENGTH_SCALE
        &&& forall|i: int| 0 <= i < self.stack@.len() ==> (#[trigger] self.stack@[i]).wf()
        &&& forall|p: u32| #[trigger] self.pad_to_slot@.contains_key(p)
            ==> self.pad_to_slot@[p] < MAX_PLAYER_HANDLES
                && self.slot_to_pad@.contains_key(self.pad_to_slot@[p])
                && self.slot_to_pad@[self.pad_to_slot@[p]] == p
        &&& forall|s: u32| #[trigger] self.slot_to_pad@.contains_key(s)
            ==> s < MAX_PLAYER_HANDLES
                && self.pad_to_slot@.contains_key(self.slot_to_pad@[s])
                && self.pad_to_slot@[self.slot_to_pad@[s]] == s
    }

    /// This tick's raw strength of an action, `0` when unset.
    pub open spec fn raw_strength_of(self, a: ActionId) -> int {
        if self.raw_map().contains_key(a) {
            self.raw_map()[a] as int
        } else {
            0
        }
    }

    /// The previous tick's resolved strength of an action, `0` when unset.
    pub open spec fn prev_strength_of(self, a: ActionId) -> int {
        if self.prev_map().contains_key(a) {
            self.prev_map()[a] as int
        } else {
            0
        }
    }

    /// This tick's resolved strength of an action: the raw strength (`0`
    /// when unset) run through the configured deadzone remap (skipped when
    /// none is configured) and then through the configured shaping curve
    /// (skipped when none is configured).
    pub open spec fn resolved_strength_of(self, a: ActionId) -> int {
        let raw = self.raw_strength_of(a);
        let base = if self.live_bindings().deadzone_map().contains_key(a) {
            deadzone_remap(self.live_bindings().deadzone_map()[a] as int, raw)
        } else {
            raw
        };
        if self.curve_map().contains_key(a) {
            curve_value(self.curve_map()[a], base)
        } else {
            base
        }
    }

    /// The phase of an action this tick, derived fresh from the previous
    /// and the current resolved strength.
    pub open spec fn phase_of(self, a: ActionId) -> ActionPhase {
        phase_from_strengths(self.prev_strength_of(a), self.resolved_strength_of(a))
    }

    /// The phase selector of an action, `OnProgress` when unset.
    pub open spec fn selector_of(self, a: ActionId) -> EventPhase {
        if self.live_bindings().phase_map().contains_key(a) {
            self.live_bindings().phase_map()[a]
        } else {
            EventPhase::OnProgress
        }
    }

    /// Whether an action counts as active this tick: its derived phase
    /// matches its configured selector.
    pub open spec fn is_active_of(self, a: ActionId) -> bool {
        phase_matches(self.selector_of(a), self.phase_of(a))
    }

    /// Whether an action appears in this tick's raw map or in the previous
    /// tick's snapshot; only such actions can produce events.
    pub open spec fn in_union(self, a: ActionId) -> bool {
        self.raw_map().contains_key(a) || self.prev_map().contains_key(a)
    }

    /// Whether two engine states share the whole binding and curve
    /// configuration.
    pub open spec fn same_config(a: Kurinji, b: Kurinji) -> bool {
        &&& a.live_bindings().table_map() == b.live_bindings().table_map()
        &&& a.live_bindings().deadzone_map() == b.live_bindings().deadzone_map()
        &&& a.live_bindings().phase_map() == b.live_bindings().phase_map()
        &&& a.curve_map() == b.curve_map()
    }

    /// Whether two engine states share both strength generations.
    pub open spec fn same_strengths(a: Kurinji, b: Kurinji) -> bool {
        a.raw_map() == b.raw_map() && a.prev_map() == b.prev_map()
    }

    /// Whether two engine states share the binding stack.
    pub open spec fn same_stack(a: Kurinji, b: Kurinji) -> bool {
        a.stack_seq() == b.stack_seq()
    }

    /// Whether two engine states share the gamepad slot pool.
    pub open spec fn same_pads(a: Kurinji, b: Kurinji) -> bool {
        a.pad_slot_map() == b.pad_slot_map() && a.slot_pad_map() == b.slot_pad_map()
    }

    /// An engine with nothing bound, nothing configured, no strengths and
    /// no connected gamepads.
    pub fn new() -> (k: Kurinji)
        ensures
            k.wf(),
            k.live_bindings().table_map() == Map::<DeviceInput, ActionId>::empty(),
            k.live_bindings().deadzone_map() == Map::<ActionId, u32>::empty(),
            k.live_bindings().phase_map() == Map::<ActionId, EventPhase>::empty(),
            k.curve_map() == Map::<ActionId, CurveFunction>::empty(),
            k.raw_map() == Map::<ActionId, u32>::empty(),
            k.prev_map() == Map::<ActionId, u32>::empty(),
            k.stack_seq() == Seq::<Bindings>::empty(),
            k.pad_slot_map() == Map::<u32, u32>::empty(),
            k.slot_pad_map() == Map::<u32, u32>::empty(),
    {
        Kurinji {
            bindings: Bindings::new(),
            action_strength_curve: AssocMap::new(),
            action_raw_strength: AssocMap::new(),
            action_prev_strength: AssocMap::new(),
            stack: Vec::new(),
            pad_to_slot: AssocMap::new(),
            slot_to_pad: AssocMap::new(),
        }
    }

    // ----- configuration -----

    /// Maps a physical input to an action in the live binding set,
    /// replacing any earlier mapping of that input.
    pub fn bind_input(&mut self, input: DeviceInput, action: ActionId)
        requires
            old(self).wf(),
        ensures
            final(self).wf(),
            final(self).live_bindings().table_map()
                == old(self).live_bindings().table_map().insert(input, action),
            final(self).live_bindings().deadzone_map()
                == old(self).live_bindings().deadzone_map(),
            final(self).live_bindings().phase_map() == old(self).live_bindings().phase_map(),
            final(self).curve_map() == old(self).curve_map(),
            Self::same_strengths(*old(self), *final(self)),
            Self::same_stack(*old(self), *final(self)),
            Self::same_pads(*old(self), *final(self)),
    {
        self.bindings.bind(input, action);
    }

    /// Removes the mapping of a physical input from the live binding set;
    /// a no-op when none exists.
    pub fn unbind_input(&mut self, input: DeviceInput)
        requires
            old(self).wf(),
        ensures
            final(self).wf(),
            final(self).live_bindings().table_map()
                == old(self).live_bindings().table_map().remove(input),
            final(self).live_bindings().deadzone_map()
                == old(self).live_bindings().deadzone_map(),
            final(self).live_bindings().phase_map() == old(self).live_bindings().phase_map(),
            final(self).curve_map() == old(self).curve_map(),
            Self::same_strengths(*old(self), *final(self)),
            Self::same_stack(*old(self), *final(self)),
            Self::same_pads(*old(self), *final(self)),
    {
        self.bindings.unbind(input);
    }

    /// Sets the deadzone threshold of an action: raw strengths at or below
    /// the threshold resolve to `0` and the rest of the range is stretched
    /// back to full scale.
    pub fn set_dead_zone(&mut self, action: ActionId, value: u32)
        requires
            old(self).wf(),
            value < STRENGTH_SCALE,
        ensures
            final(self).wf(),
            final(self).live_bindings().deadzone_map()
                == old(self).live_bindings().deadzone_map().insert(action, value),
            final(self).live_bindings().table_map() == old(self).live_bindings().table_map(),
            final(self).live_bindings().phase_map() == old(self).live_bindings().phase_map(),
            final(self).curve_map() == old(self).curve_map(),
            Self::same_strengths(*old(self), *final(self)),
            Self::same_stack(*old(self), *final(self)),
            Self::same_pads(*old(self), *final(self)),
    {
        self.bindings.set_dead_zone(action, value);
    }

    /// Sets the shaping curve applied to an action's strength.
    pub fn set_strength_curve_function(&mut self, action: ActionId, function: CurveFunction)
        requires
            old(self).wf(),
        ensures
            final(self).wf(),
            final(self).curve_map() == old(self).curve_map().insert(action, function),
            final(self).live_bindings().table_map() == old(self).live_bindings().table_map(),
            final(self).live_bindings().deadzone_map()
                == old(self).live_bindings().deadzone_map(),
            final(self).live_bindings().phase_map() == old(self).live_bindings().phase_map(),
            Self::same_strengths(*old(self), *final(self)),
            Self::same_stack(*old(self), *final(self)),
            Self::same_pads(*old(self), *final(self)),
    {
        self.action_strength_curve.insert(action, function);
    }

    /// Sets which phase of an action is reported as "active".
    pub fn set_event_phase(&mut self, action: ActionId, phase: EventPhase)
        requires
            old(self).wf(),
        ensures
            final(self).wf(),
            final(self).live_bindings().phase_map()
                == old(self).live_bindings().phase_map().insert(action, phase),
            final(self).live_bindings().table_map() == old(self).live_bindings().table_map(),
            final(self).live_bindings().deadzone_map()
                == old(self).live_bindings().deadzone_map(),
            final(self).curve_map() == old(self).curve_map(),
            Self::same_strengths(*old(self), *final(self)),
            Self::same_stack(*old(self), *final(self)),
            Self::same_pads(*old(self), *final(self)),
    {
        self.bindings.set_event_phase(action, phase);
    }

    /// A full snapshot of the live binding set.
    pub fn get_bindings(&self) -> (b: Bindings)
        requires
            self.wf(),
        ensures
            b.wf(),
            b.table_map() == self.live_bindings().table_map(),
            b.deadzone_map() == self.live_bindings().deadzone_map(),
            b.phase_map() == self.live_bindings().phase_map(),
    {
        self.bindings.duplicate()
    }

    /// Replaces the live binding set with a snapshot.
    pub fn set_bindings(&mut self, bindings: Bindings)
        requires
            old(self).wf(),
            bindings.wf(),
        ensures
            final(self).wf(),
            final(self).live_bindings().table_map() == bindings.table_map(),
            final(self).live_bindings().deadzone_map() == bindings.deadzone_map(),
            final(self).live_bindings().phase_map() == bindings.phase_map(),
            final(self).curve_map() == old(self).curve_map(),
            Self::same_strengths(*old(self), *final(self)),
            Self::same_stack(*old(self), *final(self)),
            Self::same_pads(*old(self), *final(self)),
    {
        self.bindings = bindings;
    }

    /// The action a physical input is mapped to in the live binding set.
    pub fn action_for_input(&self, input: &DeviceInput) -> (r: Option<ActionId>)
        requires
            self.wf(),
        ensures
            self.live_bindings().table_map().contains_key(*input)
                ==> r == Some(self.live_bindings().table_map()[*input]),
            !self.live_bindings().table_map().contains_key(*input) ==> r.is_none(),
    {
        self.bindings.action_for(input)
    }

    // ----- binding stack -----

    /// Pushes a binding set onto the stack.
    pub fn push_bindings(&mut self, bindings: Bindings)
        requires
            old(self).wf(),
            bindings.wf(),
        ensures
            final(self).wf(),
            final(self).stack_seq() == old(self).stack_seq().push(bindings),
            Self::same_config(*old(self), *final(self)),
            Self::same_strengths(*old(self), *final(self)),
            Self::same_pads(*old(self), *final(self)),
    {
        self.stack.push(bindings);
    }

    /// Pops the topmost binding set; `None` on an empty stack, never an
    /// error.
    pub fn pop_bindings(&mut self) -> (r: Option<Bindings>)
        requires
            old(self).wf(),
        ensures
            final(self).wf(),
            old(self).stack_seq().len() == 0 ==> r.is_none()
                && final(self).stack_seq() == old(self).stack_seq(),
            old(self).stack_seq().len() > 0 ==> r == Some(old(self).stack_seq().last())
                && final(self).stack_seq() == old(self).stack_seq().drop_last(),
            Self::same_config(*old(self), *final(self)),
            Self::same_strengths(*old(self), *final(self)),
            Self::same_pads(*old(self), *final(self)),
    {
        self.stack.pop()
    }

    /// The left-to-right merge of the whole stack, base first: for every
    /// input and every configured action, the topmost binding set that
    /// knows it wins.
    pub fn effective_bindings(&self) -> (b: Bindings)
        requires
            self.wf(),
        ensures
            b.wf(),
            b.table_map() == fold_tables(self.stack_seq()),
            b.deadzone_map() == fold_deadzones(self.stack_seq()),
            b.phase_map() == fold_phases(self.stack_seq()),
    {
        let mut acc = Bindings::new();
        let n = self.stack.len();
        let mut i: usize = 0;
        while i < n
            invariant
                i <= n,
                n == self.stack_seq().len(),
                self.wf(),
                acc.wf(),
                acc.table_map() == fold_tables(self.stack_seq().take(i as int)),
                acc.deadzone_map() == fold_deadzones(self.stack_seq().take(i as int)),
                acc.phase_map() == fold_phases(self.stack_seq().take(i as int)),
            decreases n - i,
        {
            proof {
                assert(self.stack_seq()[i as int].wf());
            }
            acc.merge_from(&self.stack[i]);
            proof {
                let t1 = self.stack_seq().take(i + 1);
                assert(t1.drop_last() =~= self.stack_seq().take(i as int));
                assert(t1.last() == self.stack_seq()[i as int]);
            }
            i = i + 1;
        }
        proof {
            assert(self.stack_seq().take(n as int) =~= self.stack_seq());
        }
        acc
    }

    // ----- strength store -----

    /// Writes this tick's raw strength of an action, as a device adapter
    /// does; a later write for the same action in the same tick wins.
    pub fn set_raw_action_strength(&mut self, action: ActionId, strength: u32)
        requires
            old(self).wf(),
            strength <= STRENGTH_SCALE,
        ensures
            final(self).wf(),
            final(self).raw_map() == old(self).raw_map().insert(action, strength),
            final(self).prev_map() == old(self).prev_map(),
            Self::same_config(*old(self), *final(self)),
            Self::same_stack(*old(self), *final(self)),
            Self::same_pads(*old(self), *final(self)),
    {
        self.action_raw_strength.insert(action, strength);
    }

    /// Clears this tick's raw strengths.
    pub fn reset_all_raw_strength(&mut self)
        requires
            old(self).wf(),
        ensures
            final(self).wf(),
            final(self).raw_map() == Map::<ActionId, u32>::empty(),
            final(self).prev_map() == old(self).prev_map(),
            Self::same_config(*old(self), *final(self)),
            Self::same_stack(*old(self), *final(self)),
            Self::same_pads(*old(self), *final(self)),
    {
        self.action_raw_strength.clear();
    }

    /// The reset stage, run first in every tick: the resolved strength of
    /// every action present in the raw map is snapshotted into the
    /// previous-tick map (actions absent from the raw map keep no entry),
    /// and the raw map is cleared so the adapters populate a clean slate.
    pub fn action_reset_system(&mut self)
        requires
            old(self).wf(),
        ensures
            final(self).wf(),
            final(self).raw_map() == Map::<ActionId, u32>::empty(),
            forall|a: ActionId| final(self).prev_map().contains_key(a)
                <==> old(self).raw_map().contains_key(a),
            forall|a: ActionId| #[trigger] old(self).raw_map().contains_key(a)
                ==> final(self).prev_map()[a] == old(self).resolved_strength_of(a),
            Self::same_config(*old(self), *final(self)),
            Self::same_stack(*old(self), *final(self)),
            Self::same_pads(*old(self), *final(self)),
    {
        let ghost orig = *self;
        self.action_prev_strength.clear();
        let n = self.action_raw_strength.len();
        let mut i: usize = 0;
        while i < n
            invariant
                i <= n,
                self.wf(),
                n == self.action_raw_strength.kv().len(),
                self.action_raw_strength == orig.action_raw_strength,
                self.bindings == orig.bindings,
                self.action_strength_curve == orig.action_strength_curve,
                self.stack == orig.stack,
                self.pad_to_slot == orig.pad_to_slot,
                self.slot_to_pad == orig.slot_to_pad,
                forall|j: int| 0 <= j < i
                    ==> self.action_prev_strength@.contains_key(
                        (#[trigger] self.action_raw_strength.kv()[j]).0)
                        && self.action_prev_strength@[self.action_raw_strength.kv()[j].0]
                            == orig.resolved_strength_of(self.action_raw_strength.kv()[j].0),
                forall|a: ActionId| #[trigger] self.action_prev_strength@.contains_key(a)
                    ==> exists|j: int| 0 <= j < i
                        && (#[trigger] self.action_raw_strength.kv()[j]).0 == a,
            decreases n - i,
        {
            let e = self.action_raw_strength.entry_at(i);
            let s = self.get_action_strength(e.0);
            proof {
                assert(self.resolved_strength_of(e.0) == orig.resolved_strength_of(e.0));
            }
            self.action_prev_strength.insert(e.0, s);
            i = i + 1;
        }
        self.action_raw_strength.clear();
        proof {
            crate::assoc_map::lemma_seq_to_map(orig.action_raw_strength.kv());
            assert forall|a: ActionId| final(self).prev_map().contains_key(a)
                implies orig.raw_map().contains_key(a) by {
                let j = choose|j: int| 0 <= j < n
                    && (#[trigger] orig.action_raw_strength.kv()[j]).0 == a;
                assert(orig.action_raw_strength.kv()[j].0 == a);
            }
            assert forall|a: ActionId| orig.raw_map().contains_key(a)
                implies final(self).prev_map().contains_key(a) by {
                let j = choose|j: int| 0 <= j < orig.action_raw_strength.kv().len()
                    && (#[trigger] orig.action_raw_strength.kv()[j]).0 == a;
                assert(final(self).prev_map().contains_key(orig.action_raw_strength.kv()[j].0));
            }
        }
    }

    // ----- queries -----

    /// The resolved strength of an action this tick: raw strength, then
    /// the configured deadzone remap, then the configured shaping curve.
    /// Pure: calling it any number of times in one tick gives identical
    /// results as long as the raw strengths are unchanged.
    pub fn get_action_strength(&self, action: ActionId) -> (r: u32)
        requires
            self.wf(),
        ensures
            r == self.resolved_strength_of(action),
            r <= STRENGTH_SCALE,
    {
        let raw = match self.action_raw_strength.get(&action) {
            Some(v) => v,
            None => 0,
        };
        let base = match self.bindings.dead_zone_for(&action) {
            Some(d) => {
                proof {
                    crate::bindings::lemma_deadzone_bounded(self.bindings, action);
                }
                apply_deadzone(d, raw)
            }
            None => raw,
        };
        match self.action_strength_curve.get(&action) {
            Some(c) => apply_curve(c, base),
            None => base,
        }
    }

    /// The previous tick's resolved strength of an action, `0` when the
    /// action left no snapshot.
    pub fn get_prev_strength(&self, action: ActionId) -> (r: u32)
        requires
            self.wf(),
        ensures
            r == self.prev_strength_of(action),
    {
        match self.action_prev_strength.get(&action) {
            Some(v) => v,
            None => 0,
        }
    }

    /// The phase of an action this tick, derived fresh from the previous
    /// and the current resolved strength.
    pub fn current_action_phase(&self, action: ActionId) -> (p: ActionPhase)
        requires
            self.wf(),
        ensures
            p == self.phase_of(action),
    {
        let prev = self.get_prev_strength(action);
        let cur = self.get_action_strength(action);
        if prev == 0 && cur == 0 {
            ActionPhase::Idle
        } else if prev == 0 {
            ActionPhase::Begin
        } else if cur > 0 {
            ActionPhase::InProgress
        } else {
            ActionPhase::Ended
        }
    }

    /// Whether the action just started: previous strength zero, current
    /// strength positive.
    pub fn did_action_just_began(&self, action: ActionId) -> (r: bool)
        requires
            self.wf(),
        ensures
            r == (self.phase_of(action) == ActionPhase::Begin),
    {
        let p = self.current_action_phase(action);
        p == ActionPhase::Begin
    }

    /// Whether the action continues: previous and current strength both
    /// positive.
    pub fn is_action_in_progress(&self, action: ActionId) -> (r: bool)
        requires
            self.wf(),
        ensures
            r == (self.phase_of(action) == ActionPhase::InProgress),
    {
        let p = self.current_action_phase(action);
        p == ActionPhase::InProgress
    }

    /// Whether the action just stopped: previous strength positive,
    /// current strength zero.
    pub fn did_action_just_end(&self, action: ActionId) -> (r: bool)
        requires
            self.wf(),
        ensures
            r == (self.phase_of(action) == ActionPhase::Ended),
    {
        let p = self.current_action_phase(action);
        p == ActionPhase::Ended
    }

    /// The phase selector configured for an action, `OnProgress` when none
    /// is configured.
    pub fn get_event_phase(&self, action: ActionId) -> (r: EventPhase)
        requires
            self.wf(),
        ensures
            r == self.selector_of(action),
    {
        match self.bindings.phase_for(&action) {
            Some(p) => p,
            None => EventPhase::OnProgress,
        }
    }

    /// Whether the action counts as active this tick: its derived phase
    /// matches its configured selector.
    pub fn is_action_active(&self, action: ActionId) -> (r: bool)
        requires
            self.wf(),
        ensures
            r == self.is_active_of(action),
    {
        match self.get_event_phase(action) {
            EventPhase::OnBegin => self.did_action_just_began(action),
            EventPhase::OnProgress => self.is_action_in_progress(action),
            EventPhase::OnEnded => self.did_action_just_end(action),
        }
    }

    /// The actions that appear in this tick's raw map or in the previous
    /// tick's snapshot, each exactly once, in unspecified order.
    pub fn union_actions(&self) -> (v: Vec<ActionId>)
        requires
            self.wf(),
        ensures
            forall|i: int, j: int| 0 <= i < j < v@.len() ==> v@[i] != v@[j],
            forall|i: int| 0 <= i < v@.len() ==> self.in_union(#[trigger] v@[i]),
            forall|a: ActionId| #[trigger] self.in_union(a) ==> v@.contains(a),
    {
        proof {
            crate::assoc_map::lemma_seq_to_map(self.action_raw_strength.kv());
            crate::assoc_map::lemma_seq_to_map(self.action_prev_strength.kv());
        }
        let mut v: Vec<ActionId> = Vec::new();
        let raw_n = self.action_raw_strength.len();
        let mut i: usize = 0;
        while i < raw_n
            invariant
                i <= raw_n,
                self.wf(),
                raw_n == self.action_raw_strength.kv().len(),
                v@.len() == i,
                forall|j: int| 0 <= j < i
                    ==> v@[j] == (#[trigger] self.action_raw_strength.kv()[j]).0,
            decreases raw_n - i,
        {
            let e = self.action_raw_strength.entry_at(i);
            v.push(e.0);
            i = i + 1;
        }
        proof {
            assert forall|i2: int, j2: int| 0 <= i2 < j2 < v@.len() implies v@[i2] != v@[j2] by {
                assert(v@[i2] == self.action_raw_strength.kv()[i2].0);
                assert(v@[j2] == self.action_raw_strength.kv()[j2].0);
            }
        }
        let prev_n = self.action_prev_strength.len();
        let mut j: usize = 0;
        while j < prev_n
            invariant
                j <= prev_n,
                self.wf(),
                raw_n == self.action_raw_strength.kv().len(),
                prev_n == self.action_prev_strength.kv().len(),
                v@.len() >= raw_n,
                forall|j2: int| 0 <= j2 < raw_n
                    ==> v@[j2] == (#[trigger] self.action_raw_strength.kv()[j2]).0,
                forall|idx: int| raw_n <= idx < v@.len()
                    ==> !self.raw_map().contains_key(#[trigger] v@[idx])
                        && exists|j2: int| 0 <= j2 < j
                            && (#[trigger] self.action_prev_strength.kv()[j2]).0 == v@[idx],
                forall|i2: int, j2: int| 0 <= i2 < j2 < v@.len() ==> v@[i2] != v@[j2],
                forall|j2: int| 0 <= j2 < j
                    ==> v@.contains((#[trigger] self.action_prev_strength.kv()[j2]).0),
            decreases prev_n - j,
        {
            proof {
                crate::assoc_map::lemma_seq_to_map(self.action_raw_strength.kv());
                crate::assoc_map::lemma_seq_to_map(self.action_prev_strength.kv());
            }
            let e = self.action_prev_strength.entry_at(j);
            let ghost old_v = v@;
            if !self.action_raw_strength.contains_key(&e.0) {
                v.push(e.0);
                proof {
                    assert(v@[v@.len() - 1] == e.0);
                    assert(v@.contains(e.0));
                    assert forall|i2: int, j2: int| 0 <= i2 < j2 < v@.len()
                        implies v@[i2] != v@[j2] by {
                        if j2 == v@.len() - 1 {
                            if i2 < raw_n as int {
                                assert(v@[i2] == old_v[i2]);
                                assert(old_v[i2] == self.action_raw_strength.kv()[i2].0);
                                assert(self.raw_map().contains_key(v@[i2]));
                            } else {
                                let j3 = choose|j3: int| 0 <= j3 < j
                                    && (#[trigger] self.action_prev_strength.kv()[j3]).0
                                        == old_v[i2];
                                assert(self.action_prev_strength.kv()[j3].0 == v@[i2]);
                            }
                        }
                    }
                }
            } else {
                proof {
                    let j3 = choose|j3: int| 0 <= j3 < raw_n
                        && (#[trigger] self.action_raw_strength.kv()[j3]).0 == e.0;
                    assert(v@[j3] == e.0);
                    assert(v@.contains(e.0));
                }
            }
            proof {
                assert forall|j2: int| 0 <= j2 < j + 1
                    implies v@.contains((#[trigger] self.action_prev_strength.kv()[j2]).0) by {
                    if j2 < j {
                        let idx = choose|idx: int| 0 <= idx < old_v.len()
                            && old_v[idx] == self.action_prev_strength.kv()[j2].0;
                        assert(v@[idx] == self.action_prev_strength.kv()[j2].0);
                    } else {
                        assert(v@.contains(e.0));
                    }
                }
            }
            j = j + 1;
        }
        proof {
            crate::assoc_map::lemma_seq_to_map(self.action_raw_strength.kv());
            crate::assoc_map::lemma_seq_to_map(self.action_prev_strength.kv());
            assert forall|i2: int| 0 <= i2 < v@.len() implies self.in_union(#[trigger] v@[i2]) by {
                if i2 < raw_n as int {
                    assert(v@[i2] == self.action_raw_strength.kv()[i2].0);
                } else {
                    let j3 = choose|j3: int| 0 <= j3 < prev_n
                        && (#[trigger] self.action_prev_strength.kv()[j3]).0 == v@[i2];
                    assert(self.prev_map().contains_key(v@[i2]));
                }
            }
            assert forall|a: ActionId| #[trigger] self.in_union(a) implies v@.contains(a) by {
                if self.raw_map().contains_key(a) {
                    let j3 = choose|j3: int| 0 <= j3 < raw_n
                        && (#[trigger] self.action_raw_strength.kv()[j3]).0 == a;
                    assert(v@[j3] == a);
                } else {
                    let j3 = choose|j3: int| 0 <= j3 < prev_n
                        && (#[trigger] self.action_prev_strength.kv()[j3]).0 == a;
                    assert(v@.contains(self.action_prev_strength.kv()[j3].0));
                }
            }
        }
        v
    }
}

impl Kurinji {
    /// The lowest free player slot, `None` when all
    /// `MAX_PLAYER_HANDLES` slots are taken.
    pub fn get_available_player_handle(&self) -> (r: Option<u32>)
        requires
            self.wf(),
        ensures
            match r {
                Some(s) => s < MAX_PLAYER_HANDLES && !self.slot_pad_map().contains_key(s)
                    && forall|j: u32| j < s ==> self.slot_pad_map().contains_key(j),
                None => forall|j: u32| j < MAX_PLAYER_HANDLES
                    ==> self.slot_pad_map().contains_key(j),
            },
    {
        let mut i: u32 = 0;
        while i < MAX_PLAYER_HANDLES
            invariant
                i <= MAX_PLAYER_HANDLES,
                self.wf(),
                forall|j: u32| j < i ==> self.slot_pad_map().contains_key(j),
            decreases MAX_PLAYER_HANDLES - i,
        {
            if !self.slot_to_pad.contains_key(&i) {
                return Some(i);
            }
            i = i + 1;
        }
        None
    }

    /// The player slot a connected gamepad occupies, `None` when the
    /// gamepad is not connected.
    pub fn get_player_handle_for_gamepad(&self, pad: u32) -> (r: Option<u32>)
        requires
            self.wf(),
        ensures
            self.pad_slot_map().contains_key(pad) ==> r == Some(self.pad_slot_map()[pad]),
            !self.pad_slot_map().contains_key(pad) ==> r.is_none(),
    {
        self.pad_to_slot.get(&pad)
    }

    /// The gamepad occupying a player slot, `None` when the slot is free.
    pub fn get_gamepad_from_player_handle(&self, player: u32) -> (r: Option<u32>)
        requires
            self.wf(),
        ensures
            self.slot_pad_map().contains_key(player) ==> r == Some(self.slot_pad_map()[player]),
            !self.slot_pad_map().contains_key(player) ==> r.is_none(),
    {
        self.slot_to_pad.get(&player)
    }

    /// Handles a gamepad connection: the gamepad takes the lowest free
    /// player slot; when every slot is taken the request is dropped and
    /// the engine is unaffected.
    pub fn gamepad_connected(&mut self, pad: u32) -> (r: Option<u32>)
        requires
            old(self).wf(),
            !old(self).pad_slot_map().contains_key(pad),
        ensures
            final(self).wf(),
            Self::same_config(*old(self), *final(self)),
            Self::same_strengths(*old(self), *final(self)),
            Self::same_stack(*old(self), *final(self)),
            match r {
                Some(s) => s < MAX_PLAYER_HANDLES
                    && !old(self).slot_pad_map().contains_key(s)
                    && (forall|j: u32| j < s ==> old(self).slot_pad_map().contains_key(j))
                    && final(self).pad_slot_map() == old(self).pad_slot_map().insert(pad, s)
                    && final(self).slot_pad_map() == old(self).slot_pad_map().insert(s, pad),
                None => (forall|j: u32| j < MAX_PLAYER_HANDLES
                    ==> old(self).slot_pad_map().contains_key(j))
                    && Self::same_pads(*old(self), *final(self)),
            },
    {
        match self.get_available_player_handle() {
            Some(s) => {
                self.pad_to_slot.insert(pad, s);
                self.slot_to_pad.insert(s, pad);
                proof {
                    assert forall|p: u32| #[trigger] self.pad_to_slot@.contains_key(p)
                        implies self.pad_to_slot@[p] < MAX_PLAYER_HANDLES
                            && self.slot_to_pad@.contains_key(self.pad_to_slot@[p])
                            && self.slot_to_pad@[self.pad_to_slot@[p]] == p by {
                        if p != pad {
                            assert(old(self).pad_to_slot@.contains_key(p));
                            assert(old(self).pad_to_slot@[p] != s);
                        }
                    }
                    assert forall|s2: u32| #[trigger] self.slot_to_pad@.contains_key(s2)
                        implies s2 < MAX_PLAYER_HANDLES
                            && self.pad_to_slot@.contains_key(self.slot_to_pad@[s2])
                            && self.pad_to_slot@[self.slot_to_pad@[s2]] == s2 by {
                        if s2 != s {
                            assert(old(self).slot_to_pad@.contains_key(s2));
                            assert(old(self).slot_to_pad@[s2] != pad);
                        }
                    }
                }
                Some(s)
            }
            None => None,
        }
    }

    /// Handles a gamepad disconnection: the gamepad's slot is freed for
    /// reuse; a no-op when the gamepad is not connected.
    pub fn gamepad_disconnected(&mut self, pad: u32)
        requires
            old(self).wf(),
        ensures
            final(self).wf(),
            Self::same_config(*old(self), *final(self)),
            Self::same_strengths(*old(self), *final(self)),
            Self::same_stack(*old(self), *final(self)),
            old(self).pad_slot_map().contains_key(pad)
                ==> final(self).pad_slot_map() == old(self).pad_slot_map().remove(pad)
                    && final(self).slot_pad_map()
                        == old(self).slot_pad_map().remove(old(self).pad_slot_map()[pad]),
            !old(self).pad_slot_map().contains_key(pad)
                ==> Self::same_pads(*old(self), *final(self)),
    {
        match self.pad_to_slot.get(&pad) {
            Some(s) => {
                self.pad_to_slot.remove(&pad);
                self.slot_to_pad.remove(&s);
                proof {
                    assert forall|p: u32| #[trigger] self.pad_to_slot@.contains_key(p)
                        implies self.pad_to_slot@[p] < MAX_PLAYER_HANDLES
                            && self.slot_to_pad@.contains_key(self.pad_to_slot@[p])
                            && self.slot_to_pad@[self.pad_to_slot@[p]] == p by {
                        assert(old(self).pad_to_slot@.contains_key(p) && p != pad);
                        assert(old(self).pad_to_slot@[p] != s);
                    }
                    assert forall|s2: u32| #[trigger] self.slot_to_pad@.contains_key(s2)
                        implies s2 < MAX_PLAYER_HANDLES
                            && self.pad_to_slot@.contains_key(self.slot_to_pad@[s2])
                            && self.pad_to_slot@[self.slot_to_pad@[s2]] == s2 by {
                        assert(old(self).slot_to_pad@.contains_key(s2) && s2 != s);
                        assert(old(self).slot_to_pad@[s2] != pad);
                    }
                }
            }
            None => {}
        }
    }
}

impl Default for Kurinji {
    /// The engine in its starting state, as [`Kurinji::new`] builds it.
    fn default() -> (k: Self)
        ensures
            k.wf(),
            k.live_bindings().table_map() == Map::<DeviceInput, ActionId>::empty(),
            k.raw_map() == Map::<ActionId, u32>::empty(),
            k.prev_map() == Map::<ActionId, u32>::empty(),
    {
        Kurinji::new()
    }
}

/// Bounds of the strength pipeline: a well-formed engine resolves every
/// action inside `[0, STRENGTH_SCALE]`, an action absent from the raw map
/// resolves to `0`, and previous-tick strengths are equally bounded.
pub proof fn lemma_resolved_bounds(k: Kurinji, a: ActionId)
    requires
        k.wf(),
    ensures
        0 <= k.resolved_strength_of(a) <= STRENGTH_SCALE,
        !k.raw_map().contains_key(a) ==> k.resolved_strength_of(a) == 0,
        0 <= k.prev_strength_of(a) <= STRENGTH_SCALE,
{
    let raw = k.raw_strength_of(a);
    assert(0 <= raw <= STRENGTH_SCALE);
    let base = if k.live_bindings().deadzone_map().contains_key(a) {
        deadzone_remap(k.live_bindings().deadzone_map()[a] as int, raw)
    } else {
        raw
    };
    if k.live_bindings().deadzone_map().contains_key(a) {
        crate::bindings::lemma_deadzone_bounded(k.bindings, a);
        lemma_deadzone_properties(k.live_bindings().deadzone_map()[a] as int, raw);
    }
    assert(0 <= base <= STRENGTH_SCALE);
    assert(raw == 0 ==> base == 0);
    if k.curve_map().contains_key(a) {
        lemma_curve_bounds(k.curve_map()[a], base);
    }
}

/// Curve composition: when a shaping curve is configured for an action and
/// no deadzone is, the resolved strength is exactly the curve applied to
/// the raw strength.
pub proof fn lemma_curve_composition(k: Kurinji, a: ActionId)
    requires
        k.curve_map().contains_key(a),
        !k.live_bindings().deadzone_map().contains_key(a),
    ensures
        k.resolved_strength_of(a) == curve_value(k.curve_map()[a], k.raw_strength_of(a)),
{
}

/// Resolution is a function of the engine state alone: any two results
/// that `get_action_strength` may return for the same action, while the
/// raw strengths and the configuration are unchanged, are equal.
pub proof fn lemma_resolve_idempotent(k: Kurinji, a: ActionId, r1: u32, r2: u32)
    requires
        r1 == k.resolved_strength_of(a),
        r2 == k.resolved_strength_of(a),
    ensures
        r1 == r2,
{
}

} // verus!
