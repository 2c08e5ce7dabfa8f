//! A binding set: the descriptor-to-action table together with the
//! per-action deadzone and phase configuration. A binding set is the unit
//! that is pushed on, popped off, and merged along the binding stack.

use crate::assoc_map::AssocMap;
use crate::event_phase::EventPhase;
use crate::input_desc::{ActionId, DeviceInput};
use crate::strength::STRENGTH_SCALE;
use vstd::prelude::*;

verus! {

/// The descriptor-to-action table for every device category, the
/// per-action deadzone thresholds, and the per-action phase selectors.
pub struct Bindings {
    table: AssocMap<DeviceInput, ActionId>,
    deadzone: AssocMap<ActionId, u32>,
    phase: AssocMap<ActionId, EventPhase>,
}

impl Bindings {
    /// The descriptor-to-action table, as a map.
    pub closed spec fn table_map(self) -> Map<DeviceInput, ActionId> {
        self.table@
    }

    /// The per-action deadzone thresholds, as a map.
    pub closed spec fn deadzone_map(self) -> Map<ActionId, u32> {
        self.deadzone@
    }

    /// The per-action phase selectors, as a map.
    pub closed spec fn phase_map(self) -> Map<ActionId, EventPhase> {
        self.phase@
    }

    /// Well-formedness: the three tables are well-formed and every
    /// configured deadzone lies below full scale.
    pub closed spec fn wf(self) -> bool {
        &&& self.table.wf()
        &&& self.deadzone.wf()
        &&& self.phase.wf()
        &&& forall|a: ActionId| self.deadzone@.contains_key(a)
            ==> (#[trigger] self.deadzone@[a]) < STRENGTH_SCALE
    }

    /// A binding set with nothing bound and nothing configured.
    pub fn new() -> (b: Bindings)
        ensures
            b.wf(),
            b.table_map() == Map::<DeviceInput, ActionId>::empty(),
            b.deadzone_map() == Map::<ActionId, u32>::empty(),
            b.phase_map() == Map::<ActionId, EventPhase>::empty(),
    {
        Bindings {
            table: AssocMap::new(),
            deadzone: AssocMap::new(),
            phase: AssocMap::new(),
        }
    }

    /// Maps a physical input to an action, replacing any earlier mapping of
    /// that input; binding the same pair again changes nothing.
    pub fn bind(&mut self, input: DeviceInput, action: ActionId)
        requires
            old(self).wf(),
        ensures
            final(self).wf(),
            final(self).table_map() == old(self).table_map().insert(input, action),
            final(self).deadzone_map() == old(self).deadzone_map(),
            final(self).phase_map() == old(self).phase_map(),
    {
        self.table.insert(input, action);
    }

    /// Removes the mapping of a physical input; a no-op when none exists.
    pub fn unbind(&mut self, input: DeviceInput)
        requires
            old(self).wf(),
        ensures
            final(self).wf(),
            final(self).table_map() == old(self).table_map().remove(input),
            final(self).deadzone_map() == old(self).deadzone_map(),
            final(self).phase_map() == old(self).phase_map(),
    {
        self.table.remove(&input);
    }

    /// Sets the deadzone threshold of an action.
    pub fn set_dead_zone(&mut self, action: ActionId, value: u32)
        requires
            old(self).wf(),
            value < STRENGTH_SCALE,
        ensures
            final(self).wf(),
            final(self).deadzone_map() == old(self).deadzone_map().insert(action, value),
            final(self).table_map() == old(self).table_map(),
            final(self).phase_map() == old(self).phase_map(),
    {
        self.deadzone.insert(action, value);
    }

    /// Sets the phase selector of an action.
    pub fn set_event_phase(&mut self, action: ActionId, phase: EventPhase)
        requires
            old(self).wf(),
        ensures
            final(self).wf(),
            final(self).phase_map() == old(self).phase_map().insert(action, phase),
            final(self).table_map() == old(self).table_map(),
            final(self).deadzone_map() == old(self).deadzone_map(),
    {
        self.phase.insert(action, phase);
    }

    /// The action a physical input is mapped to, if any.
    pub fn action_for(&self, input: &DeviceInput) -> (r: Option<ActionId>)
        requires
            self.wf(),
        ensures
            self.table_map().contains_key(*input) ==> r == Some(self.table_map()[*input]),
            !self.table_map().contains_key(*input) ==> r.is_none(),
    {
        self.table.get(input)
    }

    /// The configured deadzone of an action, if any.
    pub fn dead_zone_for(&self, action: &ActionId) -> (r: Option<u32>)
        requires
            self.wf(),
        ensures
            self.deadzone_map().contains_key(*action)
                ==> r == Some(self.deadzone_map()[*action]),
            !self.deadzone_map().contains_key(*action) ==> r.is_none(),
    {
        self.deadzone.get(action)
    }

    /// The configured phase selector of an action, if any.
    pub fn phase_for(&self, action: &ActionId) -> (r: Option<EventPhase>)
        requires
            self.wf(),
        ensures
            self.phase_map().contains_key(*action) ==> r == Some(self.phase_map()[*action]),
            !self.phase_map().contains_key(*action) ==> r.is_none(),
    {
        self.phase.get(action)
    }

    /// Copies every entry of `other` into this binding set; on a key
    /// collision, in each of the three tables independently, the entry of
    /// `other` wins.
    pub fn merge_from(&mut self, other: &Bindings)
        requires
            old(self).wf(),
            other.wf(),
        ensures
            final(self).wf(),
            final(self).table_map()
                == old(self).table_map().union_prefer_right(other.table_map()),
            final(self).deadzone_map()
                == old(self).deadzone_map().union_prefer_right(other.deadzone_map()),
            final(self).phase_map()
                == old(self).phase_map().union_prefer_right(other.phase_map()),
    {
        self.table.merge_from(&other.table);
        self.deadzone.merge_from(&other.deadzone);
        self.phase.merge_from(&other.phase);
    }

    /// Merges another binding set into this one; on a key collision the
    /// entry of `other` wins (last-write-wins, per table independently).
    pub fn merge(&mut self, other: Bindings)
        requires
            old(self).wf(),
            other.wf(),
        ensures
            final(self).wf(),
            final(self).table_map()
                == old(self).table_map().union_prefer_right(other.table_map()),
            final(self).deadzone_map()
                == old(self).deadzone_map().union_prefer_right(other.deadzone_map()),
            final(self).phase_map()
                == old(self).phase_map().union_prefer_right(other.phase_map()),
    {
        self.merge_from(&other);
    }

    /// An entry-for-entry copy of the binding set.
    pub fn duplicate(&self) -> (r: Bindings)
        ensures
            r.table_map() == self.table_map(),
            r.deadzone_map() == self.deadzone_map(),
            r.phase_map() == self.phase_map(),
            self.wf() ==> r.wf(),
    {
        Bindings {
            table: self.table.duplicate(),
            deadzone: self.deadzone.duplicate(),
            phase: self.phase.duplicate(),
        }
    }
}

/// In a well-formed binding set every configured deadzone lies below full
/// scale.
pub proof fn lemma_deadzone_bounded(b: Bindings, a: ActionId)
    requires
        b.wf(),
        b.deadzone_map().contains_key(a),
    ensures
        b.deadzone_map()[a] < STRENGTH_SCALE,
{
}

/// Merge precedence: when both binding sets map the same input, the merged
/// set keeps the second set's action; when only the first maps it, the
/// merged set keeps the first set's action. So `merge(a, b)` and
/// `merge(b, a)` disagree on every input the two sets both map.
pub proof fn lemma_merge_precedence(a: Bindings, b: Bindings, k: DeviceInput)
    ensures
        b.table_map().contains_key(k)
            ==> a.table_map().union_prefer_right(b.table_map()).contains_key(k)
                && a.table_map().union_prefer_right(b.table_map())[k] == b.table_map()[k],
        !b.table_map().contains_key(k) && a.table_map().contains_key(k)
            ==> a.table_map().union_prefer_right(b.table_map()).contains_key(k)
                && a.table_map().union_prefer_right(b.table_map())[k] == a.table_map()[k],
{
}

/// The descriptor-to-action table of a left-to-right merge of a stack of
/// binding sets, base first: a later set's mapping overrides an earlier
/// one's.
pub open spec fn fold_tables(s: Seq<Bindings>) -> Map<DeviceInput, ActionId>
    decreases s.len(),
{
    if s.len() == 0 {
        Map::empty()
    } else {
        fold_tables(s.drop_last()).union_prefer_right(s.last().table_map())
    }
}

/// The deadzone table of a left-to-right merge of a stack of binding sets.
pub open spec fn fold_deadzones(s: Seq<Bindings>) -> Map<ActionId, u32>
    decreases s.len(),
{
    if s.len() == 0 {
        Map::empty()
    } else {
        fold_deadzones(s.drop_last()).union_prefer_right(s.last().deadzone_map())
    }
}

/// The phase-selector table of a left-to-right merge of a stack of binding
/// sets.
pub open spec fn fold_phases(s: Seq<Bindings>) -> Map<ActionId, EventPhase>
    decreases s.len(),
{
    if s.len() == 0 {
        Map::empty()
    } else {
        fold_phases(s.drop_last()).union_prefer_right(s.last().phase_map())
    }
}

} // verus!
