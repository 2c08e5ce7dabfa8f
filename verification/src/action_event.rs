//! The event-production stage: once per tick, after the adapters have
//! written raw strengths, the producer walks the union of the actions seen
//! this tick and last tick and emits the notifications each action's phase
//! calls for. Iteration order over the union is unspecified; consumers must
//! not rely on it.

use crate::event_phase::ActionPhase;
use crate::input_desc::ActionId;
use crate::kurinji::{lemma_resolved_bounds, Kurinji};
use vstd::prelude::*;

verus! {

/// Fired when an action is active: its derived phase matches its
/// configured selector.
#[derive(Clone, Copy, Debug, PartialEq, Eq, Structural)]
pub struct OnActionActive {
    pub action: ActionId,
    pub strength: u32,
}

/// Fired in the tick an action begins.
#[derive(Clone, Copy, Debug, PartialEq, Eq, Structural)]
pub struct OnActionBegin {
    pub action: ActionId,
    pub strength: u32,
}

/// Fired in every tick an action stays in progress.
#[derive(Clone, Copy, Debug, PartialEq, Eq, Structural)]
pub struct OnActionProgress {
    pub action: ActionId,
    pub strength: u32,
}

/// Fired in the tick an action ends; an ended action has no strength to
/// report.
#[derive(Clone, Copy, Debug, PartialEq, Eq, Structural)]
pub struct OnActionEnd {
    pub action: ActionId,
}

/// One tick's notifications, one list per kind.
pub struct ActionEvents {
    pub active: Vec<OnActionActive>,
    pub begin: Vec<OnActionBegin>,
    pub progress: Vec<OnActionProgress>,
    pub ended: Vec<OnActionEnd>,
}

/// What one tick's event production guarantees. For each kind: every entry
/// names an action from the union of this tick's raw map and the previous
/// tick's snapshot whose state qualifies, carrying that action's current
/// resolved strength; every qualifying action of the union appears; and no
/// action appears twice in one list.
pub open spec fn producer_post(k: Kurinji, evs: ActionEvents) -> bool {
    &&& forall|i: int| 0 <= i < evs.active@.len()
        ==> k.in_union((#[trigger] evs.active@[i]).action)
            && k.is_active_of(evs.active@[i].action)
            && evs.active@[i].strength == k.resolved_strength_of(evs.active@[i].action)
    &&& forall|a: ActionId| k.in_union(a) && #[trigger] k.is_active_of(a)
        ==> exists|i: int| 0 <= i < evs.active@.len()
            && (#[trigger] evs.active@[i]).action == a
    &&& forall|i: int, j: int| 0 <= i < j < evs.active@.len()
        ==> (#[trigger] evs.active@[i]).action != (#[trigger] evs.active@[j]).action
    &&& forall|i: int| 0 <= i < evs.begin@.len()
        ==> k.in_union((#[trigger] evs.begin@[i]).action)
            && k.phase_of(evs.begin@[i].action) == ActionPhase::Begin
            && evs.begin@[i].strength == k.resolved_strength_of(evs.begin@[i].action)
    &&& forall|a: ActionId| k.in_union(a) && #[trigger] k.phase_of(a) == ActionPhase::Begin
        ==> exists|i: int| 0 <= i < evs.begin@.len() && (#[trigger] evs.begin@[i]).action == a
    &&& forall|i: int, j: int| 0 <= i < j < evs.begin@.len()
        ==> (#[trigger] evs.begin@[i]).action != (#[trigger] evs.begin@[j]).action
    &&& forall|i: int| 0 <= i < evs.progress@.len()
        ==> k.in_union((#[trigger] evs.progress@[i]).action)
            && k.phase_of(evs.progress@[i].action) == ActionPhase::InProgress
            && evs.progress@[i].strength == k.resolved_strength_of(evs.progress@[i].action)
    &&& forall|a: ActionId| k.in_union(a) && #[trigger] k.phase_of(a) == ActionPhase::InProgress
        ==> exists|i: int| 0 <= i < evs.progress@.len()
            && (#[trigger] evs.progress@[i]).action == a
    &&& forall|i: int, j: int| 0 <= i < j < evs.progress@.len()
        ==> (#[trigger] evs.progress@[i]).action != (#[trigger] evs.progress@[j]).action
    &&& forall|i: int| 0 <= i < evs.ended@.len()
        ==> k.in_union((#[trigger] evs.ended@[i]).action)
            && k.phase_of(evs.ended@[i].action) == ActionPhase::Ended
    &&& forall|a: ActionId| k.in_union(a) && #[trigger] k.phase_of(a) == ActionPhase::Ended
        ==> exists|i: int| 0 <= i < evs.ended@.len() && (#[trigger] evs.ended@[i]).action == a
    &&& forall|i: int, j: int| 0 <= i < j < evs.ended@.len()
        ==> (#[trigger] evs.ended@[i]).action != (#[trigger] evs.ended@[j]).action
}

impl Kurinji {
    /// The active notifications for a duplicate-free list of actions.
    fn collect_active(&self, keys: &Vec<ActionId>) -> (out: Vec<OnActionActive>)
        requires
            self.wf(),
            forall|i: int, j: int| 0 <= i < j < keys@.len() ==> keys@[i] != keys@[j],
            forall|i: int| 0 <= i < keys@.len() ==> self.in_union(#[trigger] keys@[i]),
        ensures
            forall|i: int| 0 <= i < out@.len()
                ==> self.in_union((#[trigger] out@[i]).action)
                    && self.is_active_of(out@[i].action)
                    && out@[i].strength == self.resolved_strength_of(out@[i].action),
            forall|j: int| 0 <= j < keys@.len() && self.is_active_of(#[trigger] keys@[j])
                ==> exists|i: int| 0 <= i < out@.len()
                    && (#[trigger] out@[i]).action == keys@[j],
            forall|i: int, j: int| 0 <= i < j < out@.len()
                ==> (#[trigger] out@[i]).action != (#[trigger] out@[j]).action,
    {
        let n = keys.len();
        let mut out: Vec<OnActionActive> = Vec::new();
        let mut idx: usize = 0;
        while idx < n
            invariant
                idx <= n,
                self.wf(),
                n == keys@.len(),
                forall|i: int, j: int| 0 <= i < j < n ==> keys@[i] != keys@[j],
                forall|i: int| 0 <= i < n ==> self.in_union(#[trigger] keys@[i]),
                forall|i: int| 0 <= i < out@.len()
                    ==> exists|j: int| 0 <= j < idx
                        && (#[trigger] out@[i]).action == keys@[j],
                forall|i: int| 0 <= i < out@.len()
                    ==> self.in_union((#[trigger] out@[i]).action)
                        && self.is_active_of(out@[i].action)
                        && out@[i].strength == self.resolved_strength_of(out@[i].action),
                forall|j: int| 0 <= j < idx && self.is_active_of(#[trigger] keys@[j])
                    ==> exists|i: int| 0 <= i < out@.len()
                        && (#[trigger] out@[i]).action == keys@[j],
                forall|i: int, j: int| 0 <= i < j < out@.len()
                    ==> (#[trigger] out@[i]).action != (#[trigger] out@[j]).action,
            decreases n - idx,
        {
            let a = keys[idx];
            let ghost prior = out@;
            if self.is_action_active(a) {
                let strength = self.get_action_strength(a);
                out.push(OnActionActive { action: a, strength });
            }
            proof {
                assert forall|j: int| 0 <= j < idx + 1
                    && self.is_active_of(#[trigger] keys@[j])
                    implies exists|i: int| 0 <= i < out@.len()
                        && (#[trigger] out@[i]).action == keys@[j] by {
                    if j < idx {
                        let i = choose|i: int| 0 <= i < prior.len()
                            && (#[trigger] prior[i]).action == keys@[j];
                        assert(out@[i] == prior[i]);
                    } else {
                        assert(out@[out@.len() - 1].action == keys@[j]);
                    }
                }
            }
            idx = idx + 1;
        }
        out
    }

    /// The begin notifications for a duplicate-free list of actions.
    fn collect_begin(&self, keys: &Vec<ActionId>) -> (out: Vec<OnActionBegin>)
        requires
            self.wf(),
            forall|i: int, j: int| 0 <= i < j < keys@.len() ==> keys@[i] != keys@[j],
            forall|i: int| 0 <= i < keys@.len() ==> self.in_union(#[trigger] keys@[i]),
        ensures
            forall|i: int| 0 <= i < out@.len()
                ==> self.in_union((#[trigger] out@[i]).action)
                    && self.phase_of(out@[i].action) == ActionPhase::Begin
                    && out@[i].strength == self.resolved_strength_of(out@[i].action),
            forall|j: int| 0 <= j < keys@.len()
                && #[trigger] self.phase_of(keys@[j]) == ActionPhase::Begin
                ==> exists|i: int| 0 <= i < out@.len()
                    && (#[trigger] out@[i]).action == keys@[j],
            forall|i: int, j: int| 0 <= i < j < out@.len()
                ==> (#[trigger] out@[i]).action != (#[trigger] out@[j]).action,
    {
        let n = keys.len();
        let mut out: Vec<OnActionBegin> = Vec::new();
        let mut idx: usize = 0;
        while idx < n
            invariant
                idx <= n,
                self.wf(),
                n == keys@.len(),
                forall|i: int, j: int| 0 <= i < j < n ==> keys@[i] != keys@[j],
                forall|i: int| 0 <= i < n ==> self.in_union(#[trigger] keys@[i]),
                forall|i: int| 0 <= i < out@.len()
                    ==> exists|j: int| 0 <= j < idx
                        && (#[trigger] out@[i]).action == keys@[j],
                forall|i: int| 0 <= i < out@.len()
                    ==> self.in_union((#[trigger] out@[i]).action)
                        && self.phase_of(out@[i].action) == ActionPhase::Begin
                        && out@[i].strength == self.resolved_strength_of(out@[i].action),
                forall|j: int| 0 <= j < idx
                    && #[trigger] self.phase_of(keys@[j]) == ActionPhase::Begin
                    ==> exists|i: int| 0 <= i < out@.len()
                        && (#[trigger] out@[i]).action == keys@[j],
                forall|i: int, j: int| 0 <= i < j < out@.len()
                    ==> (#[trigger] out@[i]).action != (#[trigger] out@[j]).action,
            decreases n - idx,
        {
            let a = keys[idx];
            let ghost prior = out@;
            if self.did_action_just_began(a) {
                let strength = self.get_action_strength(a);
                out.push(OnActionBegin { action: a, strength });
            }
            proof {
                assert forall|j: int| 0 <= j < idx + 1
                    && #[trigger] self.phase_of(keys@[j]) == ActionPhase::Begin
                    implies exists|i: int| 0 <= i < out@.len()
                        && (#[trigger] out@[i]).action == keys@[j] by {
                    if j < idx {
                        let i = choose|i: int| 0 <= i < prior.len()
                            && (#[trigger] prior[i]).action == keys@[j];
                        assert(out@[i] == prior[i]);
                    } else {
                        assert(out@[out@.len() - 1].action == keys@[j]);
                    }
                }
            }
            idx = idx + 1;
        }
        out
    }

    /// The progress notifications for a duplicate-free list of actions.
    fn collect_progress(&self, keys: &Vec<ActionId>) -> (out: Vec<OnActionProgress>)
        requires
            self.wf(),
            forall|i: int, j: int| 0 <= i < j < keys@.len() ==> keys@[i] != keys@[j],
            forall|i: int| 0 <= i < keys@.len() ==> self.in_union(#[trigger] keys@[i]),
        ensures
            forall|i: int| 0 <= i < out@.len()
                ==> self.in_union((#[trigger] out@[i]).action)
                    && self.phase_of(out@[i].action) == ActionPhase::InProgress
                    && out@[i].strength == self.resolved_strength_of(out@[i].action),
            forall|j: int| 0 <= j < keys@.len()
                && #[trigger] self.phase_of(keys@[j]) == ActionPhase::InProgress
                ==> exists|i: int| 0 <= i < out@.len()
                    && (#[trigger] out@[i]).action == keys@[j],
            forall|i: int, j: int| 0 <= i < j < out@.len()
                ==> (#[trigger] out@[i]).action != (#[trigger] out@[j]).action,
    {
        let n = keys.len();
        let mut out: Vec<OnActionProgress> = Vec::new();
        let mut idx: usize = 0;
        while idx < n
            invariant
                idx <= n,
                self.wf(),
                n == keys@.len(),
                forall|i: int, j: int| 0 <= i < j < n ==> keys@[i] != keys@[j],
                forall|i: int| 0 <= i < n ==> self.in_union(#[trigger] keys@[i]),
                forall|i: int| 0 <= i < out@.len()
                    ==> exists|j: int| 0 <= j < idx
                        && (#[trigger] out@[i]).action == keys@[j],
                forall|i: int| 0 <= i < out@.len()
                    ==> self.in_union((#[trigger] out@[i]).action)
                        && self.phase_of(out@[i].action) == ActionPhase::InProgress
                        && out@[i].strength == self.resolved_strength_of(out@[i].action),
                forall|j: int| 0 <= j < idx
                    && #[trigger] self.phase_of(keys@[j]) == ActionPhase::InProgress
                    ==> exists|i: int| 0 <= i < out@.len()
                        && (#[trigger] out@[i]).action == keys@[j],
                forall|i: int, j: int| 0 <= i < j < out@.len()
                    ==> (#[trigger] out@[i]).action != (#[trigger] out@[j]).action,
            decreases n - idx,
        {
            let a = keys[idx];
            let ghost prior = out@;
            if self.is_action_in_progress(a) {
                let strength = self.get_action_strength(a);
                out.push(OnActionProgress { action: a, strength });
            }
            proof {
                assert forall|j: int| 0 <= j < idx + 1
                    && #[trigger] self.phase_of(keys@[j]) == ActionPhase::InProgress
                    implies exists|i: int| 0 <= i < out@.len()
                        && (#[trigger] out@[i]).action == keys@[j] by {
                    if j < idx {
                        let i = choose|i: int| 0 <= i < prior.len()
                            && (#[trigger] prior[i]).action == keys@[j];
                        assert(out@[i] == prior[i]);
                    } else {
                        assert(out@[out@.len() - 1].action == keys@[j]);
                    }
                }
            }
            idx = idx + 1;
        }
        out
    }

    /// The end notifications for a duplicate-free list of actions.
    fn collect_ended(&self, keys: &Vec<ActionId>) -> (out: Vec<OnActionEnd>)
        requires
            self.wf(),
            forall|i: int, j: int| 0 <= i < j < keys@.len() ==> keys@[i] != keys@[j],
            forall|i: int| 0 <= i < keys@.len() ==> self.in_union(#[trigger] keys@[i]),
        ensures
            forall|i: int| 0 <= i < out@.len()
                ==> self.in_union((#[trigger] out@[i]).action)
                    && self.phase_of(out@[i].action) == ActionPhase::Ended,
            forall|j: int| 0 <= j < keys@.len()
                && #[trigger] self.phase_of(keys@[j]) == ActionPhase::Ended
                ==> exists|i: int| 0 <= i < out@.len()
                    && (#[trigger] out@[i]).action == keys@[j],
            forall|i: int, j: int| 0 <= i < j < out@.len()
                ==> (#[trigger] out@[i]).action != (#[trigger] out@[j]).action,
    {
        let n = keys.len();
        let mut out: Vec<OnActionEnd> = Vec::new();
        let mut idx: usize = 0;
        while idx < n
            invariant
                idx <= n,
                self.wf(),
                n == keys@.len(),
                forall|i: int, j: int| 0 <= i < j < n ==> keys@[i] != keys@[j],
                forall|i: int| 0 <= i < n ==> self.in_union(#[trigger] keys@[i]),
                forall|i: int| 0 <= i < out@.len()
                    ==> exists|j: int| 0 <= j < idx
                        && (#[trigger] out@[i]).action == keys@[j],
                forall|i: int| 0 <= i < out@.len()
                    ==> self.in_union((#[trigger] out@[i]).action)
                        && self.phase_of(out@[i].action) == ActionPhase::Ended,
                forall|j: int| 0 <= j < idx
                    && #[trigger] self.phase_of(keys@[j]) == ActionPhase::Ended
                    ==> exists|i: int| 0 <= i < out@.len()
                        && (#[trigger] out@[i]).action == keys@[j],
                forall|i: int, j: int| 0 <= i < j < out@.len()
                    ==> (#[trigger] out@[i]).action != (#[trigger] out@[j]).action,
            decreases n - idx,
        {
            let a = keys[idx];
            let ghost prior = out@;
            if self.did_action_just_end(a) {
                out.push(OnActionEnd { action: a });
            }
            proof {
                assert forall|j: int| 0 <= j < idx + 1
                    && #[trigger] self.phase_of(keys@[j]) == ActionPhase::Ended
                    implies exists|i: int| 0 <= i < out@.len()
                        && (#[trigger] out@[i]).action == keys@[j] by {
                    if j < idx {
                        let i = choose|i: int| 0 <= i < prior.len()
                            && (#[trigger] prior[i]).action == keys@[j];
                        assert(out@[i] == prior[i]);
                    } else {
                        assert(out@[out@.len() - 1].action == keys@[j]);
                    }
                }
            }
            idx = idx + 1;
        }
        out
    }

    /// Produces this tick's notifications from the union of the actions in
    /// the raw map and in the previous tick's snapshot. The union is
    /// required so an action whose strength just dropped to zero — hence
    /// absent from the raw map — still gets its end reported.
    pub fn action_event_producer(&self) -> (evs: ActionEvents)
        requires
            self.wf(),
        ensures
            producer_post(*self, evs),
    {
        let keys = self.union_actions();
        let active = self.collect_active(&keys);
        let begin = self.collect_begin(&keys);
        let progress = self.collect_progress(&keys);
        let ended = self.collect_ended(&keys);
        proof {
            assert forall|a: ActionId| self.in_union(a) && #[trigger] self.is_active_of(a)
                implies exists|i: int| 0 <= i < active@.len()
                    && (#[trigger] active@[i]).action == a by {
                assert(keys@.contains(a));
                let j = choose|j: int| 0 <= j < keys@.len() && keys@[j] == a;
                assert(self.is_active_of(keys@[j]));
                let i = choose|i: int| 0 <= i < active@.len()
                    && (#[trigger] active@[i]).action == keys@[j];
                assert(active@[i].action == a);
            }
            assert forall|a: ActionId| self.in_union(a)
                && #[trigger] self.phase_of(a) == ActionPhase::Begin
                implies exists|i: int| 0 <= i < begin@.len()
                    && (#[trigger] begin@[i]).action == a by {
                assert(keys@.contains(a));
                let j = choose|j: int| 0 <= j < keys@.len() && keys@[j] == a;
                assert(self.phase_of(keys@[j]) == ActionPhase::Begin);
                let i = choose|i: int| 0 <= i < begin@.len()
                    && (#[trigger] begin@[i]).action == keys@[j];
                assert(begin@[i].action == a);
            }
            assert forall|a: ActionId| self.in_union(a)
                && #[trigger] self.phase_of(a) == ActionPhase::InProgress
                implies exists|i: int| 0 <= i < progress@.len()
                    && (#[trigger] progress@[i]).action == a by {
                assert(keys@.contains(a));
                let j = choose|j: int| 0 <= j < keys@.len() && keys@[j] == a;
                assert(self.phase_of(keys@[j]) == ActionPhase::InProgress);
                let i = choose|i: int| 0 <= i < progress@.len()
                    && (#[trigger] progress@[i]).action == keys@[j];
                assert(progress@[i].action == a);
            }
            assert forall|a: ActionId| self.in_union(a)
                && #[trigger] self.phase_of(a) == ActionPhase::Ended
                implies exists|i: int| 0 <= i < ended@.len()
                    && (#[trigger] ended@[i]).action == a by {
                assert(keys@.contains(a));
                let j = choose|j: int| 0 <= j < keys@.len() && keys@[j] == a;
                assert(self.phase_of(keys@[j]) == ActionPhase::Ended);
                let i = choose|i: int| 0 <= i < ended@.len()
                    && (#[trigger] ended@[i]).action == keys@[j];
                assert(ended@[i].action == a);
            }
        }
        let ghost ga = active@;
        let ghost gb = begin@;
        let ghost gp = progress@;
        let ghost ge = ended@;
        let evs = ActionEvents { active, begin, progress, ended };
        proof {
            assert(evs.active@ == ga && evs.begin@ == gb && evs.progress@ == gp
                && evs.ended@ == ge);
        }
        evs
    }
}

/// Union completeness: an action that left a positive snapshot in the
/// previous tick and was not written this tick — pressed then released —
/// still gets exactly one end notification this tick.
pub proof fn lemma_released_action_ends(k: Kurinji, evs: ActionEvents, a: ActionId)
    requires
        k.wf(),
        producer_post(k, evs),
        k.prev_map().contains_key(a),
        k.prev_map()[a] > 0,
        !k.raw_map().contains_key(a),
    ensures
        exists|i: int| 0 <= i < evs.ended@.len() && (#[trigger] evs.ended@[i]).action == a
            && forall|j: int| 0 <= j < evs.ended@.len() && j != i
                ==> (#[trigger] evs.ended@[j]).action != a,
{
    lemma_resolved_bounds(k, a);
    assert(k.resolved_strength_of(a) == 0);
    assert(k.prev_strength_of(a) > 0);
    assert(k.phase_of(a) == ActionPhase::Ended);
    assert(k.in_union(a));
    let i = choose|i: int| 0 <= i < evs.ended@.len() && (#[trigger] evs.ended@[i]).action == a;
    assert forall|j: int| 0 <= j < evs.ended@.len() && j != i
        implies (#[trigger] evs.ended@[j]).action != a by {
        if j < i {
            assert(evs.ended@[j].action != evs.ended@[i].action);
        } else {
            assert(evs.ended@[i].action != evs.ended@[j].action);
        }
    }
    assert(0 <= i < evs.ended@.len() && evs.ended@[i].action == a
        && forall|j: int| 0 <= j < evs.ended@.len() && j != i
            ==> (#[trigger] evs.ended@[j]).action != a);
}

} // verus!
