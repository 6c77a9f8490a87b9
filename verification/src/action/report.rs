//! The outcomes of one routine run, kept one per action in action order,
//! each labelled with its action whatever phase decided it.
use vstd::prelude::*;

use crate::action::execute::{
    append_detail, appended_detail, failure_note, placed_detail, placed_detail_spec, placement_failed_detail,
    tab_detail, Phase1, RoutinePlan,
};
use crate::action::Action;
use crate::layout::{LayoutError, Placement, Region};
use crate::routine::exec_log::ActionOutcome;
use crate::routine::clone_actions;

verus! {

/// Text of an action skipped because its display is not connected.
pub open spec fn skipped_text() -> Seq<char> {
    "skipped — target display not connected"@
}

/// Text of a placed action opened without placement.
pub open spec fn unplaced_text() -> Seq<char> {
    "opened without placement (no permission)"@
}

/// Note on an app whose window could not be placed for lack of permission.
pub open spec fn placement_skipped_text() -> Seq<char> {
    "placement skipped (no permission)"@
}

/// What phase 1 leaves for an action: a display-skipped action succeeds
/// with the skip note; a deferred one is still pending (not successful, no
/// detail); one that was run has the result of its run, `ran`.
pub open spec fn phase1_outcome(step: Phase1, ran: (bool, Seq<char>)) -> (bool, Seq<char>) {
    match step {
        Phase1::SkipMissingDisplay => (true, skipped_text()),
        Phase1::DeferUrl => (false, Seq::empty()),
        Phase1::DeferFile => (false, Seq::empty()),
        Phase1::Run => ran,
        Phase1::RunThenPlace => ran,
    }
}

/// What the no-permission branch makes of an action's outcome `before`:
/// placed URLs and documents are opened without placement (successful when
/// their open worked), placed apps get the note that placement was
/// skipped, the rest is unchanged.
pub open spec fn no_permission_outcome(
    step: Phase1,
    before: (bool, Seq<char>),
    urls_opened: bool,
    file_opened: bool,
) -> (bool, Seq<char>) {
    match step {
        Phase1::DeferUrl => (urls_opened, unplaced_text()),
        Phase1::DeferFile => (file_opened, unplaced_text()),
        Phase1::RunThenPlace => (before.0, appended_detail(before.1, placement_skipped_text())),
        _ => before,
    }
}

/// A run report as values: the actions, and per action whether it
/// succeeded and its detail.
pub struct ReportView {
    pub actions: Seq<Action>,
    pub labels: Seq<Seq<char>>,
    pub success: Seq<bool>,
    pub detail: Seq<Seq<char>>,
}

/// The outcomes of a routine run, one per action in action order; the
/// label of outcome `i` is always the label of action `i`.
pub struct RunReport {
    actions: Vec<Action>,
    outcomes: Vec<ActionOutcome>,
}

impl View for RunReport {
    type V = ReportView;

    closed spec fn view(&self) -> ReportView {
        ReportView {
            actions: self.actions@,
            success: Seq::new(self.outcomes@.len(), |j: int| self.outcomes@[j].success),
            labels: Seq::new(self.outcomes@.len(), |j: int| self.outcomes@[j].label@),
            detail: Seq::new(self.outcomes@.len(), |j: int| self.outcomes@[j].detail@),
        }
    }
}

/// Action index `j` is one of `indices`.
pub open spec fn in_group(indices: Seq<usize>, j: int) -> bool {
    exists|k: int| 0 <= k < indices.len() && indices[k] as int == j
}

/// `r` is `before` with outcome `i` set to `(success, detail)`.
pub open spec fn set_one(before: ReportView, r: ReportView, i: int, success: bool, detail: Seq<char>) -> bool {
    &&& r.actions == before.actions
    &&& r.labels == before.labels
    &&& r.success == before.success.update(i, success)
    &&& r.detail == before.detail.update(i, detail)
}

impl RunReport {
    #[verifier::type_invariant]
    spec fn labelled(self) -> bool {
        &&& self.outcomes@.len() == self.actions@.len()
        &&& forall|j: int| 0 <= j < self.actions@.len() ==> #[trigger] self.outcomes@[j].label@
            == self.actions@[j].label_spec()
    }

    /// Every action pending: not successful yet, no detail.
    pub fn new(actions: &Vec<Action>) -> (r: Self)
        ensures
            r@.actions == actions@,
            r@.success == Seq::new(actions@.len(), |j: int| false),
            r@.detail == Seq::new(actions@.len(), |j: int| Seq::<char>::empty()),
            r@.labels == Seq::new(actions@.len(), |j: int| actions@[j].label_spec()),
    {
        let copy = clone_actions(actions);
        let outcomes = crate::action::execute::initial_outcomes(actions);
        let r = RunReport { actions: copy, outcomes };
        assert(r@.success =~= Seq::new(actions@.len(), |j: int| false));
        assert(r@.detail =~= Seq::new(actions@.len(), |j: int| Seq::<char>::empty()));
        r
    }

    /// How many outcomes the report holds: one per action.
    pub fn len(&self) -> (r: usize)
        ensures
            r == self@.actions.len(),
    {
        proof {
            use_type_invariant(self);
        }
        self.actions.len()
    }

    /// Set outcome `i` (its label stays the action's).
    pub fn set(&mut self, i: usize, success: bool, detail: String)
        requires
            i < old(self)@.actions.len(),
        ensures
            set_one(old(self)@, final(self)@, i as int, success, detail@),
    {
        proof {
            use_type_invariant(&*self);
        }
        let mut taken = RunReport { actions: Vec::new(), outcomes: Vec::new() };
        std::mem::swap(self, &mut taken);
        proof {
            use_type_invariant(&taken);
        }
        let RunReport { actions, outcomes } = taken;
        let mut outs = outcomes;
        let label = outs[i].label.clone();
        outs.set(i, ActionOutcome { label, success, detail });
        *self = RunReport { actions, outcomes: outs };
        proof {
            assert(self@.labels =~= old(self)@.labels);
            assert(self@.success =~= old(self)@.success.update(i as int, success));
            assert(self@.detail =~= old(self)@.detail.update(i as int, detail@));
        }
    }

    /// Note `extra` in outcome `i`'s detail; its success is unchanged.
    pub fn note(&mut self, i: usize, extra: &str)
        requires
            i < old(self)@.actions.len(),
        ensures
            set_one(old(self)@, final(self)@, i as int, old(self)@.success[i as int],
                appended_detail(old(self)@.detail[i as int], extra@)),
    {
        proof {
            use_type_invariant(&*self);
        }
        let mut taken = RunReport { actions: Vec::new(), outcomes: Vec::new() };
        std::mem::swap(self, &mut taken);
        proof {
            use_type_invariant(&taken);
        }
        let RunReport { actions, outcomes } = taken;
        let mut outs = outcomes;
        let mut o = outs[i].clone();
        append_detail(&mut o, extra);
        outs.set(i, o);
        *self = RunReport { actions, outcomes: outs };
        proof {
            assert(self@.labels =~= old(self)@.labels);
            assert(self@.success =~= old(self)@.success.update(i as int, old(self)@.success[i as int]));
            assert(self@.detail =~= old(self)@.detail.update(
                i as int,
                appended_detail(old(self)@.detail[i as int], extra@),
            ));
        }
    }

    /// Action `i` was skipped because its display is not connected: a
    /// deliberate skip, so it counts as a success.
    pub fn skip_missing_display(&mut self, i: usize)
        requires
            i < old(self)@.actions.len(),
        ensures
            set_one(old(self)@, final(self)@, i as int, true, skipped_text()),
    {
        self.set(i, true, "skipped — target display not connected".to_owned());
    }

    /// Record phase 1 for every action: display-skipped actions succeed
    /// with the skip note, deferred ones stay pending, and each action that
    /// was run gets the result of its run, `ran[j]` (success and detail).
    pub fn record_phase1(&mut self, plan: &RoutinePlan, ran: &Vec<(bool, String)>)
        requires
            plan.steps@.len() == old(self)@.actions.len(),
            ran@.len() == old(self)@.actions.len(),
        ensures
            final(self)@.actions == old(self)@.actions,
            final(self)@.labels == old(self)@.labels,
            final(self)@.success.len() == old(self)@.success.len(),
            final(self)@.detail.len() == old(self)@.detail.len(),
            forall|j: int|
                0 <= j < old(self)@.actions.len() ==> (final(self)@.success[j], final(self)@.detail[j])
                    == phase1_outcome(#[trigger] plan.steps@[j], (ran@[j].0, ran@[j].1@)),
    {
        proof {
            use_type_invariant(&*self);
        }
        let n = plan.steps.len();
        let mut k: usize = 0;
        while k < n
            invariant
                n == plan.steps@.len(),
                n == ran@.len(),
                n == old(self)@.actions.len(),
                k <= n,
                self@.actions == old(self)@.actions,
                self@.labels == old(self)@.labels,
                self@.success.len() == n,
                self@.detail.len() == n,
                forall|j: int|
                    0 <= j < k ==> (self@.success[j], self@.detail[j]) == phase1_outcome(
                        #[trigger] plan.steps@[j],
                        (ran@[j].0, ran@[j].1@),
                    ),
            decreases n - k,
        {
            proof {
                use_type_invariant(&*self);
            }
            match plan.steps[k] {
                Phase1::SkipMissingDisplay => {
                    self.set(k, true, "skipped — target display not connected".to_owned());
                },
                Phase1::DeferUrl | Phase1::DeferFile => {
                    self.set(k, false, String::new());
                },
                _ => {
                    let d = ran[k].1.clone();
                    self.set(k, ran[k].0, d);
                },
            }
            k += 1;
        }
    }

    /// Without the Accessibility permission nothing is placed: every placed
    /// URL (`DeferUrl`) is reported as opened without placement, successful
    /// when the one unplaced open of all of them worked; every placed
    /// document (`DeferFile`) likewise, successful when its own unplaced
    /// open worked (`files_opened[j]`); every app waiting for placement
    /// (`RunThenPlace`) gets the note that placement was skipped; all other
    /// outcomes are unchanged.
    pub fn no_permission(&mut self, plan: &RoutinePlan, urls_opened: bool, files_opened: &Vec<bool>)
        requires
            plan.steps@.len() == old(self)@.actions.len(),
            files_opened@.len() == old(self)@.actions.len(),
        ensures
            final(self)@.actions == old(self)@.actions,
            final(self)@.labels == old(self)@.labels,
            final(self)@.success.len() == old(self)@.success.len(),
            final(self)@.detail.len() == old(self)@.detail.len(),
            forall|j: int|
                0 <= j < old(self)@.actions.len() ==> (final(self)@.success[j], final(self)@.detail[j])
                    == no_permission_outcome(
                    #[trigger] plan.steps@[j],
                    (old(self)@.success[j], old(self)@.detail[j]),
                    urls_opened,
                    files_opened@[j],
                ),
    {
        proof {
            use_type_invariant(&*self);
        }
        let n = plan.steps.len();
        let ghost start = self@;
        let mut k: usize = 0;
        while k < n
            invariant
                n == plan.steps@.len(),
                n == start.actions.len(),
                files_opened@.len() == n,
                k <= n,
                self@.actions == start.actions,
                self@.labels == start.labels,
                self@.success.len() == n,
                self@.detail.len() == n,
                forall|j: int|
                    k <= j < n ==> self@.success[j] == start.success[j] && self@.detail[j]
                        == start.detail[j],
                forall|j: int|
                    0 <= j < k ==> match #[trigger] plan.steps@[j] {
                        Phase1::DeferUrl => self@.success[j] == urls_opened && self@.detail[j]
                            == unplaced_text(),
                        Phase1::DeferFile => self@.success[j] == files_opened@[j]
                            && self@.detail[j] == unplaced_text(),
                        Phase1::RunThenPlace => self@.success[j] == start.success[j]
                            && self@.detail[j] == appended_detail(
                            start.detail[j],
                            placement_skipped_text(),
                        ),
                        _ => self@.success[j] == start.success[j] && self@.detail[j]
                            == start.detail[j],
                    },
            decreases n - k,
        {
            proof {
                use_type_invariant(&*self);
            }
            match plan.steps[k] {
                Phase1::DeferUrl => {
                    self.set(k, urls_opened, "opened without placement (no permission)".to_owned());
                },
                Phase1::DeferFile => {
                    self.set(
                        k,
                        files_opened[k],
                        "opened without placement (no permission)".to_owned(),
                    );
                },
                Phase1::RunThenPlace => {
                    self.note(k, "placement skipped (no permission)");
                },
                _ => {},
            }
            k += 1;
        }
    }

    /// The URLs of a target group opened as tabs of one new window placed
    /// at `region`: each of their outcomes succeeds with the tab detail.
    pub fn url_group_placed(&mut self, indices: &Vec<usize>, region: Region, placement: Placement)
        requires
            forall|k: int| 0 <= k < indices@.len() ==> (#[trigger] indices@[k]) < old(self)@.actions.len(),
        ensures
            final(self)@.actions == old(self)@.actions,
            final(self)@.labels == old(self)@.labels,
            final(self)@.success.len() == old(self)@.success.len(),
            final(self)@.detail.len() == old(self)@.detail.len(),
            forall|j: int|
                0 <= j < old(self)@.actions.len() ==> if in_group(indices@, j) {
                    final(self)@.success[j] && final(self)@.detail[j] == "tab in new window "@
                        + placed_detail_spec(region, placement)
                } else {
                    final(self)@.success[j] == old(self)@.success[j] && final(self)@.detail[j]
                        == old(self)@.detail[j]
                },
    {
        self.set_group(indices, true, tab_detail(region, placement));
    }

    /// The group's window could not be opened or placed: each of its
    /// outcomes fails with the error's message.
    pub fn url_group_failed(&mut self, indices: &Vec<usize>, message: &str)
        requires
            forall|k: int| 0 <= k < indices@.len() ==> (#[trigger] indices@[k]) < old(self)@.actions.len(),
        ensures
            final(self)@.actions == old(self)@.actions,
            final(self)@.labels == old(self)@.labels,
            final(self)@.success.len() == old(self)@.success.len(),
            final(self)@.detail.len() == old(self)@.detail.len(),
            forall|j: int|
                0 <= j < old(self)@.actions.len() ==> if in_group(indices@, j) {
                    !final(self)@.success[j] && final(self)@.detail[j] == message@
                } else {
                    final(self)@.success[j] == old(self)@.success[j] && final(self)@.detail[j]
                        == old(self)@.detail[j]
                },
    {
        self.set_group(indices, false, message.to_owned());
    }

    fn set_group(&mut self, indices: &Vec<usize>, success: bool, detail: String)
        requires
            forall|k: int| 0 <= k < indices@.len() ==> (#[trigger] indices@[k]) < old(self)@.actions.len(),
        ensures
            final(self)@.actions == old(self)@.actions,
            final(self)@.labels == old(self)@.labels,
            final(self)@.success.len() == old(self)@.success.len(),
            final(self)@.detail.len() == old(self)@.detail.len(),
            forall|j: int|
                0 <= j < old(self)@.actions.len() ==> if in_group(indices@, j) {
                    final(self)@.success[j] == success && final(self)@.detail[j] == detail@
                } else {
                    final(self)@.success[j] == old(self)@.success[j] && final(self)@.detail[j]
                        == old(self)@.detail[j]
                },
    {
        proof {
            use_type_invariant(&*self);
        }
        let ghost start = self@;
        let n = indices.len();
        let mut k: usize = 0;
        while k < n
            invariant
                n == indices@.len(),
                k <= n,
                forall|q: int| 0 <= q < indices@.len() ==> (#[trigger] indices@[q]) < start.actions.len(),
                start.success.len() == start.actions.len(),
                start.detail.len() == start.actions.len(),
                self@.actions == start.actions,
                self@.labels == start.labels,
                self@.success.len() == start.actions.len(),
                self@.detail.len() == start.actions.len(),
                forall|j: int|
                    0 <= j < start.actions.len() ==> if #[trigger] in_group(indices@.take(k as int), j) {
                        self@.success[j] == success && self@.detail[j] == detail@
                    } else {
                        self@.success[j] == start.success[j] && self@.detail[j] == start.detail[j]
                    },
            decreases n - k,
        {
            let i = indices[k];
            let d = detail.clone();
            assert(d@ == detail@);
            let ghost before_set = self@;
            self.set(i, success, d);
            proof {
                let ghost prev = indices@.take(k as int);
                let ghost next = indices@.take(k + 1);
                assert forall|j: int| 0 <= j < start.actions.len() implies (if #[trigger] in_group(next, j) {
                    self@.success[j] == success && self@.detail[j] == detail@
                } else {
                    self@.success[j] == start.success[j] && self@.detail[j] == start.detail[j]
                }) by {
                    assert(in_group(prev, j) || !in_group(prev, j));
                    if j != i {
                        assert(self@.success[j] == before_set.success[j]);
                        assert(self@.detail[j] == before_set.detail[j]);
                    }
                    if in_group(next, j) && j != i {
                        let w = choose|w: int| 0 <= w < k + 1 && (#[trigger] next[w]) as int == j;
                        assert(w < k);
                        assert(prev[w] == next[w]);
                        assert(in_group(prev, j));
                    }
                    if in_group(prev, j) {
                        let w = choose|w: int| 0 <= w < k && (#[trigger] prev[w]) as int == j;
                        assert(next[w] == prev[w]);
                        assert(in_group(next, j));
                    }
                    if j == i {
                        assert(next[k as int] == i);
                        assert(in_group(next, j));
                    }
                }
            }
            k += 1;
        }
        assert(indices@.take(n as int) =~= indices@);
        assert forall|j: int| 0 <= j < start.actions.len() implies (if #[trigger] in_group(indices@, j) {
            self@.success[j] == success && self@.detail[j] == detail@
        } else {
            self@.success[j] == start.success[j] && self@.detail[j] == start.detail[j]
        }) by {
            assert(in_group(indices@, j) == in_group(indices@.take(n as int), j));
        }
    }

    /// The app of action `i` ran and its window was placed: the placement
    /// is noted; success is unchanged.
    pub fn app_placed(&mut self, i: usize, region: Region, placement: Placement)
        requires
            i < old(self)@.actions.len(),
        ensures
            set_one(old(self)@, final(self)@, i as int, old(self)@.success[i as int],
                appended_detail(old(self)@.detail[i as int], placed_detail_spec(region, placement))),
    {
        let d = placed_detail(region, placement);
        self.note(i, d.as_str());
    }

    /// The app of action `i` opened but its window could not be placed: the
    /// failure is noted, and the action keeps its success — a failed snap
    /// never fails the action.
    pub fn app_placement_failed(&mut self, i: usize, err: &LayoutError)
        requires
            i < old(self)@.actions.len(),
        ensures
            final(self)@.actions == old(self)@.actions,
            final(self)@.labels == old(self)@.labels,
            final(self)@.success == old(self)@.success,
            final(self)@.detail.len() == old(self)@.detail.len(),
            forall|j: int| 0 <= j < old(self)@.actions.len() && j != i ==> final(self)@.detail[j]
                == old(self)@.detail[j],
            exists|cause: Seq<char>|
                final(self)@.detail[i as int] == appended_detail(
                    old(self)@.detail[i as int],
                    #[trigger] failure_note(*err, cause),
                ),
    {
        proof {
            use_type_invariant(&*self);
        }
        let d = placement_failed_detail(err);
        let ghost cause = choose|cause: Seq<char>| d@ == failure_note(*err, cause);
        self.note(i, d.as_str());
        assert(final(self)@.detail[i as int] == appended_detail(old(self)@.detail[i as int], failure_note(*err, cause)));
        assert(final(self)@.success =~= old(self)@.success);
    }

    /// The document of action `i` opened and its window was placed.
    pub fn file_placed(&mut self, i: usize, region: Region, placement: Placement)
        requires
            i < old(self)@.actions.len(),
        ensures
            set_one(old(self)@, final(self)@, i as int, true, placed_detail_spec(region, placement)),
    {
        self.set(i, true, placed_detail(region, placement));
    }

    /// The outcomes, one per action in action order, each labelled with its
    /// action.
    pub fn finish(self) -> (r: Vec<ActionOutcome>)
        ensures
            r@.len() == self@.actions.len(),
            self@.labels.len() == self@.actions.len(),
            forall|j: int| 0 <= j < r@.len() ==> #[trigger] self@.labels[j] == self@.actions[j].label_spec(),
            forall|j: int|
                0 <= j < r@.len() ==> (#[trigger] r@[j]).label@ == self@.actions[j].label_spec()
                    && r@[j].success == self@.success[j] && r@[j].detail@ == self@.detail[j],
    {
        proof {
            use_type_invariant(&self);
        }
        self.outcomes
    }
}

/// A whole run without the Accessibility permission answers each action
/// as follows: a display-skipped action succeeds with the skip note; an
/// action that was run keeps the result of its run; a placed app's result
/// additionally notes that placement was skipped; a placed URL or document
/// is reported as opened without placement, successful when its unplaced
/// open worked (all placed URLs share one open). No window is placed.
pub proof fn run_without_permission(step: Phase1, ran: (bool, Seq<char>), urls_opened: bool, file_opened: bool)
    ensures
        no_permission_outcome(step, phase1_outcome(step, ran), urls_opened, file_opened) == match step {
            Phase1::SkipMissingDisplay => (true, skipped_text()),
            Phase1::Run => ran,
            Phase1::RunThenPlace => (ran.0, appended_detail(ran.1, placement_skipped_text())),
            Phase1::DeferUrl => (urls_opened, unplaced_text()),
            Phase1::DeferFile => (file_opened, unplaced_text()),
        },
{
}

/// A failed snap never fails the action, over a whole run: an app run in
/// phase 1 with result `ran` whose window then could not be placed keeps
/// `ran`'s success, and its detail is `ran`'s detail followed by the
/// placement failure (`failure_note`).
pub proof fn failed_snap_keeps_success(
    after_phase1: ReportView,
    after_failure: ReportView,
    i: int,
    ran: (bool, Seq<char>),
    err: LayoutError,
)
    requires
        0 <= i < after_phase1.success.len(),
        i < after_phase1.detail.len(),
        (after_phase1.success[i], after_phase1.detail[i]) == phase1_outcome(Phase1::RunThenPlace, ran),
        after_failure.success == after_phase1.success,
        exists|cause: Seq<char>|
            after_failure.detail[i] == appended_detail(after_phase1.detail[i], #[trigger] failure_note(err, cause)),
    ensures
        after_failure.success[i] == ran.0,
        exists|cause: Seq<char>| after_failure.detail[i] == appended_detail(ran.1, #[trigger] failure_note(err, cause)),
{
}

} // verus!
