//! Routine execution decisions. A routine runs in two phases: phase 1
//! launches every action that can open at once, phase 2 places windows.
//! URL and document actions with a region wait for phase 2 because they
//! need their own browser window or viewer. Actions bound to a display that
//! is not connected are skipped. These functions make those decisions and
//! word the per-action outcomes; the caller performs the launches and
//! placements.
use vstd::prelude::*;

use crate::action::{clone_opt_string, opt_string_view, Action};
use crate::layout::{LayoutError, Placement, Region};
use crate::routine::exec_log::ActionOutcome;
use crate::text::{opt_str_eq, str_eq};

verus! {

/// What phase 1 does with an action.
#[derive(Clone, Copy, Debug, PartialEq, Eq, Structural)]
pub enum Phase1 {
    /// Its region's display is not connected: the whole action is skipped.
    SkipMissingDisplay,
    /// A URL with a region: opened in its own window in phase 2.
    DeferUrl,
    /// A document with a region: opened and placed in phase 2.
    DeferFile,
    /// Run now; nothing to place.
    Run,
    /// Run now, then place its window in phase 2.
    RunThenPlace,
}

/// Phase 1's decision for an action, given whether its display spec
/// resolves to a display that is not connected.
pub open spec fn classify_spec(a: Action, display_missing: bool) -> Phase1 {
    if a.region_of() is Some && display_missing {
        Phase1::SkipMissingDisplay
    } else {
        match a {
            Action::OpenUrl { region: Some(_), .. } => Phase1::DeferUrl,
            Action::OpenFile { region: Some(_), .. } => Phase1::DeferFile,
            _ => if a.region_of() is Some {
                Phase1::RunThenPlace
            } else {
                Phase1::Run
            },
        }
    }
}

/// Phase 1's decision for one action.
pub fn classify(action: &Action, display_missing: bool) -> (r: Phase1)
    ensures
        r == classify_spec(*action, display_missing),
{
    let placed = action.region().is_some();
    if placed && display_missing {
        return Phase1::SkipMissingDisplay;
    }
    match action {
        Action::OpenUrl { region: Some(_), .. } => Phase1::DeferUrl,
        Action::OpenFile { region: Some(_), .. } => Phase1::DeferFile,
        _ => if placed {
            Phase1::RunThenPlace
        } else {
            Phase1::Run
        },
    }
}

/// Phase 1 by kind: an action of any kind with a region whose display is
/// not connected is skipped whole; otherwise a placed URL waits for its own
/// window and a placed document for its viewer in phase 2, a placed app
/// runs and is placed afterwards, and an action without a region runs,
/// whatever its display.
pub proof fn phase1_skips_every_kind_on_missing_display(a: Action, display_missing: bool)
    ensures
        a matches Action::OpenApp { region: Some(_), .. } ==> classify_spec(a, display_missing) == if display_missing {
            Phase1::SkipMissingDisplay
        } else {
            Phase1::RunThenPlace
        },
        a matches Action::OpenUrl { region: Some(_), .. } ==> classify_spec(a, display_missing) == if display_missing {
            Phase1::SkipMissingDisplay
        } else {
            Phase1::DeferUrl
        },
        a matches Action::OpenFile { region: Some(_), .. } ==> classify_spec(a, display_missing) == if display_missing {
            Phase1::SkipMissingDisplay
        } else {
            Phase1::DeferFile
        },
        a.region_of() is None ==> classify_spec(a, display_missing) == Phase1::Run,
        classify_spec(a, display_missing) == Phase1::SkipMissingDisplay <==> (a.region_of() is Some
            && display_missing),
{
}

/// The indices of `steps` holding `kind`, in increasing order.
pub open spec fn indices_with(steps: Seq<Phase1>, kind: Phase1) -> Seq<usize>
    decreases steps.len(),
{
    if steps.len() == 0 {
        Seq::empty()
    } else {
        let prev = indices_with(steps.drop_last(), kind);
        if steps.last() == kind {
            prev.push((steps.len() - 1) as usize)
        } else {
            prev
        }
    }
}

/// The actions left for phase 2 of one kind come in action order, each
/// once: the list is strictly increasing and holds exactly the positions
/// whose decision is `kind`. So the placed URLs reach their one unplaced
/// open (`urls_of`) in action order.
pub proof fn deferred_in_action_order(steps: Seq<Phase1>, kind: Phase1)
    requires
        steps.len() <= usize::MAX,
    ensures
        ({
            let ix = indices_with(steps, kind);
            &&& forall|a: int, b: int| 0 <= a < b < ix.len() ==> (#[trigger] ix[a]) < (#[trigger] ix[b])
            &&& forall|a: int| 0 <= a < ix.len() ==> (#[trigger] ix[a]) < steps.len() && steps[ix[a] as int] == kind
            &&& forall|j: int| 0 <= j < steps.len() && #[trigger] steps[j] == kind ==> exists|a: int|
                0 <= a < ix.len() && #[trigger] ix[a] == j
        }),
    decreases steps.len(),
{
    if steps.len() > 0 {
        let pre = steps.drop_last();
        deferred_in_action_order(pre, kind);
        let prev = indices_with(pre, kind);
        let ix = indices_with(steps, kind);
        let last = steps.len() - 1;
        assert forall|a: int| 0 <= a < prev.len() implies (#[trigger] prev[a]) < last && steps[prev[a] as int] == kind by {
            assert(pre[prev[a] as int] == steps[prev[a] as int]);
        }
        assert forall|j: int| 0 <= j < steps.len() && #[trigger] steps[j] == kind implies exists|a: int|
            0 <= a < ix.len() && #[trigger] ix[a] == j by {
            if j < last {
                assert(pre[j] == steps[j]);
                let a = choose|a: int| 0 <= a < prev.len() && #[trigger] prev[a] == j;
                assert(ix[a] == prev[a]);
            } else {
                assert(ix[ix.len() - 1] == j);
            }
        }
    }
}

/// The phase-1 plan of a routine: one decision per action, and the
/// actions left for phase 2 by kind.
pub struct RoutinePlan {
    pub steps: Vec<Phase1>,
    pub deferred_urls: Vec<usize>,
    pub deferred_files: Vec<usize>,
    pub app_placements: Vec<usize>,
}

impl RoutinePlan {
    /// Phase 2 has windows to place.
    pub open spec fn wants_layout_spec(self) -> bool {
        self.deferred_urls@.len() > 0 || self.deferred_files@.len() > 0 || self.app_placements@.len()
            > 0
    }

    pub fn wants_layout(&self) -> (r: bool)
        ensures
            r == self.wants_layout_spec(),
    {
        !self.deferred_urls.is_empty() || !self.deferred_files.is_empty()
            || !self.app_placements.is_empty()
    }
}

/// Plan phase 1 of a routine. `display_missing[i]` tells whether action
/// `i`'s display spec resolves to a display that is not connected.
pub fn plan_routine(actions: &Vec<Action>, display_missing: &Vec<bool>) -> (r: RoutinePlan)
    requires
        display_missing@.len() == actions@.len(),
    ensures
        r.steps@.len() == actions@.len(),
        forall|i: int|
            0 <= i < actions@.len() ==> #[trigger] r.steps@[i] == classify_spec(
                actions@[i],
                display_missing@[i],
            ),
        r.deferred_urls@ == indices_with(r.steps@, Phase1::DeferUrl),
        r.deferred_files@ == indices_with(r.steps@, Phase1::DeferFile),
        r.app_placements@ == indices_with(r.steps@, Phase1::RunThenPlace),
{
    let n = actions.len();
    let mut plan = RoutinePlan {
        steps: Vec::new(),
        deferred_urls: Vec::new(),
        deferred_files: Vec::new(),
        app_placements: Vec::new(),
    };
    let mut k: usize = 0;
    while k < n
        invariant
            n == actions@.len(),
            n == display_missing@.len(),
            k <= n,
            plan.steps@.len() == k,
            forall|i: int|
                0 <= i < k ==> #[trigger] plan.steps@[i] == classify_spec(
                    actions@[i],
                    display_missing@[i],
                ),
            plan.deferred_urls@ == indices_with(plan.steps@, Phase1::DeferUrl),
            plan.deferred_files@ == indices_with(plan.steps@, Phase1::DeferFile),
            plan.app_placements@ == indices_with(plan.steps@, Phase1::RunThenPlace),
        decreases n - k,
    {
        let step = classify(&actions[k], display_missing[k]);
        let ghost before = plan.steps@;
        plan.steps.push(step);
        assert(plan.steps@.drop_last() =~= before);
        match step {
            Phase1::DeferUrl => plan.deferred_urls.push(k),
            Phase1::DeferFile => plan.deferred_files.push(k),
            Phase1::RunThenPlace => plan.app_placements.push(k),
            _ => {},
        }
        k += 1;
    }
    plan
}

/// The outcome an action starts with: not yet successful, no detail.
pub fn pending_outcome(action: &Action) -> (r: ActionOutcome)
    ensures
        r.label@ == action.label_spec(),
        !r.success,
        r.detail@ == Seq::<char>::empty(),
{
    ActionOutcome { label: action.label(), success: false, detail: String::new() }
}

/// One pending outcome per action, in action order.
pub fn initial_outcomes(actions: &Vec<Action>) -> (r: Vec<ActionOutcome>)
    ensures
        r@.len() == actions@.len(),
        forall|i: int|
            0 <= i < actions@.len() ==> (#[trigger] r@[i]).label@ == actions@[i].label_spec()
                && !r@[i].success && r@[i].detail@ == Seq::<char>::empty(),
{
    let n = actions.len();
    let mut out: Vec<ActionOutcome> = Vec::new();
    let mut k: usize = 0;
    while k < n
        invariant
            n == actions@.len(),
            k <= n,
            out@.len() == k,
            forall|i: int|
                0 <= i < k ==> (#[trigger] out@[i]).label@ == actions@[i].label_spec()
                    && !out@[i].success && out@[i].detail@ == Seq::<char>::empty(),
        decreases n - k,
    {
        out.push(pending_outcome(&actions[k]));
        k += 1;
    }
    out
}

/// The outcome of an action skipped because its display is not connected:
/// a deliberate skip, so it counts as a success.
pub fn skipped_outcome(action: &Action) -> (r: ActionOutcome)
    ensures
        r.label@ == action.label_spec(),
        r.success,
        r.detail@ == "skipped — target display not connected"@,
{
    ActionOutcome {
        label: action.label(),
        success: true,
        detail: "skipped — target display not connected".to_owned(),
    }
}

/// The outcome of an action opened without placement because the
/// Accessibility permission is missing; `opened` tells whether opening
/// worked.
pub fn unplaced_outcome(action: &Action, opened: bool) -> (r: ActionOutcome)
    ensures
        r.label@ == action.label_spec(),
        r.success == opened,
        r.detail@ == "opened without placement (no permission)"@,
{
    ActionOutcome {
        label: action.label(),
        success: opened,
        detail: "opened without placement (no permission)".to_owned(),
    }
}

/// The detail after noting `extra`: `extra` alone when there was no detail
/// yet, otherwise appended after `"; "`.
pub open spec fn appended_detail(detail: Seq<char>, extra: Seq<char>) -> Seq<char> {
    if detail.len() == 0 {
        extra
    } else {
        detail + "; "@ + extra
    }
}

/// Note `extra` in an outcome's detail; label and success are unchanged.
pub fn append_detail(outcome: &mut ActionOutcome, extra: &str)
    ensures
        final(outcome).label == old(outcome).label,
        final(outcome).success == old(outcome).success,
        final(outcome).detail@ == appended_detail(old(outcome).detail@, extra@),
{
    if outcome.detail.as_str().is_empty() {
        outcome.detail = extra.to_owned();
    } else {
        let mut d = outcome.detail.clone();
        d.append("; ");
        d.append(extra);
        outcome.detail = d;
    }
}

/// `→ Region (Placement)`: where a window went and how much of the frame
/// it took.
pub open spec fn placed_detail_spec(region: Region, placement: Placement) -> Seq<char> {
    "→ "@ + region.name_spec() + " ("@ + placement.name_spec() + ")"@
}

pub fn placed_detail(region: Region, placement: Placement) -> (r: String)
    ensures
        r@ == placed_detail_spec(region, placement),
{
    let mut s = String::new();
    s.append("→ ");
    s.append(region.name());
    s.append(" (");
    s.append(placement.name());
    s.append(")");
    s
}

/// The detail of URLs opened as tabs of one new placed browser window.
pub fn tab_detail(region: Region, placement: Placement) -> (r: String)
    ensures
        r@ == "tab in new window "@ + placed_detail_spec(region, placement),
{
    let mut s = String::new();
    s.append("tab in new window ");
    s.append(placed_detail(region, placement).as_str());
    s
}

/// The note for a window that could not be placed because of `err`:
/// `placement failed: ` and the error's message, whose cause (for a failed
/// spawn, the operating system's description) is `cause`.
pub open spec fn failure_note(err: LayoutError, cause: Seq<char>) -> Seq<char> {
    match err.message_spec() {
        Some(m) => "placement failed: "@ + m,
        None => match err {
            LayoutError::Spawn { command, .. } => "placement failed: "@ + ("failed to run "@
                + command@ + ": "@) + cause,
            _ => "placement failed: "@,
        },
    }
}

/// The detail noted when an opened app's window could not be placed.
pub fn placement_failed_detail(err: &LayoutError) -> (r: String)
    ensures
        err.message_spec() matches Some(m) ==> r@ == "placement failed: "@ + m,
        exists|cause: Seq<char>| r@ == failure_note(*err, cause),
{
    let mut s = String::new();
    s.append("placement failed: ");
    let ghost head = s@;
    let m = err.message();
    s.append(m.as_str());
    proof {
        if err.message_spec() is None {
            let p = match *err {
                LayoutError::Spawn { command, .. } => "failed to run "@ + command@ + ": "@,
                _ => Seq::empty(),
            };
            assert(p.is_prefix_of(m@));
            let cause = m@.subrange(p.len() as int, m@.len() as int);
            assert(m@ =~= p + cause);
            assert(s@ =~= head + (p + cause));
            assert(s@ == failure_note(*err, cause));
        } else {
            assert(s@ == failure_note(*err, Seq::empty()));
        }
    }
    s
}

/// The URLs of the URL actions among `indices`, in that order.
pub open spec fn urls_spec(actions: Seq<Action>, indices: Seq<usize>) -> Seq<Seq<char>>
    decreases indices.len(),
{
    if indices.len() == 0 {
        Seq::empty()
    } else {
        let prev = urls_spec(actions, indices.drop_last());
        match actions[indices.last() as int] {
            Action::OpenUrl { url, .. } => prev.push(url@),
            _ => prev,
        }
    }
}

/// The URLs of the URL actions among `indices`.
pub fn urls_of(actions: &Vec<Action>, indices: &Vec<usize>) -> (r: Vec<String>)
    requires
        forall|i: int| 0 <= i < indices@.len() ==> (#[trigger] indices@[i]) < actions@.len(),
    ensures
        r@.map_values(|s: String| s@) == urls_spec(actions@, indices@),
{
    let n = indices.len();
    let mut out: Vec<String> = Vec::new();
    let mut k: usize = 0;
    while k < n
        invariant
            n == indices@.len(),
            k <= n,
            forall|i: int| 0 <= i < indices@.len() ==> (#[trigger] indices@[i]) < actions@.len(),
            out@.map_values(|s: String| s@) == urls_spec(actions@, indices@.take(k as int)),
        decreases n - k,
    {
        proof {
            assert(indices@.take(k + 1).drop_last() =~= indices@.take(k as int));
            assert(indices@.take(k + 1).last() == indices@[k as int]);
        }
        let idx = indices[k];
        match &actions[idx] {
            Action::OpenUrl { url, .. } => {
                let ghost before = out@;
                out.push(url.clone());
                assert(out@.map_values(|s: String| s@) =~= before.map_values(|s: String| s@).push(
                    url@,
                ));
            },
            _ => {},
        }
        k += 1;
    }
    assert(indices@.take(n as int) =~= indices@);
    out
}

/// A placement target: a display spec (`None` = main) and a region.
pub type PlacementTarget = (Option<String>, Region);

/// A group of actions sharing a target, as values.
pub open spec fn group_view(g: (PlacementTarget, Vec<usize>)) -> (Option<Seq<char>>, Region, Seq<usize>) {
    (opt_string_view(g.0.0), g.0.1, g.1@)
}

/// `k` is the group with target `(d, r)`.
pub open spec fn first_group(
    gs: Seq<(Option<Seq<char>>, Region, Seq<usize>)>,
    d: Option<Seq<char>>,
    r: Region,
    k: int,
) -> bool {
    &&& 0 <= k < gs.len()
    &&& gs[k].0 == d && gs[k].1 == r
    &&& forall|j: int| 0 <= j < k ==> !((#[trigger] gs[j]).0 == d && gs[j].1 == r)
}

/// Action indices grouped by their (display, region) target, groups in the
/// order their targets first appear and indices in the given order;
/// actions without a region are left out.
pub open spec fn groups_spec(actions: Seq<Action>, indices: Seq<usize>) -> Seq<
    (Option<Seq<char>>, Region, Seq<usize>),
>
    decreases indices.len(),
{
    if indices.len() == 0 {
        Seq::empty()
    } else {
        let prev = groups_spec(actions, indices.drop_last());
        let idx = indices.last();
        let a = actions[idx as int];
        match a.region_of() {
            None => prev,
            Some(r) => {
                let d = a.display_of();
                if exists|k: int| first_group(prev, d, r, k) {
                    let k = choose|k: int| first_group(prev, d, r, k);
                    prev.update(k, (d, r, prev[k].2.push(idx)))
                } else {
                    prev.push((d, r, seq![idx]))
                }
            },
        }
    }
}

/// Action `a` has a region and targets display `d`, region `r`.
pub open spec fn targets(a: Action, d: Option<Seq<char>>, r: Region) -> bool {
    a.region_of() == Some(r) && a.display_of() == d
}

/// The indices among `indices` whose action targets `(d, r)`, in order.
pub open spec fn members(actions: Seq<Action>, indices: Seq<usize>, d: Option<Seq<char>>, r: Region) -> Seq<usize>
    decreases indices.len(),
{
    if indices.len() == 0 {
        Seq::empty()
    } else {
        let prev = members(actions, indices.drop_last(), d, r);
        if targets(actions[indices.last() as int], d, r) {
            prev.push(indices.last())
        } else {
            prev
        }
    }
}

/// The URL groups partition the placed URLs by target: no two groups share
/// a target, each group is exactly the indices (in order) whose action
/// targets its display and region, and a target with no group has no such
/// index — so an index without a region is in no group.
pub proof fn groups_partition_by_target(actions: Seq<Action>, indices: Seq<usize>)
    requires
        forall|i: int| 0 <= i < indices.len() ==> (#[trigger] indices[i]) < actions.len(),
    ensures
        ({
            let gs = groups_spec(actions, indices);
            &&& forall|k: int, m: int|
                0 <= k < gs.len() && 0 <= m < gs.len() && k != m ==> !(#[trigger] gs[k].0 == #[trigger] gs[m].0
                    && gs[k].1 == gs[m].1)
            &&& forall|k: int| 0 <= k < gs.len() ==> (#[trigger] gs[k]).2 == members(actions, indices, gs[k].0, gs[k].1)
            &&& forall|d: Option<Seq<char>>, r: Region|
                (forall|k: int| 0 <= k < gs.len() ==> !(#[trigger] gs[k].0 == d && gs[k].1 == r)) ==> #[trigger] members(
                    actions,
                    indices,
                    d,
                    r,
                ).len() == 0
        }),
    decreases indices.len(),
{
    if indices.len() > 0 {
        let pre = indices.drop_last();
        assert forall|i: int| 0 <= i < pre.len() implies (#[trigger] pre[i]) < actions.len() by {
            assert(pre[i] == indices[i]);
        }
        groups_partition_by_target(actions, pre);
        let prev = groups_spec(actions, pre);
        let gs = groups_spec(actions, indices);
        let idx = indices.last();
        let a = actions[idx as int];
        match a.region_of() {
            None => {
                assert(gs == prev);
                assert forall|k: int| 0 <= k < gs.len() implies (#[trigger] gs[k]).2 == members(
                    actions,
                    indices,
                    gs[k].0,
                    gs[k].1,
                ) by {
                    assert(!targets(a, gs[k].0, gs[k].1));
                }
                assert forall|d: Option<Seq<char>>, r: Region|
                    (forall|k: int| 0 <= k < gs.len() ==> !(#[trigger] gs[k].0 == d && gs[k].1 == r)) implies
                    #[trigger] members(actions, indices, d, r).len() == 0 by {
                    assert(!targets(a, d, r));
                    assert(members(actions, indices, d, r) == members(actions, pre, d, r));
                }
            },
            Some(r0) => {
                let d0 = a.display_of();
                assert(targets(a, d0, r0));
                if exists|k: int| first_group(prev, d0, r0, k) {
                    let c = choose|k: int| first_group(prev, d0, r0, k);
                    assert(gs == prev.update(c, (d0, r0, prev[c].2.push(idx))));
                    assert forall|k: int| 0 <= k < gs.len() implies (#[trigger] gs[k]).2 == members(
                        actions,
                        indices,
                        gs[k].0,
                        gs[k].1,
                    ) by {
                        if k != c {
                            assert(gs[k] == prev[k]);
                            assert(!(prev[k].0 == prev[c].0 && prev[k].1 == prev[c].1));
                            assert(!targets(a, gs[k].0, gs[k].1));
                        }
                    }
                    assert forall|k: int, m: int|
                        0 <= k < gs.len() && 0 <= m < gs.len() && k != m implies !(#[trigger] gs[k].0
                        == #[trigger] gs[m].0 && gs[k].1 == gs[m].1) by {
                        assert(!(prev[k].0 == prev[m].0 && prev[k].1 == prev[m].1));
                    }
                    assert forall|d: Option<Seq<char>>, r: Region|
                        (forall|k: int| 0 <= k < gs.len() ==> !(#[trigger] gs[k].0 == d && gs[k].1 == r)) implies
                        #[trigger] members(actions, indices, d, r).len() == 0 by {
                        assert(!(gs[c].0 == d && gs[c].1 == r));
                        assert(!targets(a, d, r));
                        assert forall|k: int| 0 <= k < prev.len() implies !(#[trigger] prev[k].0 == d && prev[k].1 == r) by {
                            if k != c {
                                assert(gs[k] == prev[k]);
                            }
                        }
                        assert(members(actions, indices, d, r) == members(actions, pre, d, r));
                    }
                } else {
                    assert(gs == prev.push((d0, r0, seq![idx])));
                    assert forall|k: int| 0 <= k < prev.len() implies !(#[trigger] prev[k].0 == d0 && prev[k].1 == r0) by {
                        if prev[k].0 == d0 && prev[k].1 == r0 {
                            let w = choose|w: int| 0 <= w <= k && prev[w].0 == d0 && prev[w].1 == r0 && forall|j: int| 0 <= j < w ==> !((#[trigger] prev[j]).0 == d0 && prev[j].1 == r0);
                            assert(first_group(prev, d0, r0, w));
                        }
                    }
                    assert(members(actions, pre, d0, r0).len() == 0);
                    assert(members(actions, indices, d0, r0) =~= seq![idx]);
                    assert forall|k: int| 0 <= k < gs.len() implies (#[trigger] gs[k]).2 == members(
                        actions,
                        indices,
                        gs[k].0,
                        gs[k].1,
                    ) by {
                        if k < prev.len() {
                            assert(gs[k] == prev[k]);
                            assert(!targets(a, gs[k].0, gs[k].1));
                        }
                    }
                    assert forall|k: int, m: int|
                        0 <= k < gs.len() && 0 <= m < gs.len() && k != m implies !(#[trigger] gs[k].0
                        == #[trigger] gs[m].0 && gs[k].1 == gs[m].1) by {
                        if k < prev.len() && m < prev.len() {
                            assert(!(prev[k].0 == prev[m].0 && prev[k].1 == prev[m].1));
                        } else if k < prev.len() {
                            assert(gs[k] == prev[k]);
                        } else if m < prev.len() {
                            assert(gs[m] == prev[m]);
                        }
                    }
                    assert forall|d: Option<Seq<char>>, r: Region|
                        (forall|k: int| 0 <= k < gs.len() ==> !(#[trigger] gs[k].0 == d && gs[k].1 == r)) implies
                        #[trigger] members(actions, indices, d, r).len() == 0 by {
                        assert(!(gs[prev.len() as int].0 == d && gs[prev.len() as int].1 == r));
                        assert(!targets(a, d, r));
                        assert forall|k: int| 0 <= k < prev.len() implies !(#[trigger] prev[k].0 == d && prev[k].1 == r) by {
                            assert(gs[k] == prev[k]);
                        }
                        assert(members(actions, indices, d, r) == members(actions, pre, d, r));
                    }
                }
            },
        }
    }
}

/// The first position in `indices` whose action targets `(d, r)`.
pub open spec fn first_pos(actions: Seq<Action>, indices: Seq<usize>, d: Option<Seq<char>>, r: Region) -> Option<int>
    decreases indices.len(),
{
    if indices.len() == 0 {
        None
    } else {
        match first_pos(actions, indices.drop_last(), d, r) {
            Some(p) => Some(p),
            None => if targets(actions[indices.last() as int], d, r) {
                Some(indices.len() - 1)
            } else {
                None
            },
        }
    }
}

/// The URL groups come out in the order their targets first occur among
/// `indices`: every group's target occurs, and an earlier group's target
/// occurs first at an earlier position.
pub proof fn groups_in_first_occurrence_order(actions: Seq<Action>, indices: Seq<usize>)
    requires
        forall|i: int| 0 <= i < indices.len() ==> (#[trigger] indices[i]) < actions.len(),
    ensures
        ({
            let gs = groups_spec(actions, indices);
            &&& forall|k: int| 0 <= k < gs.len() ==> #[trigger] first_pos(actions, indices, gs[k].0, gs[k].1) is Some
            &&& forall|k: int, m: int|
                0 <= k < m < gs.len() ==> (#[trigger] first_pos(actions, indices, gs[k].0, gs[k].1))->0
                    < (#[trigger] first_pos(actions, indices, gs[m].0, gs[m].1))->0
        }),
    decreases indices.len(),
{
    if indices.len() > 0 {
        let pre = indices.drop_last();
        assert forall|i: int| 0 <= i < pre.len() implies (#[trigger] pre[i]) < actions.len() by {
            assert(pre[i] == indices[i]);
        }
        groups_in_first_occurrence_order(actions, pre);
        groups_partition_by_target(actions, pre);
        let prev = groups_spec(actions, pre);
        let gs = groups_spec(actions, indices);
        let idx = indices.last();
        let a = actions[idx as int];
        // Every group of `prev` keeps its first position.
        assert forall|k: int| 0 <= k < prev.len() implies #[trigger] first_pos(actions, indices, prev[k].0, prev[k].1)
            == first_pos(actions, pre, prev[k].0, prev[k].1) by {}
        match a.region_of() {
            None => {
                assert(gs == prev);
            },
            Some(r0) => {
                let d0 = a.display_of();
                if exists|k: int| first_group(prev, d0, r0, k) {
                    let c = choose|k: int| first_group(prev, d0, r0, k);
                    assert(gs == prev.update(c, (d0, r0, prev[c].2.push(idx))));
                    assert forall|k: int| 0 <= k < gs.len() implies gs[k].0 == prev[k].0 && gs[k].1 == prev[k].1 by {}
                } else {
                    assert(gs == prev.push((d0, r0, seq![idx])));
                    assert forall|k: int| 0 <= k < prev.len() implies !(#[trigger] prev[k].0 == d0 && prev[k].1 == r0) by {
                        if prev[k].0 == d0 && prev[k].1 == r0 {
                            let w = choose|w: int| 0 <= w <= k && prev[w].0 == d0 && prev[w].1 == r0 && forall|j: int| 0 <= j < w ==> !((#[trigger] prev[j]).0 == d0 && prev[j].1 == r0);
                            assert(first_group(prev, d0, r0, w));
                        }
                    }
                    // A target with no group does not occur before.
                    assert(members(actions, pre, d0, r0).len() == 0);
                    lemma_first_pos_members(actions, pre, d0, r0);
                    assert(first_pos(actions, indices, d0, r0) == Some(indices.len() - 1));
                    assert forall|k: int| 0 <= k < prev.len() implies (#[trigger] first_pos(actions, pre, prev[k].0, prev[k].1))->0
                        < indices.len() - 1 by {
                        lemma_first_pos_bound(actions, pre, prev[k].0, prev[k].1);
                    }
                }
            },
        }
    }
}

proof fn lemma_first_pos_members(actions: Seq<Action>, indices: Seq<usize>, d: Option<Seq<char>>, r: Region)
    ensures
        (first_pos(actions, indices, d, r) is None) <==> members(actions, indices, d, r).len() == 0,
    decreases indices.len(),
{
    if indices.len() > 0 {
        lemma_first_pos_members(actions, indices.drop_last(), d, r);
    }
}

proof fn lemma_first_pos_bound(actions: Seq<Action>, indices: Seq<usize>, d: Option<Seq<char>>, r: Region)
    ensures
        first_pos(actions, indices, d, r) matches Some(p) ==> 0 <= p < indices.len(),
    decreases indices.len(),
{
    if indices.len() > 0 {
        lemma_first_pos_bound(actions, indices.drop_last(), d, r);
    }
}

fn find_group(groups: &Vec<(PlacementTarget, Vec<usize>)>, display: Option<&str>, region: Region) -> (r: Option<usize>)
    ensures
        ({
            let gs = groups@.map_values(|g: (PlacementTarget, Vec<usize>)| group_view(g));
            match r {
                Some(k) => first_group(gs, crate::text::opt_view(display), region, k as int),
                None => forall|q: int| 0 <= q < gs.len() ==> !((#[trigger] gs[q]).0 == crate::text::opt_view(display) && gs[q].1 == region),
            }
        }),
{
    let ghost gs = groups@.map_values(|g: (PlacementTarget, Vec<usize>)| group_view(g));
    let m = groups.len();
    let mut j: usize = 0;
    while j < m
        invariant
            m == groups@.len(),
            j <= m,
            gs == groups@.map_values(|g: (PlacementTarget, Vec<usize>)| group_view(g)),
            forall|q: int|
                0 <= q < j ==> !((#[trigger] gs[q]).0 == crate::text::opt_view(display) && gs[q].1 == region),
        decreases m - j,
    {
        let same_display = match &groups[j].0.0 {
            Some(s) => opt_str_eq(Some(s.as_str()), display),
            None => opt_str_eq(None, display),
        };
        assert(gs[j as int] == group_view(groups@[j as int]));
        if same_display && groups[j].0.1 == region {
            return Some(j);
        }
        j += 1;
    }
    None
}

/// Group action indices by their (display, region) target, preserving the
/// order in which targets first appear.
pub fn group_by_target(actions: &Vec<Action>, indices: &Vec<usize>) -> (r: Vec<(PlacementTarget, Vec<usize>)>)
    requires
        forall|i: int| 0 <= i < indices@.len() ==> (#[trigger] indices@[i]) < actions@.len(),
    ensures
        r@.map_values(|g: (PlacementTarget, Vec<usize>)| group_view(g)) == groups_spec(actions@, indices@),
{
    let n = indices.len();
    let mut groups: Vec<(PlacementTarget, Vec<usize>)> = Vec::new();
    let mut k: usize = 0;
    while k < n
        invariant
            n == indices@.len(),
            k <= n,
            forall|i: int| 0 <= i < indices@.len() ==> (#[trigger] indices@[i]) < actions@.len(),
            groups@.map_values(|g: (PlacementTarget, Vec<usize>)| group_view(g)) == groups_spec(
                actions@,
                indices@.take(k as int),
            ),
        decreases n - k,
    {
        proof {
            assert(indices@.take(k + 1).drop_last() =~= indices@.take(k as int));
            assert(indices@.take(k + 1).last() == indices@[k as int]);
        }
        let index = indices[k];
        let ghost prev = groups@.map_values(|g: (PlacementTarget, Vec<usize>)| group_view(g));
        if let Some(region) = actions[index].region() {
            let display = actions[index].display();
            let found = find_group(&groups, display, region);
            match found {
                Some(g) => {
                    proof {
                        let d = actions@[index as int].display_of();
                        assert(first_group(prev, d, region, g as int));
                        let c = choose|q: int| first_group(prev, d, region, q);
                        assert(first_group(prev, d, region, c));
                        if c < g {
                            assert(!(prev[c].0 == d && prev[c].1 == region));
                        } else if c > g {
                            assert(prev[g as int].0 == d && prev[g as int].1 == region);
                        }
                    }
                    let mut entry = groups.remove(g);
                    entry.1.push(index);
                    groups.insert(g, entry);
                    assert(groups@.map_values(|g: (PlacementTarget, Vec<usize>)| group_view(g))
                        =~= groups_spec(actions@, indices@.take(k + 1)));
                },
                None => {
                    let d = match display {
                        Some(s) => Some(s.to_owned()),
                        None => None,
                    };
                    let mut members: Vec<usize> = Vec::new();
                    members.push(index);
                    assert(members@ =~= seq![index]);
                    assert(opt_string_view(d) == actions@[index as int].display_of());
                    assert(!exists|q: int| first_group(prev, actions@[index as int].display_of(), region, q));
                    groups.push(((d, region), members));
                    assert(groups@.map_values(|g: (PlacementTarget, Vec<usize>)| group_view(g))
                        =~= groups_spec(actions@, indices@.take(k + 1)));
                },
            }
        }
        k += 1;
    }
    assert(indices@.take(n as int) =~= indices@);
    groups
}


/// The app whose windows show an action, used to tell whether a routine
/// is already assembled: an app action's app; Chrome for a placed URL (it opens its own
/// Chrome window); none for an unplaced URL (tabs cannot be observed); a
/// document's handler app.
pub open spec fn assembly_app(a: Action, handler: Option<Seq<char>>) -> Option<Seq<char>> {
    match a {
        Action::OpenApp { name, .. } => Some(name@),
        Action::OpenUrl { region: Some(_), .. } => Some("Google Chrome"@),
        Action::OpenUrl { region: None, .. } => None,
        Action::OpenFile { .. } => handler,
    }
}

/// The app brought forward for an action when windows are restacked: an
/// app action's app; Chrome for a placed URL; a placed document's handler
/// app; none otherwise.
pub open spec fn restack_app(a: Action, handler: Option<Seq<char>>) -> Option<Seq<char>> {
    match a {
        Action::OpenApp { name, .. } => Some(name@),
        Action::OpenUrl { region: Some(_), .. } => Some("Google Chrome"@),
        Action::OpenFile { region: Some(_), .. } => handler,
        _ => None,
    }
}

/// The app of action `i`, where actions bound to a disconnected display
/// (which the run skips) have none; `restack` picks the restacking rule,
/// otherwise the assembly rule.
pub open spec fn app_of_action(a: Action, missing: bool, handler: Option<Seq<char>>, restack: bool) -> Option<Seq<char>> {
    if a.region_of() is Some && missing {
        None
    } else if restack {
        restack_app(a, handler)
    } else {
        assembly_app(a, handler)
    }
}

/// `k` is an entry of `entries` named `name`.
pub open spec fn has_app(entries: Seq<(Seq<char>, int)>, name: Seq<char>) -> bool {
    exists|k: int| 0 <= k < entries.len() && (#[trigger] entries[k]).0 == name
}

/// The distinct names of `names`, each with the index where it first
/// appears, in order of first appearance.
pub open spec fn distinct_apps(names: Seq<Option<Seq<char>>>) -> Seq<(Seq<char>, int)>
    decreases names.len(),
{
    if names.len() == 0 {
        Seq::empty()
    } else {
        let prev = distinct_apps(names.drop_last());
        match names.last() {
            Some(n) => if has_app(prev, n) {
                prev
            } else {
                prev.push((n, names.len() - 1))
            },
            None => prev,
        }
    }
}

/// The distinct app list lists every app exactly once: no name twice, a
/// name is listed exactly when some action maps to it, and each entry
/// carries the first action that maps to its name. So the "already
/// assembled" verdict, `routine_already_assembled` over this list, holds
/// exactly when some action maps to an app and every such app is ready.
pub proof fn distinct_apps_lists_each_app_once(names: Seq<Option<Seq<char>>>)
    ensures
        ({
            let ds = distinct_apps(names);
            &&& forall|k: int, m: int|
                0 <= k < ds.len() && 0 <= m < ds.len() && k != m ==> (#[trigger] ds[k]).0 != (#[trigger] ds[m]).0
            &&& forall|n: Seq<char>| #[trigger] has_app(ds, n) <==> exists|i: int| 0 <= i < names.len() && names[i] == Some(n)
            &&& forall|k: int|
                0 <= k < ds.len() ==> {
                    let e = #[trigger] ds[k];
                    &&& 0 <= e.1 < names.len()
                    &&& names[e.1] == Some(e.0)
                    &&& forall|j: int| 0 <= j < e.1 ==> names[j] != Some(e.0)
                }
        }),
    decreases names.len(),
{
    if names.len() > 0 {
        let pre = names.drop_last();
        distinct_apps_lists_each_app_once(pre);
        let prev = distinct_apps(pre);
        let ds = distinct_apps(names);
        let last = names.len() - 1;
        assert forall|i: int| 0 <= i < pre.len() implies #[trigger] pre[i] == names[i] by {}
        assert forall|n: Seq<char>| #[trigger] has_app(ds, n) <==> exists|i: int| 0 <= i < names.len() && names[i] == Some(n) by {
            if has_app(ds, n) {
                if has_app(prev, n) {
                    let i = choose|i: int| 0 <= i < pre.len() && pre[i] == Some(n);
                    assert(names[i] == Some(n));
                } else {
                    let k = choose|k: int| 0 <= k < ds.len() && (#[trigger] ds[k]).0 == n;
                    assert(names[last] == Some(n));
                }
            }
            if exists|i: int| 0 <= i < names.len() && names[i] == Some(n) {
                let i = choose|i: int| 0 <= i < names.len() && names[i] == Some(n);
                if i < last {
                    assert(pre[i] == Some(n));
                    assert(has_app(prev, n));
                    let k = choose|k: int| 0 <= k < prev.len() && (#[trigger] prev[k]).0 == n;
                    assert(ds[k] == prev[k]);
                    assert(has_app(ds, n));
                } else {
                    if !has_app(prev, n) {
                        assert(ds[prev.len() as int].0 == n);
                    } else {
                        let k = choose|k: int| 0 <= k < prev.len() && (#[trigger] prev[k]).0 == n;
                        assert(ds[k] == prev[k]);
                    }
                    assert(has_app(ds, n));
                }
            }
        }
        match names.last() {
            Some(n) => {
                if !has_app(prev, n) {
                    assert forall|j: int| 0 <= j < last implies names[j] != Some(n) by {
                        if names[j] == Some(n) {
                            assert(pre[j] == Some(n));
                        }
                    }
                    assert forall|k: int| 0 <= k < prev.len() implies (#[trigger] prev[k]).0 != n by {
                        if prev[k].0 == n {
                            assert(has_app(prev, n));
                        }
                    }
                    assert(ds == prev.push((n, last)));
                } else {
                    assert(ds == prev);
                }
            },
            None => {
                assert(ds == prev);
            },
        }
        assert forall|k: int, m: int|
            0 <= k < ds.len() && 0 <= m < ds.len() && k != m implies (#[trigger] ds[k]).0 != (#[trigger] ds[m]).0 by {
            if k < prev.len() && m < prev.len() {
                assert(ds[k] == prev[k] && ds[m] == prev[m]);
            } else if k < prev.len() {
                assert(ds[k] == prev[k]);
            } else if m < prev.len() {
                assert(ds[m] == prev[m]);
            }
        }
        assert forall|k: int| 0 <= k < ds.len() implies {
            let e = #[trigger] ds[k];
            &&& 0 <= e.1 < names.len()
            &&& names[e.1] == Some(e.0)
            &&& forall|j: int| 0 <= j < e.1 ==> names[j] != Some(e.0)
        } by {
            if k < prev.len() {
                assert(ds[k] == prev[k]);
                let e = prev[k];
                assert(pre[e.1] == names[e.1]);
                assert forall|j: int| 0 <= j < e.1 implies names[j] != Some(e.0) by {
                    assert(pre[j] == names[j]);
                }
            }
        }
    }
}

/// A routine is assembled when some action maps to an app and every app
/// some action maps to is ready.
pub open spec fn assembled_spec(names: Seq<Option<Seq<char>>>, ready_of: spec_fn(Seq<char>) -> bool) -> bool {
    &&& exists|i: int| 0 <= i < names.len() && #[trigger] names[i] is Some
    &&& forall|i: int| 0 <= i < names.len() && #[trigger] names[i] is Some ==> ready_of(names[i]->0)
}

/// The "already assembled" verdict over the distinct app list, with one
/// readiness flag per listed app, is exactly `assembled_spec`: some action
/// maps to an app and every such app is ready. (With `names` the apps of a
/// routine's actions, `apps_per_action(.., false)`, this is what
/// `assembly_apps` followed by `routine_already_assembled` decide.)
pub proof fn assembled_verdict_is_per_app(
    names: Seq<Option<Seq<char>>>,
    ready: Seq<bool>,
    ready_of: spec_fn(Seq<char>) -> bool,
)
    requires
        ready.len() == distinct_apps(names).len(),
        forall|k: int| 0 <= k < ready.len() ==> #[trigger] ready[k] == ready_of(distinct_apps(names)[k].0),
    ensures
        (distinct_apps(names).len() > 0 && forall|k: int| 0 <= k < ready.len() ==> #[trigger] ready[k])
            == assembled_spec(names, ready_of),
{
    distinct_apps_lists_each_app_once(names);
    let ds = distinct_apps(names);
    if ds.len() > 0 {
        let e = ds[0];
        assert(names[e.1] == Some(e.0));
        assert(names[e.1] is Some);
    }
    if exists|i: int| 0 <= i < names.len() && #[trigger] names[i] is Some {
        let i = choose|i: int| 0 <= i < names.len() && #[trigger] names[i] is Some;
        let n = names[i]->0;
        assert(has_app(ds, n));
    }
    if forall|k: int| 0 <= k < ready.len() ==> #[trigger] ready[k] {
        assert forall|i: int| 0 <= i < names.len() && #[trigger] names[i] is Some implies ready_of(names[i]->0) by {
            let n = names[i]->0;
            assert(has_app(ds, n));
            let k = choose|k: int| 0 <= k < ds.len() && (#[trigger] ds[k]).0 == n;
            assert(ready[k]);
        }
    }
    if assembled_spec(names, ready_of) {
        assert forall|k: int| 0 <= k < ready.len() implies #[trigger] ready[k] by {
            let e = ds[k];
            assert(names[e.1] == Some(e.0));
            assert(names[e.1] is Some);
        }
    }
}

/// The app of each action under the given rule.
pub open spec fn apps_per_action(
    actions: Seq<Action>,
    missing: Seq<bool>,
    handlers: Seq<Option<String>>,
    restack: bool,
) -> Seq<Option<Seq<char>>> {
    Seq::new(
        actions.len(),
        |i: int| app_of_action(actions[i], missing[i], opt_string_view(handlers[i]), restack),
    )
}

/// The assembly rule by kind: an action with a region on a disconnected
/// display shows no app; otherwise an app action shows its own app, a
/// placed URL shows Google Chrome, an unplaced URL shows none (its tab
/// cannot be observed), and a document shows its handler app whether or
/// not it is placed.
pub proof fn assembly_app_by_kind(a: Action, missing: bool, handler: Option<Seq<char>>)
    ensures
        a.region_of() is Some && missing ==> app_of_action(a, missing, handler, false) is None,
        a matches Action::OpenApp { name, region, .. } ==> ((region is None || !missing)
            ==> app_of_action(a, missing, handler, false) == Some(name@)),
        a matches Action::OpenUrl { region: Some(_), .. } && !missing ==> app_of_action(
            a,
            missing,
            handler,
            false,
        ) == Some("Google Chrome"@),
        a matches Action::OpenUrl { region: None, .. } ==> app_of_action(a, missing, handler, false) is None,
        a matches Action::OpenFile { region, .. } ==> ((region is None || !missing) ==> app_of_action(
            a,
            missing,
            handler,
            false,
        ) == handler),
{
}

/// Every document the run opens counts toward the "already assembled"
/// check: when action `i` opens a document with a known handler app and
/// is not skipped for a disconnected display, that app is in the assembly
/// list, placed document or not.
pub proof fn documents_count_toward_assembly(
    actions: Seq<Action>,
    missing: Seq<bool>,
    handlers: Seq<Option<String>>,
    i: int,
)
    requires
        missing.len() == actions.len(),
        handlers.len() == actions.len(),
        0 <= i < actions.len(),
        actions[i] is OpenFile,
        actions[i].region_of() is None || !missing[i],
        handlers[i] is Some,
    ensures
        apps_per_action(actions, missing, handlers, false)[i] == Some(handlers[i]->0@),
        has_app(distinct_apps(apps_per_action(actions, missing, handlers, false)), handlers[i]->0@),
{
    let names = apps_per_action(actions, missing, handlers, false);
    distinct_apps_lists_each_app_once(names);
    assert(names[i] == Some(handlers[i]->0@));
}

/// The entries view of a list of (name, index) pairs.
pub open spec fn entries_view(es: Seq<(String, usize)>) -> Seq<(Seq<char>, int)> {
    es.map_values(|e: (String, usize)| (e.0@, e.1 as int))
}

fn app_of(action: &Action, missing: bool, handler: &Option<String>, restack: bool) -> (r: Option<String>)
    ensures
        opt_string_view(r) == app_of_action(*action, missing, opt_string_view(*handler), restack),
{
    if action.region().is_some() && missing {
        return None;
    }
    match action {
        Action::OpenApp { name, .. } => Some(name.clone()),
        Action::OpenUrl { region: Some(_), .. } => Some("Google Chrome".to_owned()),
        Action::OpenUrl { region: None, .. } => None,
        Action::OpenFile { region, .. } => if restack && region.is_none() {
            None
        } else {
            clone_opt_string(handler)
        },
    }
}

fn entry_named(entries: &Vec<(String, usize)>, name: &str) -> (r: bool)
    ensures
        r == has_app(entries_view(entries@), name@),
{
    let ghost ev = entries_view(entries@);
    let n = entries.len();
    let mut k: usize = 0;
    while k < n
        invariant
            n == entries@.len(),
            k <= n,
            ev == entries_view(entries@),
            forall|j: int| 0 <= j < k ==> (#[trigger] ev[j]).0 != name@,
        decreases n - k,
    {
        assert(ev[k as int] == (entries@[k as int].0@, entries@[k as int].1 as int));
        if str_eq(entries[k].0.as_str(), name) {
            return true;
        }
        k += 1;
    }
    false
}

/// The distinct apps of a routine's actions with the index of the first
/// action of each, in order of first appearance.
fn distinct_app_entries(
    actions: &Vec<Action>,
    display_missing: &Vec<bool>,
    handlers: &Vec<Option<String>>,
    restack: bool,
) -> (r: Vec<(String, usize)>)
    requires
        display_missing@.len() == actions@.len(),
        handlers@.len() == actions@.len(),
    ensures
        entries_view(r@) == distinct_apps(apps_per_action(actions@, display_missing@, handlers@, restack)),
{
    let ghost names = apps_per_action(actions@, display_missing@, handlers@, restack);
    let n = actions.len();
    let mut entries: Vec<(String, usize)> = Vec::new();
    let mut k: usize = 0;
    while k < n
        invariant
            n == actions@.len(),
            n == display_missing@.len(),
            n == handlers@.len(),
            k <= n,
            names == apps_per_action(actions@, display_missing@, handlers@, restack),
            entries_view(entries@) == distinct_apps(names.take(k as int)),
        decreases n - k,
    {
        proof {
            assert(names.take(k + 1).drop_last() =~= names.take(k as int));
            assert(names.take(k + 1).last() == names[k as int]);
        }
        let app = app_of(&actions[k], display_missing[k], &handlers[k], restack);
        if let Some(name) = app {
            if !entry_named(&entries, name.as_str()) {
                let ghost before = entries@;
                entries.push((name, k));
                assert(entries_view(entries@) =~= entries_view(before).push((name@, k as int)));
            }
        }
        k += 1;
    }
    assert(names.take(n as int) =~= names);
    entries
}

/// The distinct apps a routine's actions show, in order of first
/// appearance: the apps whose windows decide whether the routine is
/// already assembled. `display_missing[i]` tells whether action `i`'s
/// display is not connected; `handlers[i]` is the app that opens action
/// `i`'s document.
pub fn assembly_apps(actions: &Vec<Action>, display_missing: &Vec<bool>, handlers: &Vec<Option<String>>) -> (r: Vec<String>)
    requires
        display_missing@.len() == actions@.len(),
        handlers@.len() == actions@.len(),
    ensures
        r@.map_values(|s: String| s@) == distinct_apps(apps_per_action(actions@, display_missing@, handlers@, false)).map_values(
            |e: (Seq<char>, int)| e.0,
        ),
{
    let entries = distinct_app_entries(actions, display_missing, handlers, false);
    let ghost ev = entries_view(entries@);
    let n = entries.len();
    let mut out: Vec<String> = Vec::new();
    let mut k: usize = 0;
    while k < n
        invariant
            n == entries@.len(),
            k <= n,
            ev == entries_view(entries@),
            out@.len() == k,
            forall|i: int| 0 <= i < k ==> (#[trigger] out@[i])@ == ev[i].0,
        decreases n - k,
    {
        out.push(entries[k].0.clone());
        k += 1;
    }
    assert(out@.map_values(|s: String| s@) =~= ev.map_values(|e: (Seq<char>, int)| e.0));
    out
}

/// True when every app the routine would launch already has a window on
/// screen (`ready[i]` for `apps[i]`): the workspace counts as assembled and
/// a new trigger is a deliberate no-op. False when there is no app to look
/// at.
pub fn routine_already_assembled(apps: &Vec<String>, ready: &Vec<bool>) -> (r: bool)
    requires
        ready@.len() == apps@.len(),
    ensures
        r == (apps@.len() > 0 && forall|i: int| 0 <= i < ready@.len() ==> #[trigger] ready@[i]),
{
    if apps.len() == 0 {
        return false;
    }
    let n = ready.len();
    let mut k: usize = 0;
    while k < n
        invariant
            n == ready@.len(),
            k <= n,
            forall|i: int| 0 <= i < k ==> #[trigger] ready@[i],
        decreases n - k,
    {
        if !ready[k] {
            return false;
        }
        k += 1;
    }
    true
}

/// The apps to re-activate so that the app of action #1 ends frontmost:
/// each app once, with the index of its first action, ordered from the
/// last such index to the first.
pub fn restack_order(actions: &Vec<Action>, display_missing: &Vec<bool>, handlers: &Vec<Option<String>>) -> (r: Vec<(String, usize)>)
    requires
        display_missing@.len() == actions@.len(),
        handlers@.len() == actions@.len(),
    ensures
        entries_view(r@) == distinct_apps(apps_per_action(actions@, display_missing@, handlers@, true)).reverse(),
{
    let mut entries = distinct_app_entries(actions, display_missing, handlers, true);
    let ghost fwd = entries_view(entries@);
    let n = entries.len();
    let mut out: Vec<(String, usize)> = Vec::new();
    let mut k: usize = n;
    while k > 0
        invariant
            k <= n,
            entries@.len() == k,
            forall|i: int| 0 <= i < k ==> (entries@[i].0@, entries@[i].1 as int) == #[trigger] fwd[i],
            fwd.len() == n,
            out@.len() == n - k,
            forall|i: int| 0 <= i < n - k ==> (out@[i].0@, out@[i].1 as int) == #[trigger] fwd[n - 1 - i],
        decreases k,
    {
        let e = entries.pop().unwrap();
        out.push(e);
        k -= 1;
    }
    assert(entries_view(out@) =~= fwd.reverse());
    out
}

/// Some app became ready since the last pass (`now[i]` but not
/// `before[i]`, over the positions both lists have).
pub fn became_ready(now: &Vec<bool>, before: &Vec<bool>) -> (r: bool)
    ensures
        r == exists|i: int| 0 <= i < now@.len() && i < before@.len() && #[trigger] now@[i] && !before@[i],
{
    let n = if now.len() < before.len() {
        now.len()
    } else {
        before.len()
    };
    let mut k: usize = 0;
    while k < n
        invariant
            n <= now@.len(),
            n <= before@.len(),
            n == now@.len() || n == before@.len(),
            k <= n,
            forall|i: int| 0 <= i < k ==> !(#[trigger] now@[i] && !before@[i]),
        decreases n - k,
    {
        if now[k] && !before[k] {
            return true;
        }
        k += 1;
    }
    false
}

} // verus!
