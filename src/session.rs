use vstd::prelude::*;

use crate::error::{CliError, RenameError};
use crate::plan::{list_changed, pairs_view, paths_view, plan_of, PairText};

verus! {

/// What the driver of a `Renamer` has to do next.
#[derive(Debug)]
pub enum Action {
    /// The plan is empty: report that there is nothing to change; the run succeeded.
    NothingToChange,
    /// Dry run: report that the source would be renamed to the destination,
    /// then answer with `Event::Reported`.
    ReportDryRun(String, String),
    /// Show the pending rename and ask the user to accept it (default: yes),
    /// then answer with `Event::Answered` or `Event::PromptFailed`.
    AskConfirmation(String, String),
    /// Rename the source to the destination on the filesystem, then answer
    /// with `Event::Renamed` or `Event::RenameFailed`.
    Rename(String, String),
    /// The run is over.
    Finished,
}

/// The outcome of the action last asked for, handed back to a `Renamer`.
#[derive(Debug)]
pub enum Event {
    /// The dry-run line was shown.
    Reported,
    /// The user accepted (`true`) or declined (`false`) the pending rename.
    Answered(bool),
    /// The confirmation prompt could not be completed.
    PromptFailed(CliError),
    /// The filesystem rename succeeded.
    Renamed,
    /// The filesystem rename failed, for the given cause.
    RenameFailed(std::io::Error),
}

/// The model of an `Action`.
pub enum ActionView {
    NothingToChange,
    ReportDryRun(PairText),
    AskConfirmation(PairText),
    Rename(PairText),
    Finished,
}

/// The model of an `Event`: which outcome it is, without the error it may carry.
pub enum EventKind {
    Reported,
    Answered(bool),
    PromptFailed,
    Renamed,
    RenameFailed,
}

/// The model of a `Renamer`.
pub struct RenamerView {
    pub plan: Seq<PairText>,
    pub dry_run: bool,
    pub confirm: bool,
    /// Position in the plan of the pair being handled.
    pub next: nat,
    /// The pair at `next` has been accepted by the user.
    pub approved: bool,
    /// A failure ended the run.
    pub aborted: bool,
}

/// Carries out a rename plan one pair at a time, in plan order, under a
/// policy: with `dry_run` each pair is only reported; otherwise, with
/// `confirm`, each pair is renamed only once the user accepts it, and else
/// each pair is renamed at once. The first failed rename or failed prompt
/// ends the run; renames already done stay done.
///
/// The renamer performs no outside work itself: `next_action` says what to
/// do, and `advance` takes the outcome.
#[derive(Debug)]
pub struct Renamer {
    plan: Vec<(String, String)>,
    dry_run: bool,
    confirm: bool,
    next: usize,
    approved: bool,
    aborted: bool,
}

impl View for Action {
    type V = ActionView;

    open spec fn view(&self) -> ActionView {
        match self {
            Action::NothingToChange => ActionView::NothingToChange,
            Action::ReportDryRun(s, d) => ActionView::ReportDryRun((s@, d@)),
            Action::AskConfirmation(s, d) => ActionView::AskConfirmation((s@, d@)),
            Action::Rename(s, d) => ActionView::Rename((s@, d@)),
            Action::Finished => ActionView::Finished,
        }
    }
}

impl View for Event {
    type V = EventKind;

    open spec fn view(&self) -> EventKind {
        match self {
            Event::Reported => EventKind::Reported,
            Event::Answered(yes) => EventKind::Answered(*yes),
            Event::PromptFailed(_) => EventKind::PromptFailed,
            Event::Renamed => EventKind::Renamed,
            Event::RenameFailed(_) => EventKind::RenameFailed,
        }
    }
}

impl View for Renamer {
    type V = RenamerView;

    closed spec fn view(&self) -> RenamerView {
        RenamerView {
            plan: pairs_view(self.plan@),
            dry_run: self.dry_run,
            confirm: self.confirm,
            next: self.next as nat,
            approved: self.approved,
            aborted: self.aborted,
        }
    }
}

/// A renamer at the start of a run.
pub open spec fn fresh(plan: Seq<PairText>, dry_run: bool, confirm: bool) -> RenamerView {
    RenamerView { plan, dry_run, confirm, next: 0, approved: false, aborted: false }
}

/// What a renamer in state `v` asks its driver to do.
pub open spec fn action_of(v: RenamerView) -> ActionView {
    if v.plan.len() == 0 {
        ActionView::NothingToChange
    } else if v.aborted || v.next >= v.plan.len() {
        ActionView::Finished
    } else if v.dry_run {
        ActionView::ReportDryRun(v.plan[v.next as int])
    } else if v.confirm && !v.approved {
        ActionView::AskConfirmation(v.plan[v.next as int])
    } else {
        ActionView::Rename(v.plan[v.next as int])
    }
}

/// The state after moving on to the following pair.
pub open spec fn moved_on(v: RenamerView) -> RenamerView {
    RenamerView { next: v.next + 1, approved: false, ..v }
}

/// Whether event `e` ends the run with an error in state `v`: a failed
/// prompt while asking, or a failed rename while renaming.
pub open spec fn fails(v: RenamerView, e: EventKind) -> bool {
    match (action_of(v), e) {
        (ActionView::AskConfirmation(_), EventKind::PromptFailed) => true,
        (ActionView::Rename(_), EventKind::RenameFailed) => true,
        _ => false,
    }
}

/// The state after event `e` in state `v`. An event that does not answer
/// the pending action changes nothing.
pub open spec fn next_state(v: RenamerView, e: EventKind) -> RenamerView {
    match (action_of(v), e) {
        (ActionView::ReportDryRun(_), EventKind::Reported) => moved_on(v),
        (ActionView::AskConfirmation(_), EventKind::Answered(yes)) => if yes {
            RenamerView { approved: true, ..v }
        } else {
            moved_on(v)
        },
        (ActionView::Rename(_), EventKind::Renamed) => moved_on(v),
        _ => if fails(v, e) {
            RenamerView { aborted: true, ..v }
        } else {
            v
        },
    }
}

/// Whether event `e` answers a rename in state `v`, that is, whether the
/// driver touched the filesystem.
pub open spec fn renames(v: RenamerView, e: EventKind) -> bool {
    action_of(v) is Rename && (e is Renamed || e is RenameFailed)
}

/// The state after a sequence of events.
pub open spec fn run(v: RenamerView, events: Seq<EventKind>) -> RenamerView
    decreases events.len(),
{
    if events.len() == 0 {
        v
    } else {
        run(next_state(v, events[0]), events.drop_first())
    }
}

/// The renames attempted on the filesystem over a sequence of events, in order.
pub open spec fn attempted(v: RenamerView, events: Seq<EventKind>) -> Seq<PairText>
    decreases events.len(),
{
    if events.len() == 0 {
        Seq::empty()
    } else {
        let rest = attempted(next_state(v, events[0]), events.drop_first());
        if renames(v, events[0]) {
            seq![v.plan[v.next as int]] + rest
        } else {
            rest
        }
    }
}

/// The renames that succeeded over a sequence of events, in order.
pub open spec fn committed(v: RenamerView, events: Seq<EventKind>) -> Seq<PairText>
    decreases events.len(),
{
    if events.len() == 0 {
        Seq::empty()
    } else {
        let rest = committed(next_state(v, events[0]), events.drop_first());
        if renames(v, events[0]) && events[0] is Renamed {
            seq![v.plan[v.next as int]] + rest
        } else {
            rest
        }
    }
}

/// Whether some event of the sequence ends the run with an error.
pub open spec fn failed(v: RenamerView, events: Seq<EventKind>) -> bool
    decreases events.len(),
{
    if events.len() == 0 {
        false
    } else {
        fails(v, events[0]) || failed(next_state(v, events[0]), events.drop_first())
    }
}

/// The events a filesystem hands back to a run that renames without asking:
/// `true` for a rename that succeeded, `false` for one that failed.
pub open spec fn rename_outcomes(outcomes: Seq<bool>) -> Seq<EventKind> {
    outcomes.map_values(|ok: bool| if ok { EventKind::Renamed } else { EventKind::RenameFailed })
}

/// The position of the first `false` in `outcomes`, or its length if there is none.
pub open spec fn first_failure(outcomes: Seq<bool>) -> nat
    decreases outcomes.len(),
{
    if outcomes.len() == 0 {
        0
    } else if !outcomes[0] {
        0
    } else {
        1 + first_failure(outcomes.drop_first())
    }
}

/// Whether an answer to a confirmation is a "no" that did not fail, or no
/// answer to a confirmation at all.
pub open spec fn declines(e: EventKind) -> bool {
    e != EventKind::Answered(true) && e != EventKind::PromptFailed
}

/// Once a run has nothing left to do, events change nothing.
proof fn lemma_idle(v: RenamerView, events: Seq<EventKind>)
    requires
        action_of(v) is Finished || action_of(v) is NothingToChange,
    ensures
        attempted(v, events).len() == 0,
        committed(v, events).len() == 0,
        !failed(v, events),
        run(v, events) == v,
    decreases events.len(),
{
    if events.len() > 0 {
        lemma_idle(v, events.drop_first());
    }
}

proof fn lemma_dry_run_from(v: RenamerView, events: Seq<EventKind>)
    requires
        v.dry_run,
    ensures
        attempted(v, events).len() == 0,
        !failed(v, events),
    decreases events.len(),
{
    if events.len() > 0 {
        lemma_dry_run_from(next_state(v, events[0]), events.drop_first());
    }
}

/// A dry run never touches the filesystem and never fails, whatever plan it
/// runs and whatever its driver hands back.
pub proof fn lemma_dry_run_touches_nothing(plan: Seq<PairText>, confirm: bool, events: Seq<EventKind>)
    ensures
        attempted(fresh(plan, true, confirm), events).len() == 0,
        committed(fresh(plan, true, confirm), events).len() == 0,
        !failed(fresh(plan, true, confirm), events),
{
    lemma_dry_run_from(fresh(plan, true, confirm), events);
    lemma_committed_within_attempted(fresh(plan, true, confirm), events);
}

proof fn lemma_dry_run_reaches_end(v: RenamerView, events: Seq<EventKind>)
    requires
        v.dry_run,
        !v.aborted,
        v.plan.len() > 0,
        v.next <= v.plan.len(),
        events.len() + v.next >= v.plan.len(),
        forall|k: int| 0 <= k < events.len() ==> #[trigger] events[k] == EventKind::Reported,
    ensures
        action_of(run(v, events)) is Finished,
    decreases events.len(),
{
    if v.next == v.plan.len() {
        lemma_idle(v, events);
    } else {
        let rest = events.drop_first();
        assert(events[0] == EventKind::Reported);
        assert forall|k: int| 0 <= k < rest.len() implies #[trigger] rest[k] == EventKind::Reported by {
            assert(rest[k] == events[k + 1]);
        }
        lemma_dry_run_reaches_end(next_state(v, events[0]), rest);
    }
}

/// A dry run of a non-empty plan whose every pair gets reported comes to its
/// end, without error.
pub proof fn lemma_dry_run_finishes(plan: Seq<PairText>, confirm: bool, events: Seq<EventKind>)
    requires
        plan.len() > 0,
        events.len() >= plan.len(),
        forall|k: int| 0 <= k < events.len() ==> #[trigger] events[k] == EventKind::Reported,
    ensures
        action_of(run(fresh(plan, true, confirm), events)) is Finished,
        !failed(fresh(plan, true, confirm), events),
{
    lemma_dry_run_reaches_end(fresh(plan, true, confirm), events);
    lemma_dry_run_from(fresh(plan, true, confirm), events);
}

/// Every successful rename was attempted.
proof fn lemma_committed_within_attempted(v: RenamerView, events: Seq<EventKind>)
    ensures
        committed(v, events).len() <= attempted(v, events).len(),
    decreases events.len(),
{
    if events.len() > 0 {
        lemma_committed_within_attempted(next_state(v, events[0]), events.drop_first());
    }
}

proof fn lemma_declined_from(v: RenamerView, events: Seq<EventKind>)
    requires
        v.confirm,
        !v.dry_run,
        !v.approved,
        forall|k: int| 0 <= k < events.len() ==> declines(#[trigger] events[k]),
    ensures
        attempted(v, events).len() == 0,
        !failed(v, events),
    decreases events.len(),
{
    if events.len() > 0 {
        assert(declines(events[0]));
        let rest = events.drop_first();
        assert forall|k: int| 0 <= k < rest.len() implies declines(#[trigger] rest[k]) by {
            assert(rest[k] == events[k + 1]);
        }
        lemma_declined_from(next_state(v, events[0]), rest);
    }
}

/// A run that asks before each rename, and whose every answer is "no",
/// never touches the filesystem and never fails.
pub proof fn lemma_all_declined_touches_nothing(plan: Seq<PairText>, events: Seq<EventKind>)
    requires
        forall|k: int| 0 <= k < events.len() ==> declines(#[trigger] events[k]),
    ensures
        attempted(fresh(plan, false, true), events).len() == 0,
        committed(fresh(plan, false, true), events).len() == 0,
        !failed(fresh(plan, false, true), events),
{
    lemma_declined_from(fresh(plan, false, true), events);
    lemma_committed_within_attempted(fresh(plan, false, true), events);
}

proof fn lemma_apply_from(v: RenamerView, outcomes: Seq<bool>)
    requires
        !v.dry_run,
        !v.confirm,
        !v.aborted,
        v.next <= v.plan.len(),
    ensures
        ({
            let p = v.next as int;
            let n = v.plan.len() as int;
            let k = first_failure(outcomes) as int;
            let tried = if k < outcomes.len() { k + 1 } else { k };
            &&& committed(v, rename_outcomes(outcomes)) == v.plan.subrange(
                p,
                if p + k < n { p + k } else { n },
            )
            &&& attempted(v, rename_outcomes(outcomes)) == v.plan.subrange(
                p,
                if p + tried < n { p + tried } else { n },
            )
            &&& failed(v, rename_outcomes(outcomes)) == (k < outcomes.len() && p + k < n)
        }),
    decreases outcomes.len(),
{
    let events = rename_outcomes(outcomes);
    let p = v.next as int;
    let n = v.plan.len() as int;
    if outcomes.len() == 0 {
        assert(v.plan.subrange(p, p) =~= Seq::<PairText>::empty());
    } else {
        let rest = outcomes.drop_first();
        assert(events.drop_first() =~= rename_outcomes(rest));
        if p == n {
            lemma_idle(v, events);
            assert(v.plan.subrange(p, p) =~= Seq::<PairText>::empty());
        } else if outcomes[0] {
            let w = next_state(v, events[0]);
            lemma_apply_from(w, rest);
            let k = first_failure(outcomes) as int;
            let tried = if k < outcomes.len() { k + 1 } else { k };
            let c_end = if p + k < n { p + k } else { n };
            let a_end = if p + tried < n { p + tried } else { n };
            assert(seq![v.plan[p]] + v.plan.subrange(p + 1, c_end) =~= v.plan.subrange(p, c_end));
            assert(seq![v.plan[p]] + v.plan.subrange(p + 1, a_end) =~= v.plan.subrange(p, a_end));
        } else {
            let w = next_state(v, events[0]);
            lemma_idle(w, events.drop_first());
            assert(v.plan.subrange(p, p) =~= Seq::<PairText>::empty());
            assert(seq![v.plan[p]] =~= v.plan.subrange(p, p + 1));
        }
    }
}

/// A run that renames without asking attempts the pairs of its plan in
/// order and stops at the first rename that fails: the pairs before it are
/// renamed, that pair is attempted, and no later pair is attempted; the run
/// fails exactly when some rename failed.
pub proof fn lemma_apply_stops_at_first_failure(plan: Seq<PairText>, outcomes: Seq<bool>)
    ensures
        ({
            let v = fresh(plan, false, false);
            let k = first_failure(outcomes) as int;
            let tried = if k < outcomes.len() { k + 1 } else { k };
            &&& committed(v, rename_outcomes(outcomes)) == plan.take(
                if k < plan.len() { k } else { plan.len() as int },
            )
            &&& attempted(v, rename_outcomes(outcomes)) == plan.take(
                if tried < plan.len() { tried } else { plan.len() as int },
            )
            &&& failed(v, rename_outcomes(outcomes)) == (k < outcomes.len() && k < plan.len())
        }),
{
    lemma_apply_from(fresh(plan, false, false), outcomes);
}

impl Renamer {
    /// Computes the plan of `origin` against `renamed` (see `list_changed`)
    /// and starts a run of it under the given policy.
    pub fn new(origin: &[String], renamed: &[String], dry_run: bool, confirm: bool) -> (r: Result<
        Renamer,
        RenameError,
    >)
        ensures
            origin@.len() != renamed@.len() <==> r is Err,
            r is Err ==> (r matches Err(RenameError::MismatchEntries(o, n)) && o == origin@.len()
                && n == renamed@.len()),
            r matches Ok(s) ==> s@ == fresh(
                plan_of(paths_view(origin@), paths_view(renamed@)),
                dry_run,
                confirm,
            ),
    {
        match list_changed(origin, renamed) {
            Ok(plan) => Ok(Renamer { plan, dry_run, confirm, next: 0, approved: false, aborted: false }),
            Err(e) => Err(e),
        }
    }

    /// What the driver has to do next.
    pub fn next_action(&self) -> (a: Action)
        ensures
            a@ == action_of(self@),
    {
        if self.plan.len() == 0 {
            return Action::NothingToChange;
        }
        if self.aborted || self.next >= self.plan.len() {
            return Action::Finished;
        }
        let src = self.plan[self.next].0.clone();
        let dest = self.plan[self.next].1.clone();
        if self.dry_run {
            Action::ReportDryRun(src, dest)
        } else if self.confirm && !self.approved {
            Action::AskConfirmation(src, dest)
        } else {
            Action::Rename(src, dest)
        }
    }

    /// Takes the outcome of the pending action. A failed prompt or a failed
    /// rename ends the run and is returned as the error; any other outcome
    /// returns `Ok`.
    pub fn advance(&mut self, event: Event) -> (r: Result<(), RenameError>)
        ensures
            final(self)@ == next_state(old(self)@, event@),
            r is Err <==> fails(old(self)@, event@),
            fails(old(self)@, event@) ==> match event {
                Event::PromptFailed(e) => r == Err::<(), RenameError>(RenameError::Cli(e)),
                Event::RenameFailed(e) => (r matches Err(RenameError::RenameFailure(s, d, c))
                    && (s@, d@) == old(self)@.plan[old(self)@.next as int] && c == e),
                _ => false,
            },
    {
        let pending = self.plan.len() > 0 && !self.aborted && self.next < self.plan.len();
        if !pending {
            return Ok(());
        }
        if self.dry_run {
            if let Event::Reported = event {
                self.next = self.next + 1;
                self.approved = false;
            }
            return Ok(());
        }
        if self.confirm && !self.approved {
            match event {
                Event::Answered(yes) => {
                    if yes {
                        self.approved = true;
                    } else {
                        self.next = self.next + 1;
                        self.approved = false;
                    }
                    Ok(())
                },
                Event::PromptFailed(e) => {
                    self.aborted = true;
                    Err(RenameError::Cli(e))
                },
                _ => Ok(()),
            }
        } else {
            match event {
                Event::Renamed => {
                    self.next = self.next + 1;
                    self.approved = false;
                    Ok(())
                },
                Event::RenameFailed(e) => {
                    self.aborted = true;
                    let src = self.plan[self.next].0.clone();
                    let dest = self.plan[self.next].1.clone();
                    Err(RenameError::RenameFailure(src, dest, e))
                },
                _ => Ok(()),
            }
        }
    }
}

} // verus!
