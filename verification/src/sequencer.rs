//! The action sequencer: the three external tools in their fixed order, as a
//! state machine. It names the next action and takes the report on it; the
//! caller does the work in between. The first step that fails ends the run.

use crate::programs::{Program, ProgramView};
use crate::utils::{
    conclude, failure_of, planned_action, Action, ActionView, StepReport, StepReportView,
    ToolFailure, ToolFailureView,
};
use vstd::prelude::*;
use vstd::string::StringExecFns;

verus! {

/// The steps, in the order in which they run.
#[derive(Debug, Clone, Copy, PartialEq, Eq, Structural)]
pub enum Step {
    /// Sets the wallpaper, so that the user sees it at once.
    SetWallpaper,
    /// Generates the colour palette from the same image.
    GeneratePalette,
    /// Applies the generated theme.
    ApplyTheme,
}

impl Step {
    /// The step's place in the order, from 1.
    pub open spec fn number(self) -> nat {
        match self {
            Step::SetWallpaper => 1,
            Step::GeneratePalette => 2,
            Step::ApplyTheme => 3,
        }
    }

    /// The step that follows this one, if any.
    pub open spec fn following(self) -> Option<Step> {
        match self {
            Step::SetWallpaper => Some(Step::GeneratePalette),
            Step::GeneratePalette => Some(Step::ApplyTheme),
            Step::ApplyTheme => None,
        }
    }

    /// The step that follows this one, if any.
    pub fn next(self) -> (next: Option<Step>)
        ensures
            next == self.following(),
    {
        match self {
            Step::SetWallpaper => Some(Step::GeneratePalette),
            Step::GeneratePalette => Some(Step::ApplyTheme),
            Step::ApplyTheme => None,
        }
    }
}

/// Where a run stands.
#[derive(Debug, Clone, Copy, PartialEq, Eq, Structural)]
pub enum SequencerState {
    /// Nothing has been started.
    Idle,
    /// The action of this step has been handed out; its report is awaited.
    Running(Step),
    /// All three steps succeeded.
    Done,
    /// This step failed; no later step was attempted.
    Failed(Step),
}

/// One run of the three tools on one image.
#[derive(Debug)]
pub struct ActionSequencer {
    path: String,
    matugen_type: String,
    is_light: bool,
    dry_run: bool,
    state: SequencerState,
}

pub struct SequencerView {
    pub path: Seq<char>,
    pub matugen_type: Seq<char>,
    pub is_light: bool,
    pub dry_run: bool,
    pub state: SequencerState,
}

impl View for ActionSequencer {
    type V = SequencerView;

    closed spec fn view(&self) -> SequencerView {
        SequencerView {
            path: self.path@,
            matugen_type: self.matugen_type@,
            is_light: self.is_light,
            dry_run: self.dry_run,
            state: self.state,
        }
    }
}

/// What the sequencer answers to a report.
#[derive(Debug, PartialEq, Eq)]
pub enum Progress {
    /// The step succeeded; this is the action of the next one.
    Next(Action),
    /// The last step succeeded.
    Done,
    /// The step failed and the run is over.
    Failed(ToolFailure),
    /// No step was running: the report was not taken.
    NotRunning,
}

pub enum ProgressView {
    Next(ActionView),
    Done,
    Failed(ToolFailureView),
    NotRunning,
}

impl View for Progress {
    type V = ProgressView;

    open spec fn view(&self) -> ProgressView {
        match self {
            Progress::Next(action) => ProgressView::Next(action@),
            Progress::Done => ProgressView::Done,
            Progress::Failed(failure) => ProgressView::Failed(failure@),
            Progress::NotRunning => ProgressView::NotRunning,
        }
    }
}

impl SequencerView {
    /// The same run in another state.
    pub open spec fn at(self, state: SequencerState) -> SequencerView {
        SequencerView { state, ..self }
    }

    /// The tool of `step`, with what its command line needs.
    pub open spec fn program(self, step: Step) -> ProgramView {
        match step {
            Step::SetWallpaper => ProgramView::Swww { path: self.path },
            Step::GeneratePalette => ProgramView::Matugen {
                path: self.path,
                matugen_type: self.matugen_type,
            },
            Step::ApplyTheme => ProgramView::Wallust { path: self.path, is_light: self.is_light },
        }
    }

    /// The action of `step`: a trace in a dry run, the tool's command otherwise.
    pub open spec fn action(self, step: Step) -> ActionView {
        planned_action(self.program(step).name(), self.program(step).args(), self.dry_run)
    }

    /// The run after `start`: an idle run is at its first step, any other is
    /// as it was.
    pub open spec fn started(self) -> SequencerView {
        match self.state {
            SequencerState::Idle => self.at(SequencerState::Running(Step::SetWallpaper)),
            _ => self,
        }
    }

    /// The action that `start` hands out: that of the first step, from an idle
    /// run only.
    pub open spec fn first_action(self) -> Option<ActionView> {
        match self.state {
            SequencerState::Idle => Some(self.action(Step::SetWallpaper)),
            _ => None,
        }
    }

    /// The answer to `report`.
    pub open spec fn progress(self, report: StepReportView) -> ProgressView {
        match self.state {
            SequencerState::Running(step) => match failure_of(self.action(step), report) {
                Some(failure) => ProgressView::Failed(failure),
                None => match step.following() {
                    Some(next) => ProgressView::Next(self.action(next)),
                    None => ProgressView::Done,
                },
            },
            _ => ProgressView::NotRunning,
        }
    }

    /// The run after `report` was taken.
    pub open spec fn reported(self, report: StepReportView) -> SequencerView {
        match self.state {
            SequencerState::Running(step) => match failure_of(self.action(step), report) {
                Some(_) => self.at(SequencerState::Failed(step)),
                None => match step.following() {
                    Some(next) => self.at(SequencerState::Running(next)),
                    None => self.at(SequencerState::Done),
                },
            },
            _ => self,
        }
    }
}

/// The step at place `i` of the order, counted from zero.
pub open spec fn step_at(i: int) -> Step {
    if i <= 0 {
        Step::SetWallpaper
    } else if i == 1 {
        Step::GeneratePalette
    } else {
        Step::ApplyTheme
    }
}

impl SequencerView {
    /// The run after `start` and then the reports of `reports`, each taken
    /// in turn.
    pub open spec fn after(self, reports: Seq<StepReportView>) -> SequencerView
        decreases reports.len(),
    {
        if reports.len() == 0 {
            self.started()
        } else {
            self.after(reports.drop_last()).reported(reports.last())
        }
    }

    /// The actions handed out in that time, in order: by `start`, then in
    /// answer to each report.
    pub open spec fn issued(self, reports: Seq<StepReportView>) -> Seq<ActionView>
        decreases reports.len(),
    {
        if reports.len() == 0 {
            match self.first_action() {
                Some(first) => seq![first],
                None => Seq::empty(),
            }
        } else {
            let earlier = self.issued(reports.drop_last());
            match self.after(reports.drop_last()).progress(reports.last()) {
                ProgressView::Next(action) => earlier.push(action),
                _ => earlier,
            }
        }
    }

    /// How many of the first reports of `reports` let their step succeed, up
    /// to the first that does not.
    pub open spec fn leading_successes(self, reports: Seq<StepReportView>) -> nat
        decreases reports.len(),
    {
        if reports.len() == 0 {
            0
        } else {
            let earlier = self.leading_successes(reports.drop_last());
            if earlier == reports.len() - 1 && (self.dry_run || reports.last().is_success()) {
                earlier + 1
            } else {
                earlier
            }
        }
    }
}

/// Where a run stands after any reports, and what it has handed out: with
/// `k` leading successes, the actions of the first `k + 1` steps (of all
/// three from the third success on), in order; done after three successes,
/// failed at step `k + 1` if a report after them was not one, and running
/// that step otherwise.
pub proof fn law_outcome(run: SequencerView, reports: Seq<StepReportView>)
    requires
        run.state is Idle,
    ensures
        run.after(reports) == run.at(run.after(reports).state),
        run.leading_successes(reports) <= reports.len(),
        ({
            let k = run.leading_successes(reports);
            let state = run.after(reports).state;
            let issued = run.issued(reports);
            &&& issued.len() == if k < 3 {
                k + 1
            } else {
                3
            }
            &&& forall|i: int| 0 <= i < issued.len() ==> #[trigger] issued[i] == run.action(step_at(i))
            &&& state == if k >= 3 {
                SequencerState::Done
            } else if k < reports.len() {
                SequencerState::Failed(step_at(k as int))
            } else {
                SequencerState::Running(step_at(k as int))
            }
        }),
    decreases reports.len(),
{
    if reports.len() > 0 {
        let earlier = reports.drop_last();
        law_outcome(run, earlier);
        let before = run.after(earlier);
        let k = run.leading_successes(earlier);
        assert forall|step: Step| #[trigger] before.action(step) == run.action(step) by {}
        if k < 3 && k == earlier.len() {
            let step = step_at(k as int);
            assert(before.state == SequencerState::Running(step));
            assert(run.dry_run ==> failure_of(run.action(step), reports.last()) is None);
            assert(!run.dry_run ==> (failure_of(run.action(step), reports.last()) is None
                <==> reports.last().is_success()));
        }
    }
}

/// Whatever is reported, the actions handed out are those of the first
/// steps, each in its place, and never more than three.
pub proof fn law_fixed_order(run: SequencerView, reports: Seq<StepReportView>)
    requires
        run.state is Idle,
    ensures
        1 <= run.issued(reports).len() <= 3,
        forall|i: int|
            0 <= i < run.issued(reports).len() ==> #[trigger] run.issued(reports)[i] == run.action(
                step_at(i),
            ),
{
    law_outcome(run, reports);
}

/// Where, outside a dry run, the report at place `failed` is the first that
/// is no success, the run has failed at that step, the actions handed out
/// are those of the steps up to it, and no report that follows changes
/// either.
pub proof fn law_abort_on_first_failure(
    run: SequencerView,
    reports: Seq<StepReportView>,
    failed: int,
)
    requires
        run.state is Idle,
        !run.dry_run,
        0 <= failed < reports.len(),
        failed < 3,
        forall|i: int| 0 <= i < failed ==> (#[trigger] reports[i]).is_success(),
        !reports[failed].is_success(),
    ensures
        run.after(reports).state == SequencerState::Failed(step_at(failed)),
        run.issued(reports) == Seq::new((failed + 1) as nat, |i: int| run.action(step_at(i))),
{
    law_outcome(run, reports);
    lemma_leading_successes(run, reports, failed);
    assert(run.issued(reports) =~= Seq::new((failed + 1) as nat, |i: int| run.action(step_at(i))));
}

/// Outside a dry run, the leading successes end at the first report that is
/// no success.
proof fn lemma_leading_successes(run: SequencerView, reports: Seq<StepReportView>, failed: int)
    requires
        !run.dry_run,
        0 <= failed < reports.len(),
        forall|i: int| 0 <= i < failed ==> (#[trigger] reports[i]).is_success(),
        !reports[failed].is_success(),
    ensures
        run.leading_successes(reports) == failed,
        forall|n: int|
            0 <= n <= failed ==> #[trigger] run.leading_successes(reports.take(n)) == n,
    decreases reports.len(),
{
    let earlier = reports.drop_last();
    assert forall|n: int| 0 <= n <= failed implies #[trigger] run.leading_successes(
        reports.take(n),
    ) == n by {
        lemma_all_successes(run, reports.take(n));
    }
    if failed == reports.len() - 1 {
        assert(earlier =~= reports.take(failed));
        assert(run.leading_successes(reports.take(failed)) == failed);
    } else {
        assert forall|i: int| 0 <= i < failed implies (#[trigger] earlier[i]).is_success() by {
            assert(earlier[i] == reports[i]);
        }
        assert(earlier[failed] == reports[failed]);
        lemma_leading_successes(run, earlier, failed);
    }
}

/// Where every report is a success, or in a dry run, all of them are leading
/// successes.
proof fn lemma_all_successes(run: SequencerView, reports: Seq<StepReportView>)
    requires
        run.dry_run || forall|i: int| 0 <= i < reports.len() ==> (#[trigger] reports[i]).is_success(),
    ensures
        run.leading_successes(reports) == reports.len(),
    decreases reports.len(),
{
    if reports.len() > 0 {
        lemma_all_successes(run, reports.drop_last());
    }
}

/// In a dry run no action starts a process and no step fails, whatever is
/// reported; three reports end the run.
pub proof fn law_dry_run(run: SequencerView, reports: Seq<StepReportView>)
    requires
        run.state is Idle,
        run.dry_run,
    ensures
        forall|i: int|
            0 <= i < run.issued(reports).len() ==> #[trigger] run.issued(reports)[i] is Trace,
        !(run.after(reports).state is Failed),
        reports.len() >= 3 <==> run.after(reports).state is Done,
        forall|report: StepReportView|
            !(#[trigger] run.after(reports).progress(report) is Failed),
{
    law_outcome(run, reports);
    lemma_all_successes(run, reports);
    assert forall|report: StepReportView|
        !(#[trigger] run.after(reports).progress(report) is Failed) by {
        let now = run.after(reports);
        assert forall|step: Step| #[trigger] now.action(step) == run.action(step) by {}
    }
}

/// A run in which every step succeeds hands out all three actions and is done
/// after the third report.
pub proof fn law_all_steps_succeed(run: SequencerView, reports: Seq<StepReportView>)
    requires
        run.state is Idle,
        reports.len() >= 3,
        run.dry_run || forall|i: int| 0 <= i < 3 ==> (#[trigger] reports[i]).is_success(),
    ensures
        run.after(reports).state == SequencerState::Done,
        run.issued(reports) == seq![
            run.action(Step::SetWallpaper),
            run.action(Step::GeneratePalette),
            run.action(Step::ApplyTheme),
        ],
{
    law_outcome(run, reports);
    lemma_all_successes(run, reports.take(3));
    lemma_leading_monotone(run, reports, 3);
    assert(run.issued(reports) =~= seq![
        run.action(Step::SetWallpaper),
        run.action(Step::GeneratePalette),
        run.action(Step::ApplyTheme),
    ]);
}

/// The leading successes of a prefix are among those of the whole.
proof fn lemma_leading_monotone(run: SequencerView, reports: Seq<StepReportView>, n: int)
    requires
        0 <= n <= reports.len(),
    ensures
        run.leading_successes(reports.take(n)) <= run.leading_successes(reports),
    decreases reports.len(),
{
    if n == reports.len() {
        assert(reports.take(n) =~= reports);
    } else {
        lemma_leading_monotone(run, reports.drop_last(), n);
        assert(reports.drop_last().take(n) =~= reports.take(n));
    }
}

impl ActionSequencer {
    /// An idle run on the image at `path`.
    pub fn new(path: &str, matugen_type: &str, is_light: bool, dry_run: bool) -> (sequencer: Self)
        ensures
            sequencer@ == (SequencerView {
                path: path@,
                matugen_type: matugen_type@,
                is_light,
                dry_run,
                state: SequencerState::Idle,
            }),
    {
        ActionSequencer {
            path: String::from_str(path),
            matugen_type: String::from_str(matugen_type),
            is_light,
            dry_run,
            state: SequencerState::Idle,
        }
    }

    pub fn state(&self) -> (state: SequencerState)
        ensures
            state == self@.state,
    {
        self.state
    }

    pub fn is_dry_run(&self) -> (dry_run: bool)
        ensures
            dry_run == self@.dry_run,
    {
        self.dry_run
    }

    fn program_for(&self, step: Step) -> (program: Program)
        ensures
            program@ == self@.program(step),
    {
        match step {
            Step::SetWallpaper => Program::swww(self.path.as_str()),
            Step::GeneratePalette => Program::matugen(
                self.path.as_str(),
                self.matugen_type.as_str(),
            ),
            Step::ApplyTheme => Program::wallust(self.path.as_str(), self.is_light),
        }
    }

    fn action_for(&self, step: Step) -> (action: Action)
        ensures
            action@ == self@.action(step),
    {
        self.program_for(step).plan(self.dry_run)
    }

    /// Starts an idle run and hands out the action of the first step. A run
    /// that was started before is left as it is, with nothing to do.
    pub fn start(&mut self) -> (action: Option<Action>)
        ensures
            final(self)@ == old(self)@.started(),
            match action {
                Some(first) => old(self)@.first_action() == Some(first@),
                None => old(self)@.first_action() is None,
            },
    {
        match self.state {
            SequencerState::Idle => {
                let action = self.action_for(Step::SetWallpaper);
                self.state = SequencerState::Running(Step::SetWallpaper);
                Some(action)
            },
            _ => None,
        }
    }

    /// Takes the report on the running step. Where the step succeeded, the
    /// run moves to the next step and hands out its action, or is done after
    /// the last. Where it failed, the run has failed at that step. In a dry
    /// run every step succeeds, whatever the report.
    pub fn report(&mut self, report: StepReport) -> (progress: Progress)
        ensures
            final(self)@ == old(self)@.reported(report@),
            progress@ == old(self)@.progress(report@),
    {
        match self.state {
            SequencerState::Running(step) => {
                let action = self.action_for(step);
                match conclude(&action, report) {
                    Err(failure) => {
                        self.state = SequencerState::Failed(step);
                        Progress::Failed(failure)
                    },
                    Ok(_) => match step.next() {
                        Some(next) => {
                            let action = self.action_for(next);
                            self.state = SequencerState::Running(next);
                            Progress::Next(action)
                        },
                        None => {
                            self.state = SequencerState::Done;
                            Progress::Done
                        },
                    },
                }
            },
            _ => Progress::NotRunning,
        }
    }
}

} // verus!
