//! Planning and settling one external command, and the checks on an image
//! path. Nothing here starts a process or touches the file system: a caller
//! carries out the [`Action`] and reports back what happened.

use crate::text::text_of;
use vstd::prelude::*;
use vstd::string::StringExecFns;

verus! {

/// The words of `words`, one space between neighbours.
pub open spec fn spaced(words: Seq<Seq<char>>) -> Seq<char>
    decreases words.len(),
{
    if words.len() == 0 {
        Seq::empty()
    } else if words.len() == 1 {
        words[0]
    } else {
        spaced(words.drop_last()) + seq![' '] + words.last()
    }
}

/// The line that announces a real run of `program` with `args`.
pub open spec fn running_line(program: Seq<char>, args: Seq<Seq<char>>) -> Seq<char> {
    "Running: "@ + program + seq![' '] + spaced(args)
}

/// The line that stands in for a run of `program` with `args` in a dry run.
pub open spec fn dry_run_line(program: Seq<char>, args: Seq<Seq<char>>) -> Seq<char> {
    "[DRY RUN] Would run: "@ + program + seq![' '] + spaced(args)
}

/// What the caller is to do for one command.
#[derive(Debug, PartialEq, Eq)]
pub enum Action {
    /// Print `line`; start nothing.
    Trace { line: String },
    /// Print `line`, then start `program` with `args` and wait for it to exit.
    Spawn { line: String, program: String, args: Vec<String> },
}

pub enum ActionView {
    Trace { line: Seq<char> },
    Spawn { line: Seq<char>, program: Seq<char>, args: Seq<Seq<char>> },
}

impl View for Action {
    type V = ActionView;

    open spec fn view(&self) -> ActionView {
        match self {
            Action::Trace { line } => ActionView::Trace { line: line@ },
            Action::Spawn { line, program, args } => ActionView::Spawn {
                line: line@,
                program: program@,
                args: args.deep_view(),
            },
        }
    }
}

/// The action for `program` with `args`: a trace in a dry run, a spawn otherwise.
pub open spec fn planned_action(program: Seq<char>, args: Seq<Seq<char>>, dry_run: bool) -> ActionView {
    if dry_run {
        ActionView::Trace { line: dry_run_line(program, args) }
    } else {
        ActionView::Spawn { line: running_line(program, args), program, args }
    }
}

/// What came of carrying out an [`Action`].
#[derive(Debug, PartialEq, Eq)]
pub enum StepReport {
    /// No process was started.
    NotRun,
    /// The process ran to its end. `code` is `None` when it left no exit code
    /// (a signal ended it).
    Exited { code: Option<i32>, stdout: String, stderr: String },
    /// The process could not be started.
    SpawnFailed { reason: String },
}

pub enum StepReportView {
    NotRun,
    Exited { code: Option<i32>, stdout: Seq<char>, stderr: Seq<char> },
    SpawnFailed { reason: Seq<char> },
}

impl View for StepReport {
    type V = StepReportView;

    open spec fn view(&self) -> StepReportView {
        match self {
            StepReport::NotRun => StepReportView::NotRun,
            StepReport::Exited { code, stdout, stderr } => StepReportView::Exited {
                code: *code,
                stdout: stdout@,
                stderr: stderr@,
            },
            StepReport::SpawnFailed { reason } => StepReportView::SpawnFailed { reason: reason@ },
        }
    }
}

impl StepReportView {
    /// The process exited with code zero.
    pub open spec fn is_success(self) -> bool {
        self matches StepReportView::Exited { code, .. } && code == Some(0i32)
    }
}

/// An external tool that did not succeed: which command, and what came back.
#[derive(Debug, PartialEq, Eq)]
pub struct ToolFailure {
    pub program: String,
    pub args: Vec<String>,
    pub report: StepReport,
}

pub struct ToolFailureView {
    pub program: Seq<char>,
    pub args: Seq<Seq<char>>,
    pub report: StepReportView,
}

impl View for ToolFailure {
    type V = ToolFailureView;

    open spec fn view(&self) -> ToolFailureView {
        ToolFailureView {
            program: self.program@,
            args: self.args.deep_view(),
            report: self.report@,
        }
    }
}

/// What of a finished process is passed on to the caller's own output.
#[derive(Debug, PartialEq, Eq)]
pub struct Echo {
    /// For standard output, as it stands.
    pub stdout: Option<String>,
    /// For standard error, followed by a line break.
    pub stderr: Option<String>,
}

/// A captured stream is passed on unless it is empty.
pub open spec fn echoed(stream: Seq<char>) -> Option<Seq<char>> {
    if stream.len() == 0 {
        None
    } else {
        Some(stream)
    }
}

/// The failure, if any, in which `action` ended with `report`. A trace never
/// fails; a spawn fails unless the process exited with code zero.
pub open spec fn failure_of(action: ActionView, report: StepReportView) -> Option<ToolFailureView> {
    match action {
        ActionView::Trace { .. } => None,
        ActionView::Spawn { program, args, .. } => if report.is_success() {
            None
        } else {
            Some(ToolFailureView { program, args, report })
        },
    }
}

/// Joins the argument tokens with single spaces, for display.
pub fn join_args(args: &Vec<String>) -> (joined: String)
    ensures
        joined@ == spaced(args.deep_view()),
{
    let mut joined = String::new();
    let mut i: usize = 0;
    while i < args.len()
        invariant
            i <= args.len(),
            joined@ == spaced(args.deep_view().take(i as int)),
        decreases args.len() - i,
    {
        if i > 0 {
            joined.append(" ");
        }
        joined.append(args[i].as_str());
        proof {
            let words = args.deep_view();
            reveal_strlit(" ");
            assert(" "@ =~= seq![' ']);
            assert(words.take(i + 1).drop_last() =~= words.take(i as int));
            assert(words.take(i + 1).last() == args[i as int]@);
        }
        i += 1;
    }
    proof {
        assert(args.deep_view().take(args.len() as int) =~= args.deep_view());
    }
    joined
}

/// Plans one command. In a dry run the action is a trace line that names the
/// command; otherwise it is the command itself, with the line that announces it.
pub fn run_program_with_dry_run(program: &str, args: &Vec<String>, dry_run: bool) -> (action: Action)
    ensures
        action@ == planned_action(program@, args.deep_view(), dry_run),
{
    let mut line = if dry_run {
        String::from_str("[DRY RUN] Would run: ")
    } else {
        String::from_str("Running: ")
    };
    line.append(program);
    line.append(" ");
    let joined = join_args(args);
    line.append(joined.as_str());
    proof {
        reveal_strlit(" ");
        assert(" "@ =~= seq![' ']);
    }
    if dry_run {
        Action::Trace { line }
    } else {
        Action::Spawn { line, program: String::from_str(program), args: args.clone() }
    }
}

/// Plans a real run of one command.
pub fn run_program(program: &str, args: &Vec<String>) -> (action: Action)
    ensures
        action@ == planned_action(program@, args.deep_view(), false),
{
    run_program_with_dry_run(program, args, false)
}

impl StepReport {
    /// Whether the process exited with code zero.
    pub fn is_success(&self) -> (ok: bool)
        ensures
            ok == self@.is_success(),
    {
        match self {
            StepReport::Exited { code: Some(code), .. } => *code == 0,
            _ => false,
        }
    }

    /// The captured output to pass on: each stream of an exited process that
    /// is not empty, and nothing where no process ran.
    pub fn echo(&self) -> (echo: Echo)
        ensures
            text_of(echo.stdout) == (match self@ {
                StepReportView::Exited { stdout, .. } => echoed(stdout),
                _ => None,
            }),
            text_of(echo.stderr) == (match self@ {
                StepReportView::Exited { stderr, .. } => echoed(stderr),
                _ => None,
            }),
    {
        match self {
            StepReport::Exited { stdout, stderr, .. } => {
                let out = if stdout.as_str().is_empty() {
                    None
                } else {
                    Some(stdout.clone())
                };
                let err = if stderr.as_str().is_empty() {
                    None
                } else {
                    Some(stderr.clone())
                };
                Echo { stdout: out, stderr: err }
            },
            _ => Echo { stdout: None, stderr: None },
        }
    }
}

/// Settles one command: `Ok` for a trace, and for a spawn whose process exited
/// with code zero; otherwise the failure, which names the command and holds
/// the report.
pub fn conclude(action: &Action, report: StepReport) -> (outcome: Result<(), ToolFailure>)
    ensures
        match outcome {
            Ok(_) => failure_of(action@, report@) is None,
            Err(failure) => failure_of(action@, report@) == Some(failure@),
        },
{
    match action {
        Action::Trace { .. } => Ok(()),
        Action::Spawn { program, args, .. } => {
            if report.is_success() {
                Ok(())
            } else {
                Err(ToolFailure { program: program.clone(), args: args.clone(), report })
            }
        },
    }
}

/// `shellexpand::tilde`: `input` with a leading `~` replaced by the user's home
/// directory. Input that does not begin with `~` comes back as it is. Other
/// input comes back as it is too (no home directory is known, or another
/// user's is meant), or with some home directory in place of the `~`.
#[verifier::external_body]
fn expand_tilde(input: &str) -> (expanded: String)
    ensures
        input@.len() == 0 || input@[0] != '~' ==> expanded@ == input@,
        expanded@ == input@ || exists|home: Seq<char>|
            expanded@ == #[trigger] (home + input@.skip(1)),
{
    shellexpand::tilde(input).into_owned()
}

/// The path that `given` stands for: a leading `~` is expanded to the home
/// directory where that can be done.
pub fn expand_path(given: &str) -> (expanded: String)
    ensures
        given@.len() == 0 || given@[0] != '~' ==> expanded@ == given@,
        expanded@ == given@ || exists|home: Seq<char>|
            expanded@ == #[trigger] (home + given@.skip(1)),
{
    expand_tilde(given)
}

/// What the file system says of a path.
#[derive(Debug)]
pub struct PathProbe {
    /// Something exists at the path.
    pub exists: bool,
    /// What exists there is a regular file.
    pub is_file: bool,
    /// The canonical, absolute form of the path, where it could be resolved.
    pub canonical: Option<String>,
}

/// Why a path cannot serve as the image.
#[derive(Debug, Clone, Copy, PartialEq, Eq, Structural)]
pub enum PathError {
    /// Nothing exists at the path.
    PathNotFound,
    /// What exists at the path is not a regular file.
    PathNotAFile,
    /// The path could not be brought into canonical form.
    Unresolvable,
}

/// The first reason, if any, for which a path with this probe is refused.
pub open spec fn path_refusal(exists: bool, is_file: bool, canonical: Option<Seq<char>>) -> Option<
    PathError,
> {
    if !exists {
        Some(PathError::PathNotFound)
    } else if !is_file {
        Some(PathError::PathNotAFile)
    } else if canonical is None {
        Some(PathError::Unresolvable)
    } else {
        None
    }
}

/// Checks a probed path and gives its canonical form. The path must exist,
/// be a regular file and have a canonical form; the checks are made in this
/// order, and the first that fails names the error.
pub fn normalize_and_check_path(probe: PathProbe) -> (checked: Result<String, PathError>)
    ensures
        match checked {
            Ok(canonical) => path_refusal(probe.exists, probe.is_file, text_of(probe.canonical))
                is None && probe.canonical == Some(canonical),
            Err(error) => path_refusal(probe.exists, probe.is_file, text_of(probe.canonical))
                == Some(error),
        },
{
    if !probe.exists {
        return Err(PathError::PathNotFound);
    }
    if !probe.is_file {
        return Err(PathError::PathNotAFile);
    }
    match probe.canonical {
        Some(canonical) => Ok(canonical),
        None => Err(PathError::Unresolvable),
    }
}

} // verus!
