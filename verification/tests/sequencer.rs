use wallpaper::history::{restore_from_history, WallpaperHistory};
use wallpaper::sequencer::{ActionSequencer, Progress, SequencerState, Step};
use wallpaper::utils::{Action, StepReport, ToolFailure};

fn strings(words: &[&str]) -> Vec<String> {
    words.iter().map(|w| w.to_string()).collect()
}

fn success() -> StepReport {
    StepReport::Exited { code: Some(0), stdout: String::new(), stderr: String::new() }
}

fn failure(code: i32) -> StepReport {
    StepReport::Exited { code: Some(code), stdout: String::new(), stderr: "failed".to_string() }
}

fn spawn(line: &str, program: &str, args: &[&str]) -> Action {
    Action::Spawn { line: line.to_string(), program: program.to_string(), args: strings(args) }
}

fn swww(path: &str) -> Action {
    spawn(
        &format!(
            "Running: swww img {} --transition-type any --transition-fps 60 --transition-duration 1",
            path
        ),
        "swww",
        &[
            "img",
            path,
            "--transition-type",
            "any",
            "--transition-fps",
            "60",
            "--transition-duration",
            "1",
        ],
    )
}

/// Runs the sequencer against a list of canned reports and records every
/// action that it hands out.
fn drive(sequencer: &mut ActionSequencer, reports: Vec<StepReport>) -> (Vec<Action>, Vec<Progress>) {
    let mut actions = Vec::new();
    let mut answers = Vec::new();
    if let Some(first) = sequencer.start() {
        actions.push(first);
    }
    for report in reports {
        match sequencer.report(report) {
            Progress::Next(action) => actions.push(action),
            other => answers.push(other),
        }
    }
    (actions, answers)
}

#[test]
fn new_sequencer_is_idle() {
    let sequencer = ActionSequencer::new("/a.jpg", "scheme-neutral", false, false);
    assert_eq!(sequencer.state(), SequencerState::Idle);
    assert!(!sequencer.is_dry_run());
    assert!(ActionSequencer::new("/a.jpg", "scheme-neutral", false, true).is_dry_run());
}

#[test]
fn steps_follow_in_fixed_order() {
    assert_eq!(Step::SetWallpaper.next(), Some(Step::GeneratePalette));
    assert_eq!(Step::GeneratePalette.next(), Some(Step::ApplyTheme));
    assert_eq!(Step::ApplyTheme.next(), None);
}

#[test]
fn all_steps_run_in_order_when_each_succeeds() {
    let mut sequencer = ActionSequencer::new("/a.jpg", "scheme-neutral", true, false);
    let first = sequencer.start().unwrap();
    assert_eq!(first, swww("/a.jpg"));
    assert_eq!(sequencer.state(), SequencerState::Running(Step::SetWallpaper));

    let second = sequencer.report(success());
    assert_eq!(
        second,
        Progress::Next(spawn(
            "Running: matugen image /a.jpg --type scheme-neutral",
            "matugen",
            &["image", "/a.jpg", "--type", "scheme-neutral"]
        ))
    );
    assert_eq!(sequencer.state(), SequencerState::Running(Step::GeneratePalette));

    let third = sequencer.report(success());
    assert_eq!(
        third,
        Progress::Next(spawn(
            "Running: wallust run /a.jpg -k --palette light",
            "wallust",
            &["run", "/a.jpg", "-k", "--palette", "light"]
        ))
    );
    assert_eq!(sequencer.state(), SequencerState::Running(Step::ApplyTheme));

    assert_eq!(sequencer.report(success()), Progress::Done);
    assert_eq!(sequencer.state(), SequencerState::Done);
}

#[test]
fn failure_at_step_two_stops_before_step_three() {
    let mut sequencer = ActionSequencer::new("/a.jpg", "scheme-content", false, false);
    let (actions, answers) =
        drive(&mut sequencer, vec![success(), failure(2), success(), success()]);

    assert_eq!(
        actions,
        vec![
            swww("/a.jpg"),
            spawn(
                "Running: matugen image /a.jpg --type scheme-content",
                "matugen",
                &["image", "/a.jpg", "--type", "scheme-content"]
            ),
        ]
    );
    assert_eq!(
        answers,
        vec![
            Progress::Failed(ToolFailure {
                program: "matugen".to_string(),
                args: strings(&["image", "/a.jpg", "--type", "scheme-content"]),
                report: failure(2),
            }),
            Progress::NotRunning,
            Progress::NotRunning,
        ]
    );
    assert_eq!(sequencer.state(), SequencerState::Failed(Step::GeneratePalette));
}

#[test]
fn failure_at_step_one_runs_nothing_else() {
    let mut sequencer = ActionSequencer::new("/a.jpg", "scheme-content", false, false);
    let (actions, answers) = drive(
        &mut sequencer,
        vec![StepReport::SpawnFailed { reason: "not installed".to_string() }, success()],
    );
    assert_eq!(actions, vec![swww("/a.jpg")]);
    assert_eq!(answers.len(), 2);
    match &answers[0] {
        Progress::Failed(failure) => {
            assert_eq!(failure.program, "swww");
            assert_eq!(
                failure.report,
                StepReport::SpawnFailed { reason: "not installed".to_string() }
            );
        }
        other => panic!("expected a failure, got {:?}", other),
    }
    assert_eq!(sequencer.state(), SequencerState::Failed(Step::SetWallpaper));
}

#[test]
fn failure_at_step_three_is_reported_after_two_successes() {
    let mut sequencer = ActionSequencer::new("/a.jpg", "scheme-content", false, false);
    let missing = StepReport::Exited { code: None, stdout: String::new(), stderr: String::new() };
    let (actions, answers) = drive(&mut sequencer, vec![success(), success(), missing]);
    assert_eq!(actions.len(), 3);
    assert_eq!(
        actions[2],
        spawn("Running: wallust run /a.jpg -k", "wallust", &["run", "/a.jpg", "-k"])
    );
    assert!(matches!(answers[0], Progress::Failed(_)));
    assert_eq!(sequencer.state(), SequencerState::Failed(Step::ApplyTheme));
}

#[test]
fn dry_run_only_traces_and_always_finishes() {
    let mut sequencer = ActionSequencer::new("/a.jpg", "scheme-neutral", true, true);
    let (actions, answers) = drive(
        &mut sequencer,
        vec![
            StepReport::NotRun,
            failure(1),
            StepReport::SpawnFailed { reason: "not installed".to_string() },
        ],
    );
    assert_eq!(
        actions,
        vec![
            Action::Trace {
                line: "[DRY RUN] Would run: swww img /a.jpg --transition-type any --transition-fps 60 --transition-duration 1"
                    .to_string()
            },
            Action::Trace {
                line: "[DRY RUN] Would run: matugen image /a.jpg --type scheme-neutral".to_string()
            },
            Action::Trace {
                line: "[DRY RUN] Would run: wallust run /a.jpg -k --palette light".to_string()
            },
        ]
    );
    assert_eq!(answers, vec![Progress::Done]);
    assert_eq!(sequencer.state(), SequencerState::Done);
}

#[test]
fn start_is_taken_once() {
    let mut sequencer = ActionSequencer::new("/a.jpg", "scheme-neutral", false, false);
    assert!(sequencer.start().is_some());
    assert_eq!(sequencer.start(), None);
    assert_eq!(sequencer.state(), SequencerState::Running(Step::SetWallpaper));
}

#[test]
fn reports_are_not_taken_unless_a_step_runs() {
    let mut sequencer = ActionSequencer::new("/a.jpg", "scheme-neutral", false, false);
    assert_eq!(sequencer.report(success()), Progress::NotRunning);
    assert_eq!(sequencer.state(), SequencerState::Idle);

    let (_, answers) = drive(&mut sequencer, vec![success(), success(), success(), failure(1)]);
    assert_eq!(answers, vec![Progress::Done, Progress::NotRunning]);
    assert_eq!(sequencer.state(), SequencerState::Done);
    assert_eq!(sequencer.start(), None);
}

#[test]
fn restored_entry_runs_with_its_own_scheme() {
    let mut history = WallpaperHistory::default();
    history.add_entry("/a.jpg".to_string(), "scheme-tonal-spot".to_string(), false);
    history.add_entry("/b.jpg".to_string(), "scheme-content".to_string(), true);
    history.add_entry("/a.jpg".to_string(), "scheme-neutral".to_string(), false);

    let entry = restore_from_history(&history, 1, true).unwrap();
    let mut sequencer =
        ActionSequencer::new(&entry.path, &entry.matugen_type, entry.is_light, false);
    let (actions, _) = drive(&mut sequencer, vec![success(), success(), success()]);
    match &actions[1] {
        Action::Spawn { program, args, .. } => {
            assert_eq!(program, "matugen");
            assert_eq!(args, &strings(&["image", "/a.jpg", "--type", "scheme-neutral"]));
        }
        other => panic!("expected a spawn, got {:?}", other),
    }
    match &actions[2] {
        Action::Spawn { program, args, .. } => {
            assert_eq!(program, "wallust");
            assert_eq!(args, &strings(&["run", "/a.jpg", "-k"]));
        }
        other => panic!("expected a spawn, got {:?}", other),
    }
}
