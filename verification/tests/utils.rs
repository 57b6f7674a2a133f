use wallpaper::utils::{
    conclude, expand_path, join_args, normalize_and_check_path, run_program,
    run_program_with_dry_run, Action, Echo, PathError, PathProbe, StepReport, ToolFailure,
};

fn strings(words: &[&str]) -> Vec<String> {
    words.iter().map(|w| w.to_string()).collect()
}

fn exited(code: Option<i32>, stdout: &str, stderr: &str) -> StepReport {
    StepReport::Exited { code, stdout: stdout.to_string(), stderr: stderr.to_string() }
}

#[test]
fn arguments_are_joined_by_single_spaces() {
    assert_eq!(join_args(&strings(&[])), "");
    assert_eq!(join_args(&strings(&["one"])), "one");
    assert_eq!(join_args(&strings(&["one", "two", "three"])), "one two three");
    assert_eq!(join_args(&strings(&["a b", "", "c"])), "a b  c");
}

#[test]
fn dry_run_gives_a_trace_line() {
    let action = run_program_with_dry_run("swww", &strings(&["img", "/a.jpg"]), true);
    assert_eq!(action, Action::Trace { line: "[DRY RUN] Would run: swww img /a.jpg".to_string() });
}

#[test]
fn real_run_gives_the_command() {
    let args = strings(&["img", "/a.jpg"]);
    let action = run_program_with_dry_run("swww", &args, false);
    assert_eq!(
        action,
        Action::Spawn {
            line: "Running: swww img /a.jpg".to_string(),
            program: "swww".to_string(),
            args: args.clone(),
        }
    );
    assert_eq!(run_program("swww", &args), action);
}

#[test]
fn command_without_arguments_keeps_the_space() {
    assert_eq!(
        run_program_with_dry_run("tool", &strings(&[]), true),
        Action::Trace { line: "[DRY RUN] Would run: tool ".to_string() }
    );
    match run_program("tool", &strings(&[])) {
        Action::Spawn { line, .. } => assert_eq!(line, "Running: tool "),
        other => panic!("expected a spawn, got {:?}", other),
    }
}

#[test]
fn exit_code_zero_is_success() {
    let action = run_program("swww", &strings(&["img", "/a.jpg"]));
    assert!(exited(Some(0), "", "").is_success());
    assert_eq!(conclude(&action, exited(Some(0), "out", "err")), Ok(()));
}

#[test]
fn other_exit_codes_fail_the_command() {
    let args = strings(&["img", "/a.jpg"]);
    let action = run_program("swww", &args);
    let report = exited(Some(1), "", "no daemon");
    assert!(!report.is_success());
    assert_eq!(
        conclude(&action, report),
        Err(ToolFailure {
            program: "swww".to_string(),
            args: args.clone(),
            report: exited(Some(1), "", "no daemon"),
        })
    );
    assert!(conclude(&action, exited(Some(-1), "", "")).is_err());
    assert!(conclude(&action, exited(Some(255), "", "")).is_err());
}

#[test]
fn missing_exit_code_fails_the_command() {
    let args = strings(&["image", "/a.jpg"]);
    let action = run_program("matugen", &args);
    let failure = conclude(&action, exited(None, "partial", "")).unwrap_err();
    assert_eq!(failure.program, "matugen");
    assert_eq!(failure.args, args);
    assert_eq!(failure.report, exited(None, "partial", ""));
}

#[test]
fn spawn_failure_fails_the_command() {
    let args = strings(&["run", "/a.jpg", "-k"]);
    let action = run_program("wallust", &args);
    let report = StepReport::SpawnFailed { reason: "No such file or directory".to_string() };
    assert!(!report.is_success());
    let failure = conclude(&action, report).unwrap_err();
    assert_eq!(failure.program, "wallust");
    assert_eq!(
        failure.report,
        StepReport::SpawnFailed { reason: "No such file or directory".to_string() }
    );
    assert!(conclude(&action, StepReport::NotRun).is_err());
}

#[test]
fn trace_never_fails() {
    let action = run_program_with_dry_run("swww", &strings(&["img", "/a.jpg"]), true);
    assert_eq!(conclude(&action, StepReport::NotRun), Ok(()));
    assert_eq!(conclude(&action, exited(Some(1), "", "boom")), Ok(()));
    assert_eq!(conclude(&action, StepReport::SpawnFailed { reason: "gone".to_string() }), Ok(()));
}

#[test]
fn only_streams_that_are_not_empty_are_echoed() {
    assert_eq!(
        exited(Some(0), "out", "err").echo(),
        Echo { stdout: Some("out".to_string()), stderr: Some("err".to_string()) }
    );
    assert_eq!(exited(Some(0), "", "err").echo(), Echo { stdout: None, stderr: Some("err".to_string()) });
    assert_eq!(exited(Some(3), "out", "").echo(), Echo { stdout: Some("out".to_string()), stderr: None });
    assert_eq!(exited(None, "", "").echo(), Echo { stdout: None, stderr: None });
    assert_eq!(StepReport::NotRun.echo(), Echo { stdout: None, stderr: None });
    assert_eq!(
        StepReport::SpawnFailed { reason: "gone".to_string() }.echo(),
        Echo { stdout: None, stderr: None }
    );
}

#[test]
fn path_without_tilde_is_not_expanded() {
    assert_eq!(expand_path("/test/image.jpg"), "/test/image.jpg");
    assert_eq!(expand_path("relative/~/image.jpg"), "relative/~/image.jpg");
    assert_eq!(expand_path(""), "");
}

#[test]
fn leading_tilde_is_expanded_to_the_home_directory() {
    let expanded = expand_path("~/pictures/a.jpg");
    assert!(expanded.ends_with("/pictures/a.jpg"));
    assert_ne!(expanded, "~/pictures/a.jpg");
    assert!(!expanded.starts_with('~'));
    let home = expand_path("~");
    assert_eq!(expanded, format!("{}/pictures/a.jpg", home));
}

#[test]
fn tilde_of_another_user_is_left_alone() {
    assert_eq!(expand_path("~someone/a.jpg"), "~someone/a.jpg");
}

fn probe(exists: bool, is_file: bool, canonical: Option<&str>) -> PathProbe {
    PathProbe { exists, is_file, canonical: canonical.map(|c| c.to_string()) }
}

#[test]
fn checked_path_is_the_canonical_one() {
    assert_eq!(
        normalize_and_check_path(probe(true, true, Some("/real/a.jpg"))),
        Ok("/real/a.jpg".to_string())
    );
}

#[test]
fn missing_path_is_not_found() {
    assert_eq!(normalize_and_check_path(probe(false, false, None)), Err(PathError::PathNotFound));
    assert_eq!(
        normalize_and_check_path(probe(false, true, Some("/real/a.jpg"))),
        Err(PathError::PathNotFound)
    );
}

#[test]
fn directory_is_not_a_file() {
    assert_eq!(
        normalize_and_check_path(probe(true, false, Some("/real"))),
        Err(PathError::PathNotAFile)
    );
    assert_eq!(normalize_and_check_path(probe(true, false, None)), Err(PathError::PathNotAFile));
}

#[test]
fn path_without_canonical_form_is_unresolvable() {
    assert_eq!(normalize_and_check_path(probe(true, true, None)), Err(PathError::Unresolvable));
}
