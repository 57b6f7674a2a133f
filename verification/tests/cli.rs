use wallpaper::cli::{Cli, CliError, Mode};

fn cli() -> Cli {
    Cli {
        light: false,
        gui: false,
        matugen_type: "scheme-tonal-spot".to_string(),
        path: None,
        history: false,
        restore_step: 0,
        dry_run: false,
    }
}

#[test]
fn path_alone_is_the_explicit_path_mode() {
    let args = Cli { path: Some("/a.jpg".to_string()), light: true, dry_run: true, ..cli() };
    assert_eq!(args.mode(), Ok(Mode::ExplicitPath("/a.jpg".to_string())));
}

#[test]
fn gui_alone_is_the_interactive_mode() {
    assert_eq!(Cli { gui: true, ..cli() }.mode(), Ok(Mode::InteractivePick));
}

#[test]
fn history_alone_shows_the_history() {
    assert_eq!(Cli { history: true, ..cli() }.mode(), Ok(Mode::ShowHistory));
}

#[test]
fn restore_step_alone_restores() {
    assert_eq!(Cli { restore_step: 3, ..cli() }.mode(), Ok(Mode::RestoreStep(3)));
    assert_eq!(Cli { restore_step: -2, ..cli() }.mode(), Ok(Mode::RestoreStep(-2)));
}

#[test]
fn no_mode_is_an_error() {
    assert_eq!(cli().mode(), Err(CliError::MissingMode));
    assert_eq!(Cli { light: true, dry_run: true, ..cli() }.mode(), Err(CliError::MissingMode));
}

#[test]
fn two_modes_are_an_error() {
    let both = Cli { gui: true, path: Some("/a.jpg".to_string()), ..cli() };
    assert_eq!(both.mode(), Err(CliError::ConflictingModes));
    let both = Cli { history: true, restore_step: 1, ..cli() };
    assert_eq!(both.mode(), Err(CliError::ConflictingModes));
    let all = Cli { gui: true, path: Some("/a.jpg".to_string()), history: true, restore_step: 1, ..cli() };
    assert_eq!(all.mode(), Err(CliError::ConflictingModes));
}
