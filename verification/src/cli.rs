//! The parsed command line and the one primary mode that it asks for.

use vstd::prelude::*;

verus! {

/// The command line, as parsed.
#[derive(Debug)]
pub struct Cli {
    /// Use light palette mode
    pub light: bool,
    /// Open graphical file chooser
    pub gui: bool,
    /// The palette scheme
    pub matugen_type: String,
    /// Path to image
    pub path: Option<String>,
    /// Show wallpaper history
    pub history: bool,
    /// The 1-based history entry to restore; zero where none is asked for
    pub restore_step: i32,
    /// Show what would be executed without running commands
    pub dry_run: bool,
}

/// What one invocation is to do.
#[derive(Debug, PartialEq, Eq)]
pub enum Mode {
    /// Let the user choose the image in a file chooser.
    InteractivePick,
    /// Use the image at this path.
    ExplicitPath(String),
    /// Show the history.
    ShowHistory,
    /// Apply the history entry of this 1-based step again.
    RestoreStep(i32),
}

pub enum ModeView {
    InteractivePick,
    ExplicitPath(Seq<char>),
    ShowHistory,
    RestoreStep(i32),
}

impl View for Mode {
    type V = ModeView;

    open spec fn view(&self) -> ModeView {
        match self {
            Mode::InteractivePick => ModeView::InteractivePick,
            Mode::ExplicitPath(path) => ModeView::ExplicitPath(path@),
            Mode::ShowHistory => ModeView::ShowHistory,
            Mode::RestoreStep(step) => ModeView::RestoreStep(*step),
        }
    }
}

/// Why a command line names no mode.
#[derive(Debug, Clone, Copy, PartialEq, Eq, Structural)]
pub enum CliError {
    /// None of the primary modes was asked for.
    MissingMode,
    /// More than one primary mode was asked for.
    ConflictingModes,
}

/// One if `asked`, else zero.
pub open spec fn one_if(asked: bool) -> nat {
    if asked {
        1
    } else {
        0
    }
}

impl Cli {
    /// How many primary modes the command line asks for: the file chooser,
    /// a path, the history, a restore step other than zero.
    pub open spec fn modes_asked(&self) -> nat {
        one_if(self.gui) + one_if(self.path is Some) + one_if(self.history) + one_if(
            self.restore_step != 0,
        )
    }

    /// The mode asked for, where it is the only one.
    pub open spec fn only_mode(&self) -> ModeView {
        if self.gui {
            ModeView::InteractivePick
        } else if self.history {
            ModeView::ShowHistory
        } else if self.restore_step != 0 {
            ModeView::RestoreStep(self.restore_step)
        } else {
            ModeView::ExplicitPath(self.path->0@)
        }
    }

    /// The primary mode. The command line must ask for exactly one.
    pub fn mode(&self) -> (mode: Result<Mode, CliError>)
        ensures
            match mode {
                Ok(chosen) => self.modes_asked() == 1 && chosen@ == self.only_mode(),
                Err(CliError::MissingMode) => self.modes_asked() == 0,
                Err(CliError::ConflictingModes) => self.modes_asked() > 1,
            },
    {
        let mut asked: u8 = 0;
        if self.gui {
            asked += 1;
        }
        if self.path.is_some() {
            asked += 1;
        }
        if self.history {
            asked += 1;
        }
        if self.restore_step != 0 {
            asked += 1;
        }
        if asked == 0 {
            Err(CliError::MissingMode)
        } else if asked > 1 {
            Err(CliError::ConflictingModes)
        } else if self.gui {
            Ok(Mode::InteractivePick)
        } else if self.history {
            Ok(Mode::ShowHistory)
        } else if self.restore_step != 0 {
            Ok(Mode::RestoreStep(self.restore_step))
        } else {
            match &self.path {
                Some(path) => Ok(Mode::ExplicitPath(path.clone())),
                None => Err(CliError::MissingMode),
            }
        }
    }
}

} // verus!
