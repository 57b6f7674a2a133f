//! The three external tools and the exact command line of each.

use crate::utils::{planned_action, run_program, run_program_with_dry_run, Action};
use vstd::prelude::*;
use vstd::string::StringExecFns;

verus! {

/// One external tool, with only what its command line needs.
#[derive(Debug)]
pub enum Program {
    /// Derives the colour palette from the image.
    Matugen { path: String, matugen_type: String },
    /// Applies the theme to the terminal.
    Wallust { path: String, is_light: bool },
    /// Sets the wallpaper.
    Swww { path: String },
}

pub enum ProgramView {
    Matugen { path: Seq<char>, matugen_type: Seq<char> },
    Wallust { path: Seq<char>, is_light: bool },
    Swww { path: Seq<char> },
}

impl View for Program {
    type V = ProgramView;

    open spec fn view(&self) -> ProgramView {
        match self {
            Program::Matugen { path, matugen_type } => ProgramView::Matugen {
                path: path@,
                matugen_type: matugen_type@,
            },
            Program::Wallust { path, is_light } => ProgramView::Wallust {
                path: path@,
                is_light: *is_light,
            },
            Program::Swww { path } => ProgramView::Swww { path: path@ },
        }
    }
}

impl ProgramView {
    /// The name under which the tool is started.
    pub open spec fn name(self) -> Seq<char> {
        match self {
            ProgramView::Matugen { .. } => "matugen"@,
            ProgramView::Wallust { .. } => "wallust"@,
            ProgramView::Swww { .. } => "swww"@,
        }
    }

    /// The argument tokens, in order.
    pub open spec fn args(self) -> Seq<Seq<char>> {
        match self {
            ProgramView::Matugen { path, matugen_type } => seq![
                "image"@,
                path,
                "--type"@,
                matugen_type,
            ],
            ProgramView::Wallust { path, is_light } => if is_light {
                seq!["run"@, path, "-k"@, "--palette"@, "light"@]
            } else {
                seq!["run"@, path, "-k"@]
            },
            ProgramView::Swww { path } => seq![
                "img"@,
                path,
                "--transition-type"@,
                "any"@,
                "--transition-fps"@,
                "60"@,
                "--transition-duration"@,
                "1"@,
            ],
        }
    }
}

impl Program {
    pub fn matugen(path: &str, matugen_type: &str) -> (program: Self)
        ensures
            program@ == (ProgramView::Matugen { path: path@, matugen_type: matugen_type@ }),
    {
        Program::Matugen {
            path: String::from_str(path),
            matugen_type: String::from_str(matugen_type),
        }
    }

    pub fn wallust(path: &str, is_light: bool) -> (program: Self)
        ensures
            program@ == (ProgramView::Wallust { path: path@, is_light }),
    {
        Program::Wallust { path: String::from_str(path), is_light }
    }

    pub fn swww(path: &str) -> (program: Self)
        ensures
            program@ == (ProgramView::Swww { path: path@ }),
    {
        Program::Swww { path: String::from_str(path) }
    }

    pub fn get_program_name(&self) -> (name: &'static str)
        ensures
            name@ == self@.name(),
    {
        match self {
            Program::Matugen { .. } => "matugen",
            Program::Wallust { .. } => "wallust",
            Program::Swww { .. } => "swww",
        }
    }

    /// The argument tokens for the tool, each a token of its own.
    pub fn get_args(&self) -> (args: Vec<String>)
        ensures
            args.deep_view() == self@.args(),
    {
        match self {
            Program::Matugen { path, matugen_type } => {
                let args = vec![
                    String::from_str("image"),
                    path.clone(),
                    String::from_str("--type"),
                    matugen_type.clone(),
                ];
                assert(args.deep_view() =~= self@.args());
                args
            },
            Program::Wallust { path, is_light } => {
                let mut args = vec![
                    String::from_str("run"),
                    path.clone(),
                    String::from_str("-k"),
                ];
                if *is_light {
                    args.push(String::from_str("--palette"));
                    args.push(String::from_str("light"));
                }
                assert(args.deep_view() =~= self@.args());
                args
            },
            Program::Swww { path } => {
                let args = vec![
                    String::from_str("img"),
                    path.clone(),
                    String::from_str("--transition-type"),
                    String::from_str("any"),
                    String::from_str("--transition-fps"),
                    String::from_str("60"),
                    String::from_str("--transition-duration"),
                    String::from_str("1"),
                ];
                assert(args.deep_view() =~= self@.args());
                args
            },
        }
    }

    /// Plans the tool's run: a trace line in a dry run, the command otherwise.
    pub fn plan(&self, dry_run: bool) -> (action: Action)
        ensures
            action@ == planned_action(self@.name(), self@.args(), dry_run),
    {
        let program_name = self.get_program_name();
        let args = self.get_args();
        run_program_with_dry_run(program_name, &args, dry_run)
    }

    /// Plans a real run of the tool.
    pub fn execute(&self) -> (action: Action)
        ensures
            action@ == planned_action(self@.name(), self@.args(), false),
    {
        let program_name = self.get_program_name();
        let args = self.get_args();
        run_program(program_name, &args)
    }
}

/// Plans the palette generation from the image at `path`.
pub fn exec_matugen(path: &str, matugen_type: &str) -> (action: Action)
    ensures
        action@ == planned_action(
            "matugen"@,
            seq!["image"@, path@, "--type"@, matugen_type@],
            false,
        ),
{
    Program::matugen(path, matugen_type).execute()
}

/// Plans the theme run on the image at `path`.
pub fn exec_wal(path: &str, is_light: bool) -> (action: Action)
    ensures
        action@ == planned_action(
            "wallust"@,
            if is_light {
                seq!["run"@, path@, "-k"@, "--palette"@, "light"@]
            } else {
                seq!["run"@, path@, "-k"@]
            },
            false,
        ),
{
    Program::wallust(path, is_light).execute()
}

/// Plans setting the image at `path` as wallpaper.
pub fn exec_swww(path: &str) -> (action: Action)
    ensures
        action@ == planned_action(
            "swww"@,
            seq![
                "img"@,
                path@,
                "--transition-type"@,
                "any"@,
                "--transition-fps"@,
                "60"@,
                "--transition-duration"@,
                "1"@,
            ],
            false,
        ),
{
    Program::swww(path).execute()
}

} // verus!
