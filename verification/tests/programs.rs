use wallpaper::programs::{exec_matugen, exec_swww, exec_wal, Program};
use wallpaper::utils::Action;

#[test]
fn test_program_matugen_creation() {
    let path = "/test/image.jpg";
    let program = Program::matugen(path, "scheme-tonal-spot");

    match program {
        Program::Matugen {
            path: p,
            matugen_type,
        } => {
            assert_eq!(p, "/test/image.jpg");
            assert_eq!(matugen_type, "scheme-tonal-spot");
        }
        _ => panic!("Expected Matugen variant"),
    }
}

#[test]
fn test_program_wallust_creation() {
    let path = "/test/image.jpg";
    let program = Program::wallust(path, true);

    match program {
        Program::Wallust { path: p, is_light } => {
            assert_eq!(p, "/test/image.jpg");
            assert!(is_light);
        }
        _ => panic!("Expected Wallust variant"),
    }
}

#[test]
fn test_program_swww_creation() {
    let path = "/test/image.jpg";
    let program = Program::swww(path);

    match program {
        Program::Swww { path: p } => {
            assert_eq!(p, "/test/image.jpg");
        }
        _ => panic!("Expected Swww variant"),
    }
}

#[test]
fn test_program_names() {
    let path = "/test/image.jpg";

    assert_eq!(Program::matugen(path, "test").get_program_name(), "matugen");
    assert_eq!(Program::wallust(path, false).get_program_name(), "wallust");
    assert_eq!(Program::swww(path).get_program_name(), "swww");
}

#[test]
fn test_matugen_args() {
    let path = "/test/image.jpg";
    let program = Program::matugen(path, "scheme-content");
    let args = program.get_args();

    assert_eq!(args.len(), 4);
    assert_eq!(args[0], "image");
    assert_eq!(args[1], "/test/image.jpg");
    assert_eq!(args[2], "--type");
    assert_eq!(args[3], "scheme-content");
}

#[test]
fn test_wallust_args_dark() {
    let path = "/test/image.jpg";
    let program = Program::wallust(path, false);
    let args = program.get_args();

    assert_eq!(args.len(), 3);
    assert_eq!(args[0], "run");
    assert_eq!(args[1], "/test/image.jpg");
    assert_eq!(args[2], "-k");
}

#[test]
fn test_wallust_args_light() {
    let path = "/test/image.jpg";
    let program = Program::wallust(path, true);
    let args = program.get_args();

    assert_eq!(args.len(), 5);
    assert_eq!(args[0], "run");
    assert_eq!(args[1], "/test/image.jpg");
    assert_eq!(args[2], "-k");
    assert_eq!(args[3], "--palette");
    assert_eq!(args[4], "light");
}

#[test]
fn test_swww_args() {
    let path = "/test/image.jpg";
    let program = Program::swww(path);
    let args = program.get_args();

    assert_eq!(args.len(), 8);
    assert_eq!(args[0], "img");
    assert_eq!(args[1], "/test/image.jpg");
    assert_eq!(args[2], "--transition-type");
    assert_eq!(args[3], "any");
    assert_eq!(args[4], "--transition-fps");
    assert_eq!(args[5], "60");
    assert_eq!(args[6], "--transition-duration");
    assert_eq!(args[7], "1");
}

fn strings(words: &[&str]) -> Vec<String> {
    words.iter().map(|w| w.to_string()).collect()
}

#[test]
fn execute_plans_a_real_run() {
    let action = Program::matugen("/a.jpg", "scheme-neutral").execute();
    assert_eq!(
        action,
        Action::Spawn {
            line: "Running: matugen image /a.jpg --type scheme-neutral".to_string(),
            program: "matugen".to_string(),
            args: strings(&["image", "/a.jpg", "--type", "scheme-neutral"]),
        }
    );
}

#[test]
fn plan_in_a_dry_run_is_a_trace() {
    let action = Program::wallust("/a.jpg", true).plan(true);
    assert_eq!(
        action,
        Action::Trace { line: "[DRY RUN] Would run: wallust run /a.jpg -k --palette light".to_string() }
    );
    let action = Program::wallust("/a.jpg", false).plan(false);
    assert_eq!(
        action,
        Action::Spawn {
            line: "Running: wallust run /a.jpg -k".to_string(),
            program: "wallust".to_string(),
            args: strings(&["run", "/a.jpg", "-k"]),
        }
    );
}

#[test]
fn exec_functions_plan_each_tool() {
    assert_eq!(exec_matugen("/p.png", "scheme-content"), Program::matugen("/p.png", "scheme-content").execute());
    assert_eq!(exec_wal("/p.png", true), Program::wallust("/p.png", true).execute());
    assert_eq!(exec_wal("/p.png", false), Program::wallust("/p.png", false).execute());
    assert_eq!(
        exec_swww("/p.png"),
        Action::Spawn {
            line: "Running: swww img /p.png --transition-type any --transition-fps 60 --transition-duration 1"
                .to_string(),
            program: "swww".to_string(),
            args: strings(&[
                "img",
                "/p.png",
                "--transition-type",
                "any",
                "--transition-fps",
                "60",
                "--transition-duration",
                "1"
            ]),
        }
    );
}
