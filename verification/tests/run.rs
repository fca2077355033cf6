use envlint::check::check_files;
use envlint::run::{exit_code, parse_paths, report_lines, usage_message, FAILURE, SUCCESS};

fn strings(items: &[&str]) -> Vec<String> {
    items.iter().map(|s| s.to_string()).collect()
}

#[test]
fn no_argument_names_no_directory() {
    assert_eq!(parse_paths(None), None);
    assert_eq!(parse_paths(Some("")), None);
}

#[test]
fn paths_are_the_pieces_between_commas() {
    assert_eq!(parse_paths(Some("a,b")), Some(strings(&["a", "b"])));
    assert_eq!(parse_paths(Some("only")), Some(strings(&["only"])));
    assert_eq!(parse_paths(Some("a,,b,")), Some(strings(&["a", "", "b", ""])));
    assert_eq!(parse_paths(Some(",")), Some(strings(&["", ""])));
    assert_eq!(parse_paths(Some("./x y, z")), Some(strings(&["./x y", " z"])));
}

#[test]
fn usage_text() {
    assert_eq!(usage_message(), "Error: No file paths provided!");
}

#[test]
fn exit_code_follows_the_errors() {
    assert_eq!(SUCCESS, 0);
    assert_eq!(FAILURE, 1);
    assert_eq!(exit_code(&strings(&[])), 0);
    assert_eq!(exit_code(&strings(&["Missing .env file at a"])), 1);
    assert_eq!(exit_code(&strings(&["one", "two"])), 1);
}

#[test]
fn warnings_alone_do_not_fail_a_run() {
    let mut errors: Vec<String> = Vec::new();
    let mut warnings: Vec<String> = Vec::new();
    check_files("a", Some("A=1\nB=2"), Some("A=1"), &mut errors, &mut warnings);
    check_files("b", Some("A=1"), None, &mut errors, &mut warnings);
    assert_eq!(warnings.len(), 2);
    assert_eq!(exit_code(&errors), 0);
}

#[test]
fn each_kind_of_error_fails_a_run() {
    let inputs: [(Option<&str>, Option<&str>); 3] =
        [(None, Some("A=1")), (Some(""), Some("A=1")), (Some("B=1"), Some("A=1"))];
    for (env, example) in inputs {
        let mut errors: Vec<String> = Vec::new();
        let mut warnings: Vec<String> = Vec::new();
        check_files("fine", Some("A=1"), Some("A=2"), &mut errors, &mut warnings);
        assert_eq!(exit_code(&errors), 0);
        check_files("bad", env, example, &mut errors, &mut warnings);
        check_files("fine", Some("A=1"), Some("A=2"), &mut errors, &mut warnings);
        assert_eq!(errors.len(), 1);
        assert_eq!(exit_code(&errors), 1);
    }
}

#[test]
fn report_prints_errors_then_warnings() {
    let errors = strings(&["first", "second"]);
    let warnings = strings(&["third"]);
    assert_eq!(
        report_lines(&errors, &warnings),
        strings(&["ERROR: first", "ERROR: second", "WARNING: third"])
    );
    assert_eq!(report_lines(&strings(&[]), &warnings), strings(&["WARNING: third"]));
    assert_eq!(report_lines(&strings(&[]), &strings(&[])), strings(&[]));
}

#[test]
fn two_directories_are_reported_in_order() {
    let paths = parse_paths(Some("a,b")).unwrap();
    assert_eq!(paths, strings(&["a", "b"]));
    let mut errors: Vec<String> = Vec::new();
    let mut warnings: Vec<String> = Vec::new();
    check_files(&paths[0], None, Some(""), &mut errors, &mut warnings);
    check_files(&paths[1], Some("K=1\nL=2"), Some("M=\nK="), &mut errors, &mut warnings);
    assert_eq!(errors, strings(&["Missing .env file at a", "M missing from .env"]));
    assert_eq!(warnings, strings(&["L unused in .env"]));
    assert_eq!(
        report_lines(&errors, &warnings),
        strings(&[
            "ERROR: Missing .env file at a",
            "ERROR: M missing from .env",
            "WARNING: L unused in .env",
        ])
    );
    assert_eq!(exit_code(&errors), 1);
}

#[test]
fn directories_are_checked_independently() {
    let mut errors: Vec<String> = Vec::new();
    let mut warnings: Vec<String> = Vec::new();
    check_files("a", None, None, &mut errors, &mut warnings);
    check_files("b", None, None, &mut errors, &mut warnings);
    assert_eq!(errors, strings(&["Missing .env file at a", "Missing .env file at b"]));
    assert_eq!(
        warnings,
        strings(&["Missing .env.example file at a", "Missing .env.example file at b"])
    );
}
