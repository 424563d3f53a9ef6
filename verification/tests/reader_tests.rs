use changeforge::reader::{
    find_version, is_version_line, judge_line, open_path, scan_line, LineScan, VersionError,
};

fn lines(text: &str) -> Vec<String> {
    text.lines().map(|l| l.to_string()).collect()
}

#[test]
fn version_of_a_cargo_manifest() {
    let manifest = "[package]\nname = \"demo\"\nversion = \"1.2.3\"\nedition = \"2021\"\n";
    assert_eq!(open_path("Cargo.toml", &lines(manifest)), Ok("1.2.3".to_string()));
}

#[test]
fn version_of_a_python_module() {
    let module = "\"\"\"Demo.\"\"\"\n__version__ = \"0.4.1\"\n";
    assert_eq!(open_path("demo/__init__.py", &lines(module)), Ok("0.4.1".to_string()));
}

#[test]
fn the_first_marked_line_decides() {
    let text = "version = \"1.0.0\"\nversion = \"2.0.0\"\n";
    assert_eq!(open_path("a", &lines(text)), Ok("1.0.0".to_string()));
    let text = "python_version = \"3.10\"\nversion = \"2.0.0\"\n";
    assert_eq!(
        open_path("a", &lines(text)),
        Err(VersionError::Malformed { line: "python_version = \"3.10\"".to_string() })
    );
}

#[test]
fn the_token_may_stand_anywhere_in_the_marked_line() {
    assert_eq!(scan_line("x = \"9.8.7\" # version = later"), LineScan::Version("9.8.7".to_string()));
    assert_eq!(
        scan_line("version = \"a\", \"10.20.30\", \"1.1.1\""),
        LineScan::Version("10.20.30".to_string())
    );
}

#[test]
fn the_token_needs_quotes_and_three_numbers() {
    assert_eq!(scan_line("version = 1.2.3"), LineScan::Malformed);
    assert_eq!(scan_line("version = '1.2.3'"), LineScan::Malformed);
    assert_eq!(scan_line("version = \"1.2\""), LineScan::Malformed);
    assert_eq!(scan_line("version = \"1.2.3.4\""), LineScan::Malformed);
    assert_eq!(scan_line("version = \"1.2.3-rc1\""), LineScan::Malformed);
    assert_eq!(scan_line("version = \"v1.2.3\""), LineScan::Malformed);
    assert_eq!(scan_line("version = \"10.0.200\""), LineScan::Version("10.0.200".to_string()));
}

#[test]
fn the_marker_is_literal() {
    assert!(is_version_line("version = \"1.0.0\""));
    assert!(is_version_line("__version__ = \"1.0.0\""));
    assert!(is_version_line("  my_version = 3"));
    assert!(!is_version_line("version=\"1.0.0\""));
    assert!(!is_version_line("version  = \"1.0.0\""));
    assert!(!is_version_line("__version__= \"1.0.0\""));
    assert!(!is_version_line("Version = \"1.0.0\""));
    assert!(!is_version_line(""));
    assert_eq!(scan_line("version=\"1.0.0\""), LineScan::Unmarked);
    assert_eq!(scan_line("\"1.0.0\""), LineScan::Unmarked);
}

#[test]
fn digits_of_other_scripts_count_as_digits() {
    assert_eq!(
        scan_line("version = \"\u{661}.\u{662}.\u{663}\""),
        LineScan::Version("\u{661}.\u{662}.\u{663}".to_string())
    );
}

#[test]
fn a_line_is_judged_by_marker_and_token() {
    assert_eq!(judge_line(false, None), LineScan::Unmarked);
    assert_eq!(judge_line(false, Some("1.2.3".to_string())), LineScan::Unmarked);
    assert_eq!(judge_line(true, None), LineScan::Malformed);
    assert_eq!(judge_line(true, Some("1.2.3".to_string())), LineScan::Version("1.2.3".to_string()));
}

#[test]
fn a_marked_line_without_a_version_is_an_error() {
    let text = "name = \"demo\"\nversion = { workspace = true }\nversion = \"1.0.0\"\n";
    let err = open_path("Cargo.toml", &lines(text)).unwrap_err();
    assert_eq!(err, VersionError::Malformed { line: "version = { workspace = true }".to_string() });
    assert_eq!(
        err.message(),
        "In the line \"version = { workspace = true }\" it cannot be found a version number."
    );
}

#[test]
fn a_file_without_a_marker_is_an_error() {
    let err = open_path("setup.cfg", &lines("[metadata]\nname = demo\n")).unwrap_err();
    assert_eq!(err, VersionError::NoMarker { path: "setup.cfg".to_string() });
    assert_eq!(
        err.message(),
        "Couldn't find the version in the path setup.cfg. Try with the following version names: [\"version\", \"__version__\"]"
    );
    assert_eq!(
        open_path("empty", &Vec::new()),
        Err(VersionError::NoMarker { path: "empty".to_string() })
    );
}

#[test]
fn the_first_path_decides() {
    let paths = vec!["Cargo.toml".to_string(), "pyproject.toml".to_string()];
    assert_eq!(find_version(&paths, &lines("version = \"0.4.1\"")), Ok("0.4.1".to_string()));
    assert_eq!(
        find_version(&paths, &lines("nothing here")),
        Err(VersionError::NoMarker { path: "Cargo.toml".to_string() })
    );
}
