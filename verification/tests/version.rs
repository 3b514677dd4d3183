use pyo3build::version::{
    checked_parse_interpreter_version, checked_version_from_env, is_env_readable,
    parse_interpreter_version, read_feature, read_version, version_from_env, PythonVersion,
};

fn version(major: u8, minor: Option<u8>) -> PythonVersion {
    PythonVersion { major, minor, kind: None }
}

fn vars(names: &[&str]) -> Vec<(String, String)> {
    names.iter().map(|n| (n.to_string(), "1".to_string())).collect()
}

fn group(s: &str) -> Option<String> {
    Some(s.to_string())
}

#[test]
fn any_minor_will_do_one_way_only() {
    assert!(version(3, None) == version(3, Some(6)));
    assert!(version(3, Some(6)) != version(3, None));
    assert!(version(3, Some(6)) == version(3, Some(6)));
    assert!(version(3, Some(6)) != version(3, Some(7)));
    assert!(version(2, None) != version(3, Some(6)));
    assert!(version(3, None) == version(3, None));
}

#[test]
fn kind_plays_no_part_in_matching() {
    let pypy = PythonVersion { major: 3, minor: Some(5), kind: group("pypy") };
    let cpython = PythonVersion { major: 3, minor: Some(5), kind: group("cpython") };
    assert!(pypy == cpython);
}

#[test]
fn versions_are_printed() {
    assert_eq!(version(3, Some(6)).to_string(), "3.6");
    assert_eq!(version(3, None).to_string(), "3.*");
    assert_eq!(version(255, Some(10)).to_string(), "255.10");
}

#[test]
fn version_query_is_read() {
    assert_eq!(parse_interpreter_version("(3, 6)"), Ok((3, 6)));
    assert_eq!(parse_interpreter_version("(2, 7)\r"), Ok((2, 7)));
    assert_eq!(parse_interpreter_version("version (3, 12) or (3, 13)"), Ok((3, 12)));
    assert_eq!(parse_interpreter_version("((003, 011)"), Ok((3, 11)));
    assert_eq!(parse_interpreter_version("(3,6) (3, ) (4, 5)"), Ok((4, 5)));
    assert_eq!(parse_interpreter_version("\u{e9}(3, 6)\u{e9}"), Ok((3, 6)));
}

#[test]
fn unexpected_version_query_is_refused() {
    for line in ["", "3.6", "(3,6)", "(3, 6", "(, 6)", "(-3, 6)"] {
        assert_eq!(
            parse_interpreter_version(line),
            Err(format!("Unexpected response to version query {}", line))
        );
    }
}

#[test]
fn version_that_does_not_fit_is_told() {
    assert_eq!(checked_parse_interpreter_version("(256, 1)"), None);
    assert_eq!(checked_parse_interpreter_version("(3, 1000) (3, 6)"), None);
    assert_eq!(checked_parse_interpreter_version("(\u{0663}, 6)"), None);
    assert_eq!(checked_parse_interpreter_version("(3, 6)"), Some(Ok((3, 6))));
}

#[test]
fn every_version_is_read_back() {
    for major in [0u8, 2, 3, 10, 255] {
        for minor in 0..=255u8 {
            let line = format!("({}, {})", major, minor);
            assert_eq!(parse_interpreter_version(&line), Ok((major, minor)));
        }
    }
}

#[test]
fn captured_versions_are_read() {
    let found = Some(vec![group("(3, 6)"), group("3"), group("6")]);
    assert_eq!(read_version(&found, "x"), Some(Ok((3, 6))));
    assert_eq!(
        read_version(&None, "x"),
        Some(Err("Unexpected response to version query x".to_string()))
    );
    assert_eq!(read_version(&Some(vec![group("3")]), "x"), None);
    assert_eq!(read_version(&Some(vec![None, group("3"), group("300")]), "x"), None);
}

#[test]
fn captured_features_are_read() {
    let v = read_feature(&vec![group("PYTHON3_5"), group("3"), group("_5"), group("5")], true).unwrap();
    assert_eq!((v.major, v.minor, v.kind), (3, Some(5), group("pypy")));
    let v = read_feature(&vec![group("PYTHON3"), group("3"), None, None], false).unwrap();
    assert_eq!((v.major, v.minor, v.kind), (3, None, group("cpython")));
    assert!(read_feature(&vec![None, group("3"), None, group("256")], false).is_none());
    assert!(read_feature(&vec![], false).is_none());
}

#[test]
fn explicit_feature_takes_priority() {
    let names = ["PATH", "CARGO_FEATURE_PYTHON3", "CARGO_FEATURE_PYTHON3_5", "\u{e9}"];
    let v = version_from_env(&vars(&names), false).unwrap();
    assert_eq!((v.major, v.minor, v.kind), (3, Some(5), group("cpython")));
    let names = ["CARGO_FEATURE_PYTHON3_5", "CARGO_FEATURE_PYTHON3"];
    let v = version_from_env(&vars(&names), true).unwrap();
    assert_eq!((v.major, v.minor, v.kind), (3, Some(5), group("pypy")));
}

#[test]
fn last_feature_in_order_selects() {
    let names = ["CARGO_FEATURE_PYTHON2", "CARGO_FEATURE_PYTHON3", "CARGO_FEATURE_PYTHON2_7"];
    let v = version_from_env(&vars(&names), false).unwrap();
    assert_eq!((v.major, v.minor), (3, None));
    // The order is that of texts, not of numbers.
    let names = ["CARGO_FEATURE_PYTHON3_10", "CARGO_FEATURE_PYTHON3_9"];
    let v = version_from_env(&vars(&names), false).unwrap();
    assert_eq!((v.major, v.minor), (3, Some(9)));
}

#[test]
fn feature_may_stand_inside_a_name() {
    let v = version_from_env(&vars(&["X_CARGO_FEATURE_PYTHON3_X"]), false).unwrap();
    assert_eq!((v.major, v.minor), (3, None));
    let v = version_from_env(&vars(&["CARGO_FEATURE_PYTHON3_7_8"]), false).unwrap();
    assert_eq!((v.major, v.minor), (3, Some(7)));
    let v = version_from_env(&vars(&["\u{e9}CARGO_FEATURE_PYTHON3_7"]), false).unwrap();
    assert_eq!((v.major, v.minor), (3, Some(7)));
}

#[test]
fn missing_feature_is_told() {
    let message =
        "Python version feature was not found. At least one python version feature must be enabled.";
    for names in [vec![], vec!["PATH", "CARGO_FEATURE_PYTHON", "CARGO_FEATURE_PYTHON_3"]] {
        match version_from_env(&vars(&names), false) {
            Err(e) => assert_eq!(e, message),
            Ok(_) => panic!("a version was found"),
        }
    }
}

#[test]
fn feature_that_does_not_fit_is_told() {
    assert!(!is_env_readable(&vars(&["CARGO_FEATURE_PYTHON3_256"])));
    assert!(checked_version_from_env(&vars(&["CARGO_FEATURE_PYTHON3_256"]), false).is_none());
    assert!(checked_version_from_env(&vars(&["CARGO_FEATURE_PYTHON300"]), false).is_none());
    let names = ["CARGO_FEATURE_PYTHON3_256", "CARGO_FEATURE_PYTHON3_3"];
    let v = checked_version_from_env(&vars(&names), false).unwrap().unwrap();
    assert_eq!((v.major, v.minor), (3, Some(3)));
    assert!(checked_version_from_env(&vars(&[]), false).unwrap().is_err());
}

#[test]
fn admission_is_transitive() {
    let all = [version(3, None), version(3, Some(5)), version(3, Some(6)), version(2, None)];
    for a in &all {
        for b in &all {
            for c in &all {
                assert!(!(a == b && b == c) || a == c);
            }
        }
    }
}

#[test]
fn version_is_found_beside_other_scripts() {
    assert_eq!(parse_interpreter_version("caf\u{e9} (3, 6) \u{0663}\u{0664}"), Ok((3, 6)));
    assert_eq!(parse_interpreter_version("(\u{e9}, 6) (3, 7)"), Ok((3, 7)));
    assert_eq!(
        parse_interpreter_version("(3, \u{e9})"),
        Err("Unexpected response to version query (3, \u{e9})".to_string())
    );
}

#[test]
fn explicit_feature_takes_priority_beside_a_third() {
    let names = [
        "CARGO_FEATURE_PYTHON3",
        "CARGO_FEATURE_PYTHON2_7",
        "CARGO_FEATURE_PYTHON3_5",
        "CARGO_FEATURE_PYTHON2",
    ];
    let v = version_from_env(&vars(&names), false).unwrap();
    assert_eq!((v.major, v.minor), (3, Some(5)));
    let names = ["CARGO_FEATURE_PYTHON3", "CARGO_FEATURE_PYTHON3_5", "CARGO_FEATURE_PYTHON3_6"];
    let v = version_from_env(&vars(&names), false).unwrap();
    assert_eq!((v.major, v.minor), (3, Some(6)));
}

#[test]
fn feature_stands_beside_other_scripts() {
    let v = version_from_env(&vars(&["CARGO_FEATURE_PYTHON3_7X\u{e9}"]), false).unwrap();
    assert_eq!((v.major, v.minor), (3, Some(7)));
    assert!(checked_version_from_env(&vars(&["CARGO_FEATURE_PYTHON3\u{0663}"]), false).is_none());
    let v = version_from_env(&vars(&["CARGO_FEATURE_PYTHON3_\u{e9}"]), false).unwrap();
    assert_eq!((v.major, v.minor), (3, None));
}
