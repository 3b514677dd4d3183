use pyo3build::config::{
    InterpreterConfig, CPYTHON_SCRIPT, GET_ABI_TAG, KIND_SCRIPT, PYPY_SCRIPT,
};
use pyo3build::search::{
    canonicalize_executable, find_interpreter, Abort, Reply, Request, Stage,
};
use pyo3build::version::PythonVersion;
use std::path::PathBuf;

/// An interpreter of a machine: its file, and what it prints for its kind, about
/// itself and for its ABI tag.
struct Interpreter {
    file: &'static str,
    kind: Result<&'static str, &'static str>,
    config: Result<&'static str, &'static str>,
    abi: Result<&'static str, &'static str>,
}

const CPYTHON36: Interpreter = Interpreter {
    file: "/usr/bin/python",
    kind: Ok("False\n"),
    config: Ok("(3, 6)\nsome_path\n1\n3.6m\nsome_path\n"),
    abi: Ok("cp36m\n"),
};

const CPYTHON27: Interpreter = Interpreter {
    file: "/usr/bin/python",
    kind: Ok("False\n"),
    config: Ok("(2, 7)\nsome_path\n0\n2.7\nsome_path\n"),
    abi: Ok("cp27mu\n"),
};

const PYPY35: Interpreter = Interpreter {
    file: "/opt/pypy/bin/pypy3",
    kind: Ok("True\n"),
    config: Ok("(3, 5)\nsome_path\nsome_path\n"),
    abi: Ok("pypy3_510\n"),
};

fn owned(r: Result<&str, &str>) -> Result<String, String> {
    r.map(|s| s.to_string()).map_err(|s| s.to_string())
}

/// Runs a search on a machine with the given programs, and lists what was looked
/// up.
fn search(
    expected: &PythonVersion,
    named: Option<&str>,
    programs: &[(&str, Interpreter)],
) -> (Stage, Vec<String>) {
    let mut state = find_interpreter(expected.clone(), named.map(|s| s.to_string()));
    let mut looked_up = vec![];
    loop {
        let reply = match state.request() {
            Request::Stop => return (state.stage, looked_up),
            Request::Locate(name) => {
                looked_up.push(name.to_string());
                let found = programs.iter().find(|p| p.0 == name);
                Reply::Located(found.map(|p| PathBuf::from(p.1.file)))
            }
            Request::Run(path, script) => {
                let i = &programs.iter().find(|p| PathBuf::from(p.1.file) == *path).unwrap().1;
                if script == KIND_SCRIPT {
                    Reply::Ran(owned(i.kind))
                } else if script == GET_ABI_TAG {
                    Reply::Ran(owned(i.abi))
                } else {
                    let expected = if i.kind == Ok("True\n") { PYPY_SCRIPT } else { CPYTHON_SCRIPT };
                    assert_eq!(script, expected);
                    Reply::Ran(owned(i.config))
                }
            }
        };
        state = state.step(reply);
    }
}

fn version(major: u8, minor: Option<u8>, kind: Option<&str>) -> PythonVersion {
    PythonVersion { major, minor, kind: kind.map(|s| s.to_string()) }
}

fn found(stage: Stage) -> InterpreterConfig {
    match stage {
        Stage::Done(Ok(config)) => config,
        other => panic!("{:?}", other),
    }
}

fn failed(stage: Stage) -> String {
    match stage {
        Stage::Done(Err(e)) => e,
        other => panic!("{:?}", other),
    }
}

#[test]
fn test_correctly_detects_cpython() {
    let python_version_major_only = PythonVersion {
        major: 3,
        minor: None,
        kind: None,
    };
    let expected_config = InterpreterConfig {
        version: PythonVersion {
            major: 3,
            minor: Some(6),
            kind: Some("cpython".to_string()),
        },
        path: (canonicalize_executable(
            vec![PathBuf::from("/bin/python"), PathBuf::from("/usr/bin/python")],
            &vec![false, true],
        )
        .unwrap()),
        libpath: String::from("some_path"),
        enable_shared: true,
        ld_version: String::from("3.6m"),
        exec_prefix: String::from("some_path"),
        abi_version: String::from("cp36m"),
    };

    let (stage, _) = search(&python_version_major_only, None, &[("python", CPYTHON36)]);
    let interpreter = found(stage);

    println!("{:?}", interpreter);

    assert_eq!(interpreter.version, expected_config.version);
    assert_eq!(interpreter.enable_shared, expected_config.enable_shared);
    assert_eq!(interpreter.ld_version, expected_config.ld_version);
    assert_eq!(interpreter.abi_version, expected_config.abi_version);
    assert_eq!(interpreter.path, expected_config.path);
}

#[test]
fn test_correctly_detects_python_from_envvar() {
    let test_path = "/opt/pypy/bin/pypy3";

    let python_version_major_only = PythonVersion {
        major: 3,
        minor: None,
        kind: None,
    };

    let (stage, _) = search(
        &python_version_major_only,
        Some(test_path),
        &[(test_path, PYPY35), ("python", CPYTHON36)],
    );
    let interpreter = found(stage);

    let abi_tag = PYPY35.abi.unwrap().trim_end().to_string();

    let expected_config = InterpreterConfig {
        version: PythonVersion {
            major: 3,
            minor: Some(5),
            kind: Some("pypy".to_string()),
        },
        path: PathBuf::from(test_path),
        libpath: String::from("some_path"),
        enable_shared: true,
        ld_version: String::from("3.5"),
        exec_prefix: String::from("some_path"),
        abi_version: String::from(abi_tag),
    };

    assert_eq!(interpreter.version, expected_config.version);
    assert_eq!(interpreter.enable_shared, expected_config.enable_shared);
    assert_eq!(interpreter.ld_version, expected_config.ld_version);
    assert_eq!(interpreter.abi_version, expected_config.abi_version);
}

#[test]
fn first_file_is_picked() {
    let paths = || vec![PathBuf::from("/a/x"), PathBuf::from("/b/x"), PathBuf::from("/c/x")];
    assert_eq!(
        canonicalize_executable(paths(), &vec![false, true, true]),
        Some(PathBuf::from("/b/x"))
    );
    assert_eq!(
        canonicalize_executable(paths(), &vec![true, false, true]),
        Some(PathBuf::from("/a/x"))
    );
    assert_eq!(canonicalize_executable(paths(), &vec![false, false, false]), None);
    assert_eq!(canonicalize_executable(vec![], &vec![]), None);
}

#[test]
fn candidates_are_tried_in_order() {
    let python36 = Interpreter { file: "/usr/bin/python3.6", ..CPYTHON36 };
    let (stage, looked_up) = search(
        &version(3, Some(6), Some("cpython")),
        None,
        &[("python", CPYTHON27), ("python3.6", python36)],
    );
    assert_eq!(found(stage).path, PathBuf::from("/usr/bin/python3.6"));
    assert_eq!(looked_up, ["python", "python3", "python3.6"]);

    let (stage, looked_up) = search(&version(3, None, Some("pypy")), None, &[]);
    assert_eq!(failed(stage), "No python interpreter found");
    assert_eq!(looked_up, ["pypy", "pypy3"]);
}

#[test]
fn first_match_ends_the_search() {
    let (stage, looked_up) = search(
        &version(3, Some(6), None),
        None,
        &[("python", CPYTHON36), ("python3", CPYTHON36)],
    );
    assert_eq!(found(stage).version.minor, Some(6));
    assert_eq!(looked_up, ["python"]);
}

#[test]
fn kind_must_be_known() {
    let (stage, looked_up) = search(&version(3, None, Some("jython")), None, &[]);
    assert_eq!(failed(stage), "Unsupported interpreter jython");
    assert!(looked_up.is_empty());
}

#[test]
fn named_program_of_another_version_is_refused() {
    let (stage, looked_up) =
        search(&version(3, None, None), Some("python"), &[("python", CPYTHON27)]);
    assert_eq!(
        failed(stage),
        "Unsupported python version in PYTHON_SYS_EXECUTABLE=python\n\tmin version 3.* != found 2.7"
    );
    assert_eq!(looked_up, ["python"]);
}

#[test]
fn missing_named_program_aborts() {
    match search(&version(3, None, None), Some("mypython"), &[]).0 {
        Stage::Aborted(Abort::NotFound(name)) => assert_eq!(name, "mypython"),
        other => panic!("{:?}", other),
    }
}

#[test]
fn failing_kind_query_aborts() {
    let broken = Interpreter { kind: Err("boom"), ..CPYTHON36 };
    match search(&version(3, None, None), None, &[("python", broken)]).0 {
        Stage::Aborted(Abort::KindQuery(e)) => assert_eq!(e, "boom"),
        other => panic!("{:?}", other),
    }
    let broken = Interpreter { kind: Ok("maybe\n"), ..CPYTHON36 };
    match search(&version(3, None, None), None, &[("python", broken)]).0 {
        Stage::Aborted(Abort::KindReply(out)) => assert_eq!(out, "maybe\n"),
        other => panic!("{:?}", other),
    }
}

#[test]
fn failing_scripts_end_the_search() {
    let broken = Interpreter { config: Err("no config"), ..CPYTHON36 };
    let (stage, _) = search(&version(3, None, None), None, &[("python", broken)]);
    assert_eq!(failed(stage), "no config");
    let broken = Interpreter { abi: Err("no abi"), ..CPYTHON36 };
    let (stage, _) = search(&version(3, None, None), None, &[("python", broken)]);
    assert_eq!(failed(stage), "no abi");
    let broken = Interpreter { config: Ok("oops\n"), ..CPYTHON36 };
    let (stage, _) = search(&version(3, None, None), None, &[("python", broken)]);
    assert_eq!(failed(stage), "Unexpected response to version query oops");
}

#[test]
fn unreadable_reply_aborts() {
    let broken = Interpreter { config: Ok("(3, 6)\n"), ..CPYTHON36 };
    match search(&version(3, None, None), None, &[("python", broken)]).0 {
        Stage::Aborted(Abort::ConfigReply(out)) => assert_eq!(out, "(3, 6)\n"),
        other => panic!("{:?}", other),
    }
}

#[test]
fn reply_to_another_request_changes_nothing() {
    let state = find_interpreter(version(3, None, None), None);
    let state = state.step(Reply::Ran(Ok("False\n".to_string())));
    assert!(matches!(state.request(), Request::Locate("python")));
    let state = state.step(Reply::Located(Some(PathBuf::from("/usr/bin/python"))));
    let state = state.step(Reply::Located(None));
    assert!(matches!(state.request(), Request::Run(_, KIND_SCRIPT)));
}

#[test]
fn stopped_search_stays() {
    let state = find_interpreter(version(3, None, Some("jython")), None);
    let state = state.step(Reply::Located(Some(PathBuf::from("/usr/bin/python"))));
    let state = state.step(Reply::Ran(Ok("False\n".to_string())));
    assert!(matches!(state.request(), Request::Stop));
    assert_eq!(failed(state.stage), "Unsupported interpreter jython");
}

#[test]
fn default_kind_is_cpython() {
    for kind in [None, Some("cpython")] {
        let (_, looked_up) = search(&version(2, Some(7), kind), None, &[]);
        assert_eq!(looked_up, ["python", "python2", "python2.7"]);
    }
}
