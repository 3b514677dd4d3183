use pyo3build::cargo::{can_emit, emit_cargo_vars_from_configuration, needs_linkmodel};
use pyo3build::config::InterpreterConfig;
use pyo3build::link::{get_macos_linkmodel, get_rustc_link_lib, TargetOs};
use pyo3build::version::PythonVersion;
use std::path::PathBuf;

fn config(major: u8, minor: Option<u8>, kind: &str) -> InterpreterConfig {
    InterpreterConfig {
        version: PythonVersion { major, minor, kind: Some(kind.to_string()) },
        path: PathBuf::from("python"),
        libpath: "/usr/lib".to_string(),
        enable_shared: true,
        ld_version: "3.6m".to_string(),
        exec_prefix: "C:\\Python".to_string(),
        abi_version: "cp36m".to_string(),
    }
}

#[test]
fn shared_and_static_libraries_are_linked() {
    let mut c = config(3, Some(6), "cpython");
    assert_eq!(
        get_rustc_link_lib(&c, TargetOs::Other, ""),
        Ok("cargo:rustc-link-lib=python3.6m".to_string())
    );
    c.enable_shared = false;
    assert_eq!(
        get_rustc_link_lib(&c, TargetOs::Other, ""),
        Ok("cargo:rustc-link-lib=static=python3.6m".to_string())
    );
}

#[test]
fn windows_library_is_linked() {
    assert_eq!(
        get_rustc_link_lib(&config(3, Some(6), "cpython"), TargetOs::Windows, ""),
        Ok("cargo:rustc-link-lib=pythonXY:python36".to_string())
    );
    assert_eq!(
        get_rustc_link_lib(&config(3, None, "cpython"), TargetOs::Windows, ""),
        Ok("cargo:rustc-link-lib=pythonXY:python3".to_string())
    );
}

#[test]
fn macos_library_is_linked_by_model() {
    let c = config(3, Some(6), "cpython");
    for (model, line) in [
        ("static", "cargo:rustc-link-lib=static=python3.6m"),
        ("shared", "cargo:rustc-link-lib=python3.6m"),
        ("framework", "cargo:rustc-link-lib=python3.6m"),
    ] {
        assert_eq!(get_rustc_link_lib(&c, TargetOs::MacOs, model), Ok(line.to_string()));
    }
    assert_eq!(
        get_rustc_link_lib(&c, TargetOs::MacOs, "other"),
        Err("unknown linkmodel other".to_string())
    );
    assert_eq!(get_macos_linkmodel("framework\n"), Ok("framework".to_string()));
}

#[test]
fn pypy_links_alike_everywhere() {
    for target in [TargetOs::Windows, TargetOs::MacOs, TargetOs::Other] {
        assert_eq!(
            get_rustc_link_lib(&config(2, Some(7), "pypy"), target, "x"),
            Ok("cargo:rustc-link-lib=pypy-c".to_string())
        );
        assert_eq!(
            get_rustc_link_lib(&config(3, Some(5), "pypy"), target, ""),
            Ok("cargo:rustc-link-lib=pypy3-c".to_string())
        );
    }
}

#[test]
fn cpython_lines_are_emitted() {
    let c = config(3, Some(6), "cpython");
    let (lines, flags) = emit_cargo_vars_from_configuration(&c, TargetOs::Other, false, false, "");
    assert_eq!(
        lines,
        [
            "cargo:rustc-cfg=cp36m",
            "cargo:rustc-link-lib=python3.6m",
            "cargo:rustc-link-search=native=/usr/lib",
            "cargo:rustc-cfg=Py_3_5",
            "cargo:rustc-cfg=Py_3_6",
            "cargo:rustc-cfg=Py_3",
        ]
    );
    assert_eq!(flags, Ok("CFG_Py_3_5,CFG_Py_3_6,".to_string()));
}

#[test]
fn extension_module_is_not_linked() {
    let c = config(3, Some(5), "pypy");
    let (lines, flags) = emit_cargo_vars_from_configuration(&c, TargetOs::Other, true, true, "");
    assert_eq!(
        lines,
        [
            "cargo:rustc-cfg=cp36m",
            "cargo:rustc-cfg=Py_LIMITED_API",
            "cargo:rustc-cfg=Py_3_5",
            "cargo:rustc-cfg=Py_3",
            "cargo:rustc-cfg=PyPy",
        ]
    );
    assert_eq!(flags, Ok("CFG_Py_3_5,".to_string()));
}

#[test]
fn extension_module_is_linked_on_windows() {
    let mut c = config(3, None, "cpython");
    c.libpath = "None".to_string();
    let (lines, flags) = emit_cargo_vars_from_configuration(&c, TargetOs::Windows, true, false, "");
    assert_eq!(
        lines,
        [
            "cargo:rustc-cfg=cp36m",
            "cargo:rustc-link-lib=pythonXY:python3",
            "cargo:rustc-link-search=native=C:\\Python\\libs",
        ]
    );
    assert_eq!(flags, Ok("".to_string()));
}

#[test]
fn missing_library_directory_is_left_out() {
    let mut c = config(2, Some(7), "cpython");
    c.libpath = "None".to_string();
    let (lines, flags) = emit_cargo_vars_from_configuration(&c, TargetOs::Other, false, true, "");
    assert_eq!(
        lines,
        ["cargo:rustc-cfg=cp36m", "cargo:rustc-link-lib=python3.6m", "cargo:rustc-cfg=Py_2"]
    );
    assert_eq!(flags, Ok("CFG_Py_2,".to_string()));
}

#[test]
fn old_python3_is_refused() {
    let c = config(3, Some(4), "pypy");
    let (lines, flags) = emit_cargo_vars_from_configuration(&c, TargetOs::Other, true, true, "");
    assert_eq!(lines, ["cargo:rustc-cfg=cp36m", "cargo:rustc-cfg=Py_LIMITED_API"]);
    assert_eq!(
        flags,
        Err("Python 3 required version is 3.5, current version is 3.4".to_string())
    );
}

#[test]
fn newer_minor_keeps_flags() {
    let flags = |minor: u8| {
        emit_cargo_vars_from_configuration(
            &config(3, Some(minor), "cpython"),
            TargetOs::Other,
            true,
            false,
            "",
        )
        .1
        .unwrap()
    };
    for minor in 5..254u8 {
        assert!(flags(minor + 1).starts_with(&flags(minor)));
    }
    assert!(flags(12).ends_with("CFG_Py_3_11,CFG_Py_3_12,"));
}

#[test]
fn link_model_is_asked_for_on_macos_only() {
    let c = config(3, Some(6), "cpython");
    assert!(needs_linkmodel(&c, TargetOs::MacOs, false));
    assert!(!needs_linkmodel(&c, TargetOs::MacOs, true));
    assert!(!needs_linkmodel(&c, TargetOs::Other, false));
    assert!(!needs_linkmodel(&c, TargetOs::Windows, false));
    assert!(!needs_linkmodel(&config(3, Some(6), "pypy"), TargetOs::MacOs, false));
}

#[test]
fn what_cannot_be_emitted_is_told() {
    let c = config(3, Some(6), "cpython");
    assert!(can_emit(&c, TargetOs::Other, false, ""));
    assert!(!can_emit(&c, TargetOs::MacOs, false, "x"));
    assert!(can_emit(&c, TargetOs::MacOs, true, "x"));
    assert!(can_emit(&c, TargetOs::MacOs, false, "shared"));
    assert!(!can_emit(&config(4, Some(6), "pypy"), TargetOs::Other, false, ""));
    assert!(can_emit(&config(4, Some(6), "pypy"), TargetOs::Other, true, ""));
    assert!(!can_emit(&config(3, Some(255), "cpython"), TargetOs::Other, true, ""));
    assert!(can_emit(&config(2, Some(255), "cpython"), TargetOs::Other, true, ""));
}
