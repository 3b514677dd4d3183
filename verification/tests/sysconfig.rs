use pyo3build::config::InterpreterConfig;
use pyo3build::sysconfig::{
    cfg_line_for_var, config_vars_script, get_config_vars, get_windows_config_vars, is_value,
    sysconfig_vars,
};
use pyo3build::version::PythonVersion;
use std::path::PathBuf;

fn config(kind: &str) -> InterpreterConfig {
    InterpreterConfig {
        version: PythonVersion { major: 3, minor: Some(6), kind: Some(kind.to_string()) },
        path: PathBuf::from("python"),
        libpath: "lib".to_string(),
        enable_shared: true,
        ld_version: "3.6m".to_string(),
        exec_prefix: "/usr".to_string(),
        abi_version: "cp36m".to_string(),
    }
}

/// The defines that are held, in the order of `sysconfig_vars`.
fn listed(kind: &str, out: &str) -> Vec<(String, String)> {
    let vars = match get_config_vars(&config(kind), Ok(out.to_string())) {
        Ok(vars) => vars,
        Err(e) => panic!("{}", e),
    };
    let names = sysconfig_vars();
    let r: Vec<(String, String)> = names
        .iter()
        .filter_map(|n| vars.get(n).map(|v| (n.to_string(), v.clone())))
        .collect();
    assert_eq!(vars.len(), r.len());
    r
}

fn pairs(p: &[(&str, &str)]) -> Vec<(String, String)> {
    p.iter().map(|(a, b)| (a.to_string(), b.to_string())).collect()
}

#[test]
fn only_unicode_size_is_a_value() {
    for name in sysconfig_vars() {
        assert_eq!(is_value(name), name == "Py_UNICODE_SIZE");
    }
    assert!(!is_value("py_unicode_size"));
    assert!(!is_value(""));
}

#[test]
fn cfg_lines_are_composed() {
    assert_eq!(
        cfg_line_for_var("Py_UNICODE_SIZE", "4"),
        Some("cargo:rustc-cfg=py_sys_config=\"Py_UNICODE_SIZE_4\"\n".to_string())
    );
    assert_eq!(
        cfg_line_for_var("Py_UNICODE_SIZE", "0"),
        Some("cargo:rustc-cfg=py_sys_config=\"Py_UNICODE_SIZE_0\"\n".to_string())
    );
    assert_eq!(
        cfg_line_for_var("WITH_THREAD", "1"),
        Some("cargo:rustc-cfg=py_sys_config=\"WITH_THREAD\"".to_string())
    );
    assert_eq!(cfg_line_for_var("WITH_THREAD", "0"), None);
}

#[test]
fn script_prints_every_define() {
    let mut expected = "import sysconfig; config = sysconfig.get_config_vars();".to_string();
    for name in [
        "Py_USING_UNICODE",
        "Py_UNICODE_WIDE",
        "WITH_THREAD",
        "Py_DEBUG",
        "Py_REF_DEBUG",
        "Py_TRACE_REFS",
        "COUNT_ALLOCS",
    ] {
        expected += &format!("print(config.get('{}', 0));", name);
    }
    expected += "print(config.get('Py_UNICODE_SIZE', None));";
    assert_eq!(config_vars_script(), expected);
}

#[test]
fn defines_are_read_back() {
    assert_eq!(
        listed("cpython", "1\n0\n1\n0\n0\n0\n0\n4\n"),
        pairs(&[
            ("Py_USING_UNICODE", "1"),
            ("Py_UNICODE_WIDE", "0"),
            ("WITH_THREAD", "1"),
            ("Py_DEBUG", "0"),
            ("Py_REF_DEBUG", "0"),
            ("Py_TRACE_REFS", "0"),
            ("COUNT_ALLOCS", "0"),
            ("Py_UNICODE_SIZE", "4"),
        ])
    );
}

#[test]
fn absent_value_is_left_out_and_absent_flag_is_not() {
    let r = listed("cpython", "None\n0\n1\n0\n0\n0\n0\nNone\n");
    assert_eq!(r.len(), 7);
    assert_eq!(r[0], ("Py_USING_UNICODE".to_string(), "None".to_string()));
}

#[test]
fn debug_build_counts() {
    let r = listed("cpython", "0\n0\n0\n1\n0\n0\n0\nNone");
    assert_eq!(
        r[3..],
        pairs(&[
            ("Py_DEBUG", "1"),
            ("Py_REF_DEBUG", "1"),
            ("Py_TRACE_REFS", "1"),
            ("COUNT_ALLOCS", "1"),
        ])[..]
    );
}

#[test]
fn pypy_is_wide() {
    let r = listed("pypy", "0\n0\n1\n0\n0\n0\n0\nNone\n");
    assert_eq!(
        r,
        pairs(&[
            ("Py_USING_UNICODE", "1"),
            ("Py_UNICODE_WIDE", "1"),
            ("WITH_THREAD", "1"),
            ("Py_DEBUG", "0"),
            ("Py_REF_DEBUG", "0"),
            ("Py_TRACE_REFS", "0"),
            ("COUNT_ALLOCS", "0"),
            ("Py_UNICODE_SIZE", "4"),
        ])
    );
}

#[test]
fn wrong_number_of_lines_is_refused() {
    for (out, n) in [("", 0), ("1\n0\n", 2), ("1\n0\n1\n0\n0\n0\n0\n4\n5\n", 9), ("1\n0\n1\n0\n0\n0\n0\n \n", 7)] {
        match get_config_vars(&config("cpython"), Ok(out.to_string())) {
            Err(e) => assert_eq!(
                e,
                format!("python stdout len didn't return expected number of lines: {}", n)
            ),
            Ok(_) => panic!("{:?} was read", out),
        }
    }
}

#[test]
fn failed_script_is_handed_on() {
    match get_config_vars(&config("cpython"), Err("boom".to_string())) {
        Err(e) => assert_eq!(e, "boom"),
        Ok(_) => panic!("a failure was read"),
    }
}

#[test]
fn windows_defines_are_fixed() {
    let vars = get_windows_config_vars();
    assert_eq!(vars.len(), 4);
    assert_eq!(vars.get("Py_USING_UNICODE").unwrap(), "1");
    assert_eq!(vars.get("Py_UNICODE_WIDE").unwrap(), "0");
    assert_eq!(vars.get("WITH_THREAD").unwrap(), "1");
    assert_eq!(vars.get("Py_UNICODE_SIZE").unwrap(), "2");
    assert!(vars.get("Py_DEBUG").is_none());
}
