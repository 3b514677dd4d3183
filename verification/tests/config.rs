use pyo3build::config::{is_readable, read_kind, InterpreterConfig, GET_ABI_TAG, PYPY_SCRIPT};
use pyo3build::script::script_result;
use std::path::PathBuf;

fn path() -> PathBuf {
    PathBuf::from("/usr/bin/python")
}

#[test]
fn kind_is_read() {
    assert_eq!(read_kind("True\n"), Some(true));
    assert_eq!(read_kind("False\n"), Some(false));
    assert_eq!(read_kind("FALSE \r\n"), Some(false));
    assert_eq!(read_kind("true"), Some(true));
    assert_eq!(read_kind(" true"), None);
    assert_eq!(read_kind(""), None);
    assert_eq!(read_kind("Tru\u{c9}"), None);
    // The Kelvin sign is lowered to a plain k, which makes no difference here.
    assert_eq!(read_kind("\u{212a}"), None);
}

#[test]
fn cpython_is_described() {
    let out = "(3, 6)\n/usr/lib\n1\n3.6m\n/usr\n";
    let c = InterpreterConfig::from_cpython(path(), out, "cp36m\n").unwrap();
    assert_eq!((c.version.major, c.version.minor), (3, Some(6)));
    assert_eq!(c.version.kind, Some("cpython".to_string()));
    assert_eq!(c.path, path());
    assert_eq!(c.libpath, "/usr/lib");
    assert!(c.enable_shared);
    assert_eq!(c.ld_version, "3.6m");
    assert_eq!(c.exec_prefix, "/usr");
    assert_eq!(c.abi_version, "cp36m");
    assert!(!c.is_pypy());
    assert_eq!(InterpreterConfig::new(path(), false, out, "cp36m\n"), Ok(c));
}

#[test]
fn static_cpython_is_described() {
    let out = "(2, 7)\r\nNone\r\n0\r\n2.7\r\n\r\n";
    let c = InterpreterConfig::from_cpython(path(), out, "  cp27mu \n\n").unwrap();
    assert!(!c.enable_shared);
    assert_eq!(c.libpath, "None");
    assert_eq!(c.exec_prefix, "");
    assert_eq!(c.abi_version, "  cp27mu");
}

#[test]
fn pypy_is_described() {
    let out = "(3, 5)\n/opt/pypy/lib\n/opt/pypy\n";
    let c = InterpreterConfig::from_pypy(path(), out, "pp3\n").unwrap();
    assert_eq!((c.version.major, c.version.minor), (3, Some(5)));
    assert_eq!(c.version.kind, Some("pypy".to_string()));
    assert_eq!(c.libpath, "/opt/pypy/lib");
    assert!(c.enable_shared);
    assert_eq!(c.ld_version, "3.5");
    assert_eq!(c.exec_prefix, "/opt/pypy");
    assert_eq!(c.abi_version, "pp3");
    assert!(c.is_pypy());
    assert_eq!(InterpreterConfig::new(path(), true, out, "pp3\n"), Ok(c));
}

#[test]
fn unexpected_version_fails_even_without_other_lines() {
    for pypy in [false, true] {
        assert!(is_readable(pypy, "oops\n"));
        assert_eq!(
            InterpreterConfig::new(path(), pypy, "oops\n", "cp36m\n"),
            Err("Unexpected response to version query oops".to_string())
        );
    }
}

#[test]
fn missing_lines_make_a_reply_unreadable() {
    assert!(!is_readable(false, ""));
    assert!(!is_readable(false, "(3, 6)\na\nb\nc\n"));
    assert!(is_readable(false, "(3, 6)\na\nb\nc\nd"));
    assert!(!is_readable(true, "(3, 6)\na\n"));
    assert!(is_readable(true, "(3, 6)\na\nb\n"));
    assert!(!is_readable(true, "(3, 600)\na\nb\n"));
}

#[test]
fn scripts_keep_their_shape() {
    assert!(PYPY_SCRIPT.starts_with("import sysconfig\nimport sys\n"));
    assert!(GET_ABI_TAG.starts_with("\nfrom sysconfig import get_config_var\n"));
    assert!(GET_ABI_TAG.ends_with("\nprint(get_abi_tag())\n"));
    assert!(GET_ABI_TAG.contains("sys.version_info < (3, 3))) and sys.version_info < (3, 3):"));
}

#[test]
fn script_output_is_decoded() {
    assert_eq!(
        script_result(true, "caf\u{e9}\n".as_bytes().to_vec(), vec![0xff]),
        Ok("caf\u{e9}\n".to_string())
    );
    assert_eq!(
        script_result(false, vec![0xff], b"boom".to_vec()),
        Err("python script failed with stderr:\n\nboom".to_string())
    );
}
