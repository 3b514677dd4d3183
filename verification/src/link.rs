//! How an extension or an embedding program is linked to the interpreter.

use vstd::prelude::*;

use crate::config::ConfigView;
use crate::config::InterpreterConfig;
use crate::text;

verus! {

/// The operating system that is built for, as far as linking depends on it.
#[derive(Debug, Clone, Copy, PartialEq, Eq, Structural)]
pub enum TargetOs {
    Windows,
    MacOs,
    Other,
}

/// Asks an interpreter on macOS how it can be linked.
pub const LINKMODEL_SCRIPT: &'static str =
    "import sysconfig; print('framework' if sysconfig.get_config_var('PYTHONFRAMEWORK') else ('shared' if sysconfig.get_config_var('Py_ENABLE_SHARED') else 'static'));";

/// How the interpreter can be linked, from what it printed for
/// [`LINKMODEL_SCRIPT`].
pub fn get_macos_linkmodel(out: &str) -> (r: Result<String, String>)
    ensures
        r is Ok,
        r->Ok_0@ == text::trim_end(out@),
{
    Ok(text::trim_end_text(out))
}

/// Whether the link library of PyPy is known: there is one for the major versions
/// 2 and 3.
pub open spec fn link_lib_known(c: ConfigView) -> bool {
    c.is_pypy() ==> c.version.major == 2 || c.version.major == 3
}

/// The line that links the interpreter's library. On macOS `linkmodel` tells how;
/// a framework is linked like a shared library.
pub open spec fn link_lib(c: ConfigView, target: TargetOs, linkmodel: Seq<char>) -> Result<
    Seq<char>,
    Seq<char>,
> {
    if c.is_pypy() {
        Ok(
            "cargo:rustc-link-lib="@ + if c.version.major == 2 {
                "pypy-c"@
            } else {
                "pypy3-c"@
            },
        )
    } else {
        match target {
            TargetOs::Other => if c.enable_shared {
                Ok("cargo:rustc-link-lib=python"@ + c.ld_version)
            } else {
                Ok("cargo:rustc-link-lib=static=python"@ + c.ld_version)
            },
            TargetOs::Windows => Ok(
                "cargo:rustc-link-lib=pythonXY:python"@ + text::decimal(c.version.major as nat)
                    + match c.version.minor {
                    Some(minor) => text::decimal(minor as nat),
                    None => Seq::empty(),
                },
            ),
            TargetOs::MacOs => if linkmodel == "static"@ {
                Ok("cargo:rustc-link-lib=static=python"@ + c.ld_version)
            } else if linkmodel == "shared"@ || linkmodel == "framework"@ {
                Ok("cargo:rustc-link-lib=python"@ + c.ld_version)
            } else {
                Err("unknown linkmodel "@ + linkmodel)
            },
        }
    }
}

/// Joins two texts.
pub(crate) fn join(a: &str, b: &str) -> (r: String)
    ensures
        r@ == a@ + b@,
{
    let mut r: String = a.to_owned();
    r.append(b);
    r
}

/// A result in terms of sequences.
pub open spec fn text_result_view(r: Result<String, String>) -> Result<Seq<char>, Seq<char>> {
    match r {
        Ok(s) => Ok(s@),
        Err(e) => Err(e@),
    }
}

/// The line that links the interpreter's library. `linkmodel` is what
/// [`get_macos_linkmodel`] gave; it plays no part except for CPython on macOS.
pub fn get_rustc_link_lib(
    interpreter_config: &InterpreterConfig,
    target: TargetOs,
    linkmodel: &str,
) -> (r: Result<String, String>)
    requires
        link_lib_known(interpreter_config@),
    ensures
        text_result_view(r) == link_lib(interpreter_config@, target, linkmodel@),
{
    let ld_version: &str = interpreter_config.ld_version.as_str();
    if interpreter_config.is_pypy() {
        // All modern PyPy versions with cpyext are compiled as shared libraries.
        return if interpreter_config.version.major == 2 {
            Ok(join("cargo:rustc-link-lib=", "pypy-c"))
        } else {
            Ok(join("cargo:rustc-link-lib=", "pypy3-c"))
        };
    }
    match target {
        TargetOs::Other => if interpreter_config.enable_shared {
            Ok(join("cargo:rustc-link-lib=python", ld_version))
        } else {
            Ok(join("cargo:rustc-link-lib=static=python", ld_version))
        },
        TargetOs::Windows => {
            // Py_ENABLE_SHARED is not present on Windows.
            let major: String = text::decimal_text(interpreter_config.version.major as usize);
            let mut line: String = join("cargo:rustc-link-lib=pythonXY:python", major.as_str());
            assert(line@ + Seq::<char>::empty() =~= line@);
            if let Some(minor) = interpreter_config.version.minor {
                line.append(text::decimal_text(minor as usize).as_str());
            }
            Ok(line)
        },
        TargetOs::MacOs => {
            // Py_ENABLE_SHARED is wrong on macOS, where a framework is a shared
            // library too.
            if text::same_text(linkmodel, "static") {
                Ok(join("cargo:rustc-link-lib=static=python", ld_version))
            } else if text::same_text(linkmodel, "shared") || text::same_text(
                linkmodel,
                "framework",
            ) {
                Ok(join("cargo:rustc-link-lib=python", ld_version))
            } else {
                Err(join("unknown linkmodel ", linkmodel))
            }
        },
    }
}

/// PyPy is linked the same way on every operating system.
pub proof fn law_pypy_links_alike(
    c: ConfigView,
    target: TargetOs,
    other: TargetOs,
    linkmodel: Seq<char>,
    other_linkmodel: Seq<char>,
)
    requires
        c.is_pypy(),
    ensures
        link_lib(c, target, linkmodel) == link_lib(c, other, other_linkmodel),
        link_lib(c, target, linkmodel) is Ok,
{
}

/// The link model plays no part except for CPython on macOS.
pub proof fn law_linkmodel_is_for_macos(
    c: ConfigView,
    target: TargetOs,
    linkmodel: Seq<char>,
    other_linkmodel: Seq<char>,
)
    requires
        target != TargetOs::MacOs || c.is_pypy(),
    ensures
        link_lib(c, target, linkmodel) == link_lib(c, target, other_linkmodel),
        link_lib(c, target, linkmodel) is Ok,
{
}

/// On macOS CPython is linked by its link model alone, whatever its version and
/// whether or not it claims to be shared: a framework and a shared library by name,
/// a static library as such, and nothing else is known.
pub proof fn law_macos_links_by_model(c: ConfigView, linkmodel: Seq<char>)
    requires
        c.version.kind != Some("pypy"@),
    ensures
        linkmodel == "framework"@ || linkmodel == "shared"@ ==> link_lib(
            c,
            TargetOs::MacOs,
            linkmodel,
        ) == Ok::<Seq<char>, Seq<char>>("cargo:rustc-link-lib=python"@ + c.ld_version),
        linkmodel == "static"@ ==> link_lib(c, TargetOs::MacOs, linkmodel) == Ok::<
            Seq<char>,
            Seq<char>,
        >("cargo:rustc-link-lib=static=python"@ + c.ld_version),
        linkmodel != "framework"@ && linkmodel != "shared"@ && linkmodel != "static"@ ==> link_lib(
            c,
            TargetOs::MacOs,
            linkmodel,
        ) == Err::<Seq<char>, Seq<char>>("unknown linkmodel "@ + linkmodel),
{
    reveal_strlit("static");
    reveal_strlit("shared");
    reveal_strlit("framework");
    assert("static"@[1] != "shared"@[1]);
    assert("static"@.len() != "framework"@.len());
}

/// On macOS two CPython interpreters with the same linker version are linked alike,
/// whatever else tells them apart.
pub proof fn law_macos_ignores_enable_shared(c: ConfigView, d: ConfigView, linkmodel: Seq<char>)
    requires
        c.version.kind != Some("pypy"@),
        d.version.kind != Some("pypy"@),
        c.ld_version == d.ld_version,
    ensures
        link_lib(c, TargetOs::MacOs, linkmodel) == link_lib(d, TargetOs::MacOs, linkmodel),
{
}

/// Where neither Windows nor macOS is built for, CPython is linked by name with its
/// linker version, as a static library exactly where it is not shared.
pub proof fn law_other_links_by_enable_shared(c: ConfigView, linkmodel: Seq<char>)
    requires
        c.version.kind != Some("pypy"@),
    ensures
        c.enable_shared ==> link_lib(c, TargetOs::Other, linkmodel) == Ok::<Seq<char>, Seq<char>>(
            "cargo:rustc-link-lib=python"@ + c.ld_version,
        ),
        !c.enable_shared ==> link_lib(c, TargetOs::Other, linkmodel) == Ok::<Seq<char>, Seq<char>>(
            "cargo:rustc-link-lib=static=python"@ + c.ld_version,
        ),
{
}

/// On Windows CPython is linked by the digits of its version, whatever its linker
/// version and whether or not it is shared.
pub proof fn law_windows_links_by_version(c: ConfigView, linkmodel: Seq<char>)
    requires
        c.version.kind != Some("pypy"@),
    ensures
        forall|minor: u8|
            c.version.minor == Some(minor) ==> link_lib(c, TargetOs::Windows, linkmodel) == Ok::<
                Seq<char>,
                Seq<char>,
            >(
                "cargo:rustc-link-lib=pythonXY:python"@ + text::decimal(c.version.major as nat)
                    + #[trigger] text::decimal(minor as nat),
            ),
        c.version.minor is None ==> link_lib(c, TargetOs::Windows, linkmodel) == Ok::<
            Seq<char>,
            Seq<char>,
        >("cargo:rustc-link-lib=pythonXY:python"@ + text::decimal(c.version.major as nat)),
{
    let base = "cargo:rustc-link-lib=pythonXY:python"@ + text::decimal(c.version.major as nat);
    assert(base + Seq::<char>::empty() =~= base);
}

/// PyPy is linked by its major version alone, on every operating system and whatever
/// else is known of it.
pub proof fn law_pypy_links_by_major(c: ConfigView, target: TargetOs, linkmodel: Seq<char>)
    requires
        c.version.kind == Some("pypy"@),
    ensures
        c.version.major == 2 ==> link_lib(c, target, linkmodel) == Ok::<Seq<char>, Seq<char>>(
            "cargo:rustc-link-lib=pypy-c"@,
        ),
        c.version.major == 3 ==> link_lib(c, target, linkmodel) == Ok::<Seq<char>, Seq<char>>(
            "cargo:rustc-link-lib=pypy3-c"@,
        ),
{
    reveal_strlit("cargo:rustc-link-lib=");
    reveal_strlit("pypy-c");
    reveal_strlit("pypy3-c");
    reveal_strlit("cargo:rustc-link-lib=pypy-c");
    reveal_strlit("cargo:rustc-link-lib=pypy3-c");
    assert("cargo:rustc-link-lib="@ + "pypy-c"@ =~= "cargo:rustc-link-lib=pypy-c"@);
    assert("cargo:rustc-link-lib="@ + "pypy3-c"@ =~= "cargo:rustc-link-lib=pypy3-c"@);
}

/// A link library is known for every CPython, and for PyPy of the major versions 2
/// and 3.
pub proof fn law_known_link_libs(c: ConfigView)
    ensures
        link_lib_known(c) <==> c.version.kind != Some("pypy"@) || c.version.major == 2
            || c.version.major == 3,
{
}

/// The script for the link model answers `framework` for a framework, `shared` for
/// what was built as a shared library and `static` for everything else, in this order.
pub proof fn law_linkmodel_is_asked_in_order()
    ensures
        LINKMODEL_SCRIPT@ == "import sysconfig; print("@
            + "'framework' if sysconfig.get_config_var('PYTHONFRAMEWORK') else "@
            + "('shared' if sysconfig.get_config_var('Py_ENABLE_SHARED') else "@ + "'static'));"@,
{
    reveal_strlit(
        "import sysconfig; print('framework' if sysconfig.get_config_var('PYTHONFRAMEWORK') else ('shared' if sysconfig.get_config_var('Py_ENABLE_SHARED') else 'static'));",
    );
    reveal_strlit("import sysconfig; print(");
    reveal_strlit("'framework' if sysconfig.get_config_var('PYTHONFRAMEWORK') else ");
    reveal_strlit("('shared' if sysconfig.get_config_var('Py_ENABLE_SHARED') else ");
    reveal_strlit("'static'));");
}

} // verus!
