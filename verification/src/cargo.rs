//! The lines that a build script hands to Cargo for an interpreter.

use vstd::prelude::*;

use crate::config::ConfigView;
use crate::config::InterpreterConfig;
use crate::link;
use crate::link::TargetOs;
use crate::text;
use crate::version::PythonVersion;

verus! {

/// The oldest minor version of Python 3 that is supported.
pub const PY3_MIN_MINOR: u8 = 5;

/// Whether the interpreter's library is linked: not for an extension module,
/// except on Windows.
pub open spec fn links(target: TargetOs, is_extension_module: bool) -> bool {
    !is_extension_module || target == TargetOs::Windows
}

/// Whether the link model has to be asked for: only to link CPython on macOS.
pub open spec fn asks_linkmodel(
    c: ConfigView,
    target: TargetOs,
    is_extension_module: bool,
) -> bool {
    links(target, is_extension_module) && target == TargetOs::MacOs && !c.is_pypy()
}

/// Whether [`link::LINKMODEL_SCRIPT`] has to be run before
/// [`emit_cargo_vars_from_configuration`].
pub fn needs_linkmodel(
    interpreter_config: &InterpreterConfig,
    target: TargetOs,
    is_extension_module: bool,
) -> (r: bool)
    ensures
        r == asks_linkmodel(interpreter_config@, target, is_extension_module),
{
    (!is_extension_module || target == TargetOs::Windows) && target == TargetOs::MacOs
        && !interpreter_config.is_pypy()
}

/// The lines that link the interpreter's library and say where to find it.
pub open spec fn link_lines(
    c: ConfigView,
    target: TargetOs,
    is_extension_module: bool,
    linkmodel: Seq<char>,
) -> Seq<Seq<char>> {
    if links(target, is_extension_module) {
        seq![link::link_lib(c, target, linkmodel)->Ok_0] + if c.libpath != "None"@ {
            seq!["cargo:rustc-link-search=native="@ + c.libpath]
        } else if target == TargetOs::Windows {
            seq!["cargo:rustc-link-search=native="@ + c.exec_prefix + "\\libs"@]
        } else {
            Seq::empty()
        }
    } else {
        Seq::empty()
    }
}

/// Whether the interpreter is a Python 3 that is too old.
pub open spec fn is_too_old(c: ConfigView) -> bool {
    c.version.major == 3 && c.version.minor is Some && c.version.minor->0 < PY3_MIN_MINOR
}

/// One line for each supported minor version of Python 3 up to `minor`.
pub open spec fn minor_lines(minor: u8) -> Seq<Seq<char>> {
    Seq::new(
        (minor - PY3_MIN_MINOR + 1) as nat,
        |i: int| "cargo:rustc-cfg=Py_3_"@ + text::decimal((PY3_MIN_MINOR + i) as nat),
    )
}

/// The lines that tell the version. A Python 3 of unknown minor version is not
/// told apart; every other major version counts as Python 2.
pub open spec fn version_lines(c: ConfigView, pep_384: bool) -> Seq<Seq<char>> {
    if c.version.major == 3 {
        (if pep_384 {
            seq!["cargo:rustc-cfg=Py_LIMITED_API"@]
        } else {
            Seq::empty()
        }) + match c.version.minor {
            Some(minor) => if minor < PY3_MIN_MINOR {
                Seq::empty()
            } else {
                minor_lines(minor).push("cargo:rustc-cfg=Py_3"@)
            },
            None => Seq::empty(),
        }
    } else {
        seq!["cargo:rustc-cfg=Py_2"@]
    }
}

/// All the lines, in order. For a Python 3 that is too old they end with those
/// that come before its version is looked at.
pub open spec fn cargo_lines(
    c: ConfigView,
    target: TargetOs,
    is_extension_module: bool,
    pep_384: bool,
    linkmodel: Seq<char>,
) -> Seq<Seq<char>> {
    seq!["cargo:rustc-cfg="@ + c.abi_version] + link_lines(
        c,
        target,
        is_extension_module,
        linkmodel,
    ) + version_lines(c, pep_384) + if c.is_pypy() && !is_too_old(c) {
        seq!["cargo:rustc-cfg=PyPy"@]
    } else {
        Seq::empty()
    }
}

/// One flag for each number from [`PY3_MIN_MINOR`] up to `minor`.
pub open spec fn minor_flags(minor: int) -> Seq<char>
    decreases minor,
{
    if minor < PY3_MIN_MINOR {
        Seq::empty()
    } else {
        minor_flags(minor - 1) + "CFG_Py_3_"@ + text::decimal(minor as nat) + ","@
    }
}

/// The flags that dependent build scripts read, or the complaint about a Python 3
/// that is too old.
pub open spec fn cargo_flags(c: ConfigView) -> Result<Seq<char>, Seq<char>> {
    if is_too_old(c) {
        Err(
            "Python 3 required version is 3."@ + text::decimal(PY3_MIN_MINOR as nat)
                + ", current version is 3."@ + text::decimal(c.version.minor->0 as nat),
        )
    } else if c.version.major == 3 {
        match c.version.minor {
            Some(minor) => Ok(minor_flags(minor as int)),
            None => Ok(Seq::empty()),
        }
    } else {
        Ok("CFG_Py_2,"@)
    }
}

/// Adds a line.
fn add_line(lines: &mut Vec<String>, line: String)
    ensures
        text::views(final(lines)@) == text::views(old(lines)@).push(line@),
{
    lines.push(line);
    assert(text::views(lines@) =~= text::views(old(lines)@).push(line@));
}

/// Adds the lines that link the interpreter's library.
fn add_link_lines(
    interpreter_config: &InterpreterConfig,
    target: TargetOs,
    is_extension_module: bool,
    linkmodel: &str,
    lines: &mut Vec<String>,
)
    requires
        links(target, is_extension_module) ==> link::link_lib_known(interpreter_config@)
            && link::link_lib(interpreter_config@, target, linkmodel@) is Ok,
    ensures
        text::views(final(lines)@) == text::views(old(lines)@) + link_lines(
            interpreter_config@,
            target,
            is_extension_module,
            linkmodel@,
        ),
{
    let ghost before = text::views(lines@);
    let libpath: &str = interpreter_config.libpath.as_str();
    if !is_extension_module || target == TargetOs::Windows {
        let lib: String = link::get_rustc_link_lib(interpreter_config, target, linkmodel).unwrap();
        add_line(lines, lib);
        if !text::same_text(libpath, "None") {
            add_line(lines, link::join("cargo:rustc-link-search=native=", libpath));
        } else if target == TargetOs::Windows {
            let mut line: String = link::join(
                "cargo:rustc-link-search=native=",
                interpreter_config.exec_prefix.as_str(),
            );
            line.append("\\libs");
            add_line(lines, line);
        }
    }
    assert(text::views(lines@) =~= before + link_lines(
        interpreter_config@,
        target,
        is_extension_module,
        linkmodel@,
    ));
}

/// Adds one line and one flag for each supported minor version of Python 3 up to
/// `minor`.
fn add_minor_lines(minor: u8, lines: &mut Vec<String>) -> (flags: String)
    requires
        PY3_MIN_MINOR <= minor < u8::MAX,
    ensures
        text::views(final(lines)@) == text::views(old(lines)@) + minor_lines(minor),
        flags@ == minor_flags(minor as int),
{
    let ghost before = text::views(lines@);
    let mut flags: String = String::new();
    let mut i: u8 = PY3_MIN_MINOR;
    assert(before + minor_lines((i - 1) as u8) =~= before);
    assert(flags@ =~= minor_flags(i - 1));
    while i < minor + 1
        invariant
            PY3_MIN_MINOR <= i <= minor + 1,
            minor < u8::MAX,
            text::views(lines@) == before + minor_lines((i - 1) as u8),
            flags@ == minor_flags(i - 1),
        decreases minor + 1 - i,
    {
        let number: String = text::decimal_text(i as usize);
        add_line(lines, link::join("cargo:rustc-cfg=Py_3_", number.as_str()));
        flags.append("CFG_Py_3_");
        flags.append(number.as_str());
        flags.append(",");
        assert(text::views(lines@) =~= before + minor_lines(i));
        i += 1;
    }
    flags
}

/// Adds the lines that tell the version, and gives the flags.
fn add_version_lines(
    interpreter_config: &InterpreterConfig,
    pep_384: bool,
    lines: &mut Vec<String>,
) -> (r: Result<String, String>)
    requires
        interpreter_config@.version.major == 3 ==> interpreter_config@.version.minor != Some(
            u8::MAX,
        ),
    ensures
        text::views(final(lines)@) == text::views(old(lines)@) + version_lines(
            interpreter_config@,
            pep_384,
        ),
        link::text_result_view(r) == cargo_flags(interpreter_config@),
{
    let ghost before = text::views(lines@);
    if interpreter_config.version.major != 3 {
        add_line(lines, "cargo:rustc-cfg=Py_2".to_owned());
        assert(text::views(lines@) =~= before + version_lines(interpreter_config@, pep_384));
        return Ok("CFG_Py_2,".to_owned());
    }
    if pep_384 {
        add_line(lines, "cargo:rustc-cfg=Py_LIMITED_API".to_owned());
    }
    let r: Result<String, String> = match interpreter_config.version.minor {
        Some(minor) => if minor < PY3_MIN_MINOR {
            let mut e: String = link::join(
                "Python 3 required version is 3.",
                text::decimal_text(PY3_MIN_MINOR as usize).as_str(),
            );
            e.append(", current version is 3.");
            e.append(text::decimal_text(minor as usize).as_str());
            Err(e)
        } else {
            let flags: String = add_minor_lines(minor, lines);
            add_line(lines, "cargo:rustc-cfg=Py_3".to_owned());
            Ok(flags)
        },
        None => Ok(String::new()),
    };
    assert(text::views(lines@) =~= before + version_lines(interpreter_config@, pep_384));
    r
}

/// Whether the lines can be told: where the interpreter's library is linked it is
/// known how, and the numbers after the minor version fit into a `u8`.
pub open spec fn emit_fits(
    c: ConfigView,
    target: TargetOs,
    is_extension_module: bool,
    linkmodel: Seq<char>,
) -> bool {
    &&& links(target, is_extension_module) ==> link::link_lib_known(c) && link::link_lib(
        c,
        target,
        linkmodel,
    ) is Ok
    &&& c.version.major == 3 ==> c.version.minor != Some(u8::MAX)
}

/// Whether [`emit_cargo_vars_from_configuration`] can tell the lines.
pub fn can_emit(
    interpreter_config: &InterpreterConfig,
    target: TargetOs,
    is_extension_module: bool,
    linkmodel: &str,
) -> (r: bool)
    ensures
        r == emit_fits(interpreter_config@, target, is_extension_module, linkmodel@),
{
    let version: &PythonVersion = &interpreter_config.version;
    if !is_extension_module || target == TargetOs::Windows {
        if interpreter_config.is_pypy() && version.major != 2 && version.major != 3 {
            return false;
        }
        if link::get_rustc_link_lib(interpreter_config, target, linkmodel).is_err() {
            return false;
        }
    }
    match version.minor {
        Some(minor) => version.major != 3 || minor != u8::MAX,
        None => true,
    }
}

/// Deduces from an interpreter the lines that a build script prints for Cargo, in
/// order, and the flags that it hands on or the reason why it fails after printing
/// them.
///
/// `is_extension_module` and `pep_384` tell whether the features
/// `extension-module` and `pep-384` are on. `linkmodel` is what
/// [`link::get_macos_linkmodel`] gave where [`needs_linkmodel`] asks for it, and
/// plays no part otherwise.
pub fn emit_cargo_vars_from_configuration(
    interpreter_config: &InterpreterConfig,
    target: TargetOs,
    is_extension_module: bool,
    pep_384: bool,
    linkmodel: &str,
) -> (r: (Vec<String>, Result<String, String>))
    requires
        emit_fits(interpreter_config@, target, is_extension_module, linkmodel@),
    ensures
        text::views(r.0@) == cargo_lines(
            interpreter_config@,
            target,
            is_extension_module,
            pep_384,
            linkmodel@,
        ),
        link::text_result_view(r.1) == cargo_flags(interpreter_config@),
{
    let mut lines: Vec<String> = Vec::new();
    add_line(
        &mut lines,
        link::join("cargo:rustc-cfg=", interpreter_config.abi_version.as_str()),
    );
    add_link_lines(interpreter_config, target, is_extension_module, linkmodel, &mut lines);
    let flags: Result<String, String> = add_version_lines(interpreter_config, pep_384, &mut lines);
    if flags.is_ok() && interpreter_config.is_pypy() {
        add_line(&mut lines, "cargo:rustc-cfg=PyPy".to_owned());
    }
    assert(text::views(lines@) =~= cargo_lines(
        interpreter_config@,
        target,
        is_extension_module,
        pep_384,
        linkmodel@,
    ));
    (lines, flags)
}

/// The flags and the version lines of a Python 3 begin with those of every older
/// Python 3 that is supported.
pub proof fn law_newer_minor_keeps_flags(older: u8, newer: u8)
    requires
        PY3_MIN_MINOR <= older <= newer,
    ensures
        minor_flags(older as int).is_prefix_of(minor_flags(newer as int)),
        minor_lines(older).is_prefix_of(minor_lines(newer)),
    decreases newer - older,
{
    assert(minor_lines(older) =~= minor_lines(newer).subrange(0, minor_lines(older).len() as int));
    if older == newer {
        assert(minor_flags(older as int) =~= minor_flags(newer as int).subrange(
            0,
            minor_flags(older as int).len() as int,
        ));
    } else {
        law_newer_minor_keeps_flags(older, (newer - 1) as u8);
        let a = minor_flags(older as int);
        let b = minor_flags(newer - 1);
        let c = minor_flags(newer as int);
        assert(b =~= c.subrange(0, b.len() as int));
        assert(a =~= c.subrange(0, a.len() as int));
    }
}

/// An extension module is not linked to the interpreter's library except on
/// Windows.
pub proof fn law_extension_module_is_not_linked(
    c: ConfigView,
    target: TargetOs,
    linkmodel: Seq<char>,
)
    requires
        target != TargetOs::Windows,
    ensures
        link_lines(c, target, true, linkmodel) == Seq::<Seq<char>>::empty(),
{
}

/// A Python 3 is refused exactly where it is older than the oldest supported
/// version; no other version is refused.
pub proof fn law_refusal_is_by_age(c: ConfigView)
    ensures
        cargo_flags(c) is Err <==> c.version.major == 3 && c.version.minor is Some
            && c.version.minor->0 < 5,
{
}

/// For Python 3 of a supported minor version there is one line for each number from
/// 5 up to that version, in increasing order and right before the line on Python 3
/// itself; no other line but the first, which tells the ABI, is such a line.
pub proof fn law_minor_lines_count_up(
    c: ConfigView,
    target: TargetOs,
    is_extension_module: bool,
    pep_384: bool,
    linkmodel: Seq<char>,
    minor: u8,
)
    requires
        c.version.major == 3,
        c.version.minor == Some(minor),
        minor >= 5,
        emit_fits(c, target, is_extension_module, linkmodel),
    ensures
        ({
            let lines = cargo_lines(c, target, is_extension_module, pep_384, linkmodel);
            let end = lines.len() - if c.version.kind == Some("pypy"@) {
                2int
            } else {
                1int
            };
            &&& lines.len() >= minor - 4 + 2
            &&& lines[end] == "cargo:rustc-cfg=Py_3"@
            &&& forall|j: int, i: nat|
                1 <= j < lines.len() ==> (#[trigger] lines[j] == "cargo:rustc-cfg=Py_3_"@
                    + #[trigger] text::decimal(i) <==> 5 <= i <= minor && j == end - 1 - (minor - i))
        }),
{
    let lines = cargo_lines(c, target, is_extension_module, pep_384, linkmodel);
    let end: int = lines.len() - if c.version.kind == Some("pypy"@) {
        2int
    } else {
        1int
    };
    let first: int = end - (minor - 4);
    assert(lines.len() == 1 + link_lines(c, target, is_extension_module, linkmodel).len() + (if pep_384 {
        1int
    } else {
        0int
    }) + (minor - 4) + 1 + (lines.len() - 1 - end));
    assert forall|j: int, i: nat| 1 <= j < lines.len() implies (#[trigger] lines[j]
        == "cargo:rustc-cfg=Py_3_"@ + #[trigger] text::decimal(i) <==> 5 <= i <= minor && j == end
        - 1 - (minor - i)) by {
        text::lemma_decimal_denotes(i);
        if first <= j < end {
            let k: nat = (5 + (j - first)) as nat;
            assert(lines[j] == "cargo:rustc-cfg=Py_3_"@ + text::decimal(k));
            text::lemma_decimal_denotes(k);
            if lines[j] == "cargo:rustc-cfg=Py_3_"@ + text::decimal(i) {
                let p = "cargo:rustc-cfg=Py_3_"@;
                assert(text::decimal(i) =~= lines[j].skip(p.len() as int));
                assert(text::decimal(k) =~= lines[j].skip(p.len() as int));
            }
        } else {
            assert(!is_minor_line(lines[j])) by {
                let links = link_lines(c, target, is_extension_module, linkmodel);
                if j - 1 < links.len() {
                    assert(lines[j] == links[j - 1]);
                    lemma_link_lines_link(c, target, is_extension_module, linkmodel, j - 1);
                } else {
                    lemma_other_lines();
                }
            }
            if lines[j] == "cargo:rustc-cfg=Py_3_"@ + text::decimal(i) {
                assert(is_minor_line(lines[j]));
            }
        }
    }
}

/// Whether a line is one of those that tell a minor version.
spec fn is_minor_line(line: Seq<char>) -> bool {
    exists|i: nat| line == "cargo:rustc-cfg=Py_3_"@ + #[trigger] text::decimal(i)
}

/// The lines on linking are not lines on a minor version.
proof fn lemma_link_lines_link(
    c: ConfigView,
    target: TargetOs,
    is_extension_module: bool,
    linkmodel: Seq<char>,
    j: int,
)
    requires
        emit_fits(c, target, is_extension_module, linkmodel),
        0 <= j < link_lines(c, target, is_extension_module, linkmodel).len(),
    ensures
        !is_minor_line(link_lines(c, target, is_extension_module, linkmodel)[j]),
{
    reveal_strlit("cargo:rustc-cfg=Py_3_");
    reveal_strlit("cargo:rustc-link-lib=");
    reveal_strlit("cargo:rustc-link-lib=pythonXY:python");
    reveal_strlit("cargo:rustc-link-lib=python");
    reveal_strlit("cargo:rustc-link-lib=static=python");
    reveal_strlit("cargo:rustc-link-search=native=");
    let line = link_lines(c, target, is_extension_module, linkmodel)[j];
    assert(line.len() > 12 && line[12] == 'l');
    assert("cargo:rustc-cfg=Py_3_"@[12] == 'c');
}

/// Neither are the lines without a number.
proof fn lemma_other_lines()
    ensures
        !is_minor_line("cargo:rustc-cfg=Py_LIMITED_API"@),
        !is_minor_line("cargo:rustc-cfg=Py_3"@),
        !is_minor_line("cargo:rustc-cfg=Py_2"@),
        !is_minor_line("cargo:rustc-cfg=PyPy"@),
{
    reveal_strlit("cargo:rustc-cfg=Py_3_");
    reveal_strlit("cargo:rustc-cfg=Py_LIMITED_API");
    reveal_strlit("cargo:rustc-cfg=Py_3");
    reveal_strlit("cargo:rustc-cfg=Py_2");
    reveal_strlit("cargo:rustc-cfg=PyPy");
    assert("cargo:rustc-cfg=Py_3_"@[19] == '3');
    assert("cargo:rustc-cfg=Py_LIMITED_API"@[19] == 'L');
    assert("cargo:rustc-cfg=Py_3"@.len() < "cargo:rustc-cfg=Py_3_"@.len());
    assert("cargo:rustc-cfg=Py_2"@.len() < "cargo:rustc-cfg=Py_3_"@.len());
    assert("cargo:rustc-cfg=PyPy"@.len() < "cargo:rustc-cfg=Py_3_"@.len());
}

/// Behind the first line, a line on the minor version `i` of Python 3 is there
/// exactly for a Python 3 of that minor version or a newer one, from 5 on.
pub proof fn law_minor_line_is_told(
    c: ConfigView,
    target: TargetOs,
    is_extension_module: bool,
    pep_384: bool,
    linkmodel: Seq<char>,
    i: nat,
)
    requires
        emit_fits(c, target, is_extension_module, linkmodel),
    ensures
        cargo_lines(c, target, is_extension_module, pep_384, linkmodel).skip(1).contains(
            "cargo:rustc-cfg=Py_3_"@ + text::decimal(i),
        ) <==> c.version.major == 3 && c.version.minor is Some && 5 <= i <= c.version.minor->0,
{
    let lines = cargo_lines(c, target, is_extension_module, pep_384, linkmodel);
    let line = "cargo:rustc-cfg=Py_3_"@ + text::decimal(i);
    if c.version.major == 3 && c.version.minor is Some && c.version.minor->0 >= 5 {
        let minor = c.version.minor->0;
        law_minor_lines_count_up(c, target, is_extension_module, pep_384, linkmodel, minor);
        let end: int = lines.len() - if c.version.kind == Some("pypy"@) {
            2int
        } else {
            1int
        };
        if 5 <= i <= minor {
            let j: int = end - 1 - (minor - i);
            assert(lines[j] == line);
            assert(lines.skip(1)[j - 1] == line);
        }
        if lines.skip(1).contains(line) {
            let j: int = choose|j: int| 0 <= j < lines.skip(1).len() && lines.skip(1)[j] == line;
            assert(lines[j + 1] == line);
        }
    } else {
        if lines.skip(1).contains(line) {
            let j: int = choose|j: int| 0 <= j < lines.skip(1).len() && lines.skip(1)[j] == line;
            assert(lines[j + 1] == line);
            assert(is_minor_line(lines[j + 1]));
            let links = link_lines(c, target, is_extension_module, linkmodel);
            if j < links.len() {
                assert(lines[j + 1] == links[j]);
                lemma_link_lines_link(c, target, is_extension_module, linkmodel, j);
            } else {
                lemma_other_lines();
            }
        }
    }
}

/// What is told of an extension module elsewhere than on Windows: the ABI first, then
/// the version, and PyPy last. The operating system and the link model play no part.
pub proof fn law_lines_without_linking(
    c: ConfigView,
    target: TargetOs,
    pep_384: bool,
    linkmodel: Seq<char>,
)
    requires
        target != TargetOs::Windows,
    ensures
        ({
            let lines = cargo_lines(c, target, true, pep_384, linkmodel);
            let api: int = if pep_384 {
                1
            } else {
                0
            };
            let pypy: int = if c.version.kind == Some("pypy"@) {
                1
            } else {
                0
            };
            &&& lines.len() >= 1
            &&& lines[0] == "cargo:rustc-cfg="@ + c.abi_version
            &&& c.version.major != 3 ==> {
                &&& lines.len() == 2 + pypy
                &&& lines[1] == "cargo:rustc-cfg=Py_2"@
            }
            &&& c.version.major == 3 && pep_384 ==> lines.len() > 1 && lines[1]
                == "cargo:rustc-cfg=Py_LIMITED_API"@
            &&& c.version.major == 3 && c.version.minor is None ==> lines.len() == 1 + api + pypy
            &&& c.version.major == 3 && c.version.minor is Some && c.version.minor->0 < 5
                ==> lines.len() == 1 + api
            &&& c.version.major == 3 && c.version.minor is Some && c.version.minor->0 >= 5 ==> {
                &&& lines.len() == 1 + api + (c.version.minor->0 - 4) + 1 + pypy
                &&& forall|i: nat|
                    5 <= i <= c.version.minor->0 ==> lines[1 + api + i - 5]
                        == "cargo:rustc-cfg=Py_3_"@ + #[trigger] text::decimal(i)
                &&& lines[1 + api + c.version.minor->0 - 4] == "cargo:rustc-cfg=Py_3"@
            }
            &&& pypy == 1 && !(c.version.major == 3 && c.version.minor is Some && c.version.minor->0
                < 5) ==> lines.last() == "cargo:rustc-cfg=PyPy"@
        }),
{
    let lines = cargo_lines(c, target, true, pep_384, linkmodel);
    if c.version.major == 3 && c.version.minor is Some && c.version.minor->0 >= 5 {
        let minor = c.version.minor->0;
        let api: int = if pep_384 {
            1
        } else {
            0
        };
        assert(minor_lines(minor).len() == minor - 4);
        assert forall|i: nat| 5 <= i <= minor implies lines[1 + api + i - 5]
            == "cargo:rustc-cfg=Py_3_"@ + #[trigger] text::decimal(i) by {
            assert(lines[1 + api + i - 5] == minor_lines(minor)[i - 5]);
        }
    }
}

/// Where the interpreter's library is linked, the lines on that are put in behind the
/// first line, and nothing else changes: the library, and then the directory that it
/// is in, as far as one is known.
pub proof fn law_link_lines_are_put_in(
    c: ConfigView,
    target: TargetOs,
    is_extension_module: bool,
    pep_384: bool,
    linkmodel: Seq<char>,
    lib: Seq<char>,
)
    requires
        is_extension_module ==> target == TargetOs::Windows,
        link::link_lib(c, target, linkmodel) == Ok::<Seq<char>, Seq<char>>(lib),
    ensures
        ({
            let lines = cargo_lines(c, target, is_extension_module, pep_384, linkmodel);
            let bare = cargo_lines(c, TargetOs::Other, true, pep_384, linkmodel);
            &&& c.libpath != "None"@ ==> lines == bare.take(1) + seq![
                lib,
                "cargo:rustc-link-search=native="@ + c.libpath,
            ] + bare.skip(1)
            &&& c.libpath == "None"@ && target == TargetOs::Windows ==> lines == bare.take(1)
                + seq![
                lib,
                "cargo:rustc-link-search=native="@ + c.exec_prefix + "\\libs"@,
            ] + bare.skip(1)
            &&& c.libpath == "None"@ && target != TargetOs::Windows ==> lines == bare.take(1)
                + seq![lib] + bare.skip(1)
        }),
{
    let lines = cargo_lines(c, target, is_extension_module, pep_384, linkmodel);
    let bare = cargo_lines(c, TargetOs::Other, true, pep_384, linkmodel);
    let links = link_lines(c, target, is_extension_module, linkmodel);
    let first = seq!["cargo:rustc-cfg="@ + c.abi_version];
    let none = Seq::<Seq<char>>::empty();
    let rest = version_lines(c, pep_384) + if c.is_pypy() && !is_too_old(c) {
        seq!["cargo:rustc-cfg=PyPy"@]
    } else {
        none
    };
    assert(lines =~= first + links + rest);
    assert(bare =~= first + rest);
    assert(bare.take(1) =~= first);
    assert(bare.skip(1) =~= rest);
    if c.libpath != "None"@ {
        assert(links =~= seq![lib, "cargo:rustc-link-search=native="@ + c.libpath]);
    } else if target == TargetOs::Windows {
        assert(links =~= seq![
            lib,
            "cargo:rustc-link-search=native="@ + c.exec_prefix + "\\libs"@,
        ]);
    } else {
        assert(links =~= seq![lib]);
    }
}

/// The flags: none for a Python 3 of unknown minor version, one for every other major
/// version, and for a supported minor version of Python 3 one more than for the minor
/// version before it, starting with 5. An older Python 3 is refused with its version.
pub proof fn law_flags_count_up(c: ConfigView)
    ensures
        c.version.major != 3 ==> cargo_flags(c) == Ok::<Seq<char>, Seq<char>>("CFG_Py_2,"@),
        c.version.major == 3 && c.version.minor is None ==> cargo_flags(c) == Ok::<
            Seq<char>,
            Seq<char>,
        >(Seq::empty()),
        c.version.major == 3 && c.version.minor == Some(5u8) ==> cargo_flags(c) == Ok::<
            Seq<char>,
            Seq<char>,
        >("CFG_Py_3_5,"@),
        forall|minor: u8|
            c.version.major == 3 && c.version.minor == Some(minor) && minor < 5 ==> cargo_flags(c)
                == Err::<Seq<char>, Seq<char>>(
                "Python 3 required version is 3.5, current version is 3."@
                    + #[trigger] text::decimal(minor as nat),
            ),
{
    reveal_with_fuel(minor_flags, 2);
    reveal_strlit("CFG_Py_3_");
    reveal_strlit(",");
    reveal_strlit("CFG_Py_3_5,");
    assert(text::decimal(5) =~= seq!['5']);
    assert(minor_flags(4) =~= Seq::<char>::empty());
    assert(minor_flags(5) =~= "CFG_Py_3_5,"@);
    reveal_strlit("Python 3 required version is 3.");
    reveal_strlit(", current version is 3.");
    reveal_strlit("Python 3 required version is 3.5, current version is 3.");
    assert("Python 3 required version is 3."@ + text::decimal(5) + ", current version is 3."@
        =~= "Python 3 required version is 3.5, current version is 3."@);
}

/// The next minor version adds its flag to those of the one before.
pub proof fn law_next_minor_adds_a_flag(c: ConfigView, next: ConfigView, minor: u8)
    requires
        c.version.major == 3,
        next.version.major == 3,
        minor >= 5,
        c.version.minor == Some(minor),
        next.version.minor == Some((minor + 1) as u8),
        minor < u8::MAX,
    ensures
        cargo_flags(c) is Ok,
        cargo_flags(next) == Ok::<Seq<char>, Seq<char>>(
            cargo_flags(c)->Ok_0 + "CFG_Py_3_"@ + text::decimal((minor + 1) as nat) + ","@,
        ),
{
}

/// The lines can be told unless the library has to be linked and it is not known how,
/// or a Python 3 has the last minor version that a `u8` can hold.
pub proof fn law_when_lines_can_be_told(
    c: ConfigView,
    target: TargetOs,
    is_extension_module: bool,
    linkmodel: Seq<char>,
)
    ensures
        emit_fits(c, target, is_extension_module, linkmodel) <==> {
            &&& !(c.version.major == 3 && c.version.minor == Some(255u8))
            &&& is_extension_module && target != TargetOs::Windows || if c.version.kind == Some(
                "pypy"@,
            ) {
                c.version.major == 2 || c.version.major == 3
            } else {
                target != TargetOs::MacOs || linkmodel == "framework"@ || linkmodel == "shared"@
                    || linkmodel == "static"@
            }
        },
{
    link::law_known_link_libs(c);
    if c.version.kind == Some("pypy"@) {
        link::law_pypy_links_by_major(c, target, linkmodel);
    } else {
        link::law_macos_links_by_model(c, linkmodel);
    }
}

/// The link model is asked for exactly to link CPython on macOS.
pub proof fn law_when_linkmodel_is_asked_for(
    c: ConfigView,
    target: TargetOs,
    is_extension_module: bool,
)
    ensures
        asks_linkmodel(c, target, is_extension_module) <==> target == TargetOs::MacOs
            && !is_extension_module && c.version.kind != Some("pypy"@),
{
}

/// Where the link model is not asked for it plays no part.
pub proof fn law_linkmodel_is_used_where_asked_for(
    c: ConfigView,
    target: TargetOs,
    is_extension_module: bool,
    pep_384: bool,
    a: Seq<char>,
    b: Seq<char>,
)
    requires
        !asks_linkmodel(c, target, is_extension_module),
    ensures
        emit_fits(c, target, is_extension_module, a) == emit_fits(c, target, is_extension_module, b),
        cargo_lines(c, target, is_extension_module, pep_384, a) == cargo_lines(
            c,
            target,
            is_extension_module,
            pep_384,
            b,
        ),
{
}

} // verus!
