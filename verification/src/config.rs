//! What is known about an interpreter, and how it is read from what the
//! interpreter prints about itself.

use std::path::PathBuf;

use vstd::prelude::*;

use crate::pattern;
use crate::text;
use crate::version;
use crate::version::PythonVersion;

verus! {

/// [`std::path::PathBuf`], carried through without looking inside.
#[verifier::external_type_specification]
#[verifier::external_body]
pub struct ExPathBuf(std::path::PathBuf);

/// Asks an interpreter whether it is PyPy.
pub const KIND_SCRIPT: &'static str =
    "import sys; print('__pypy__' in sys.builtin_module_names)";

/// Asks CPython for its version, library directory, whether it was built as a
/// shared library, linker version and prefix, one to a line.
pub const CPYTHON_SCRIPT: &'static str = "import sys; import sysconfig;\
         print(sys.version_info[0:2]); \
         print(sysconfig.get_config_var('LIBDIR')); \
         print(sysconfig.get_config_var('Py_ENABLE_SHARED')); \
         print(sysconfig.get_config_var('LDVERSION') or sysconfig.get_config_var('py_version_short')); \
         print(sys.exec_prefix);";

/// Asks PyPy for its version, the directory of its library and its prefix, one to
/// a line.
pub const PYPY_SCRIPT: &'static str = "\
import sysconfig
import sys
import os

def get_pypy_link_lib():
    data_dir = os.path.join(sysconfig.get_path('data'))
    for r, dirs, files in os.walk(data_dir):
        for f in files:
            if 'libpypy-c' in f or 'libpypy3-c' in f:
                return os.path.dirname(os.path.join(r, f))
    raise Exception('cannot locate libpypy')

print(sys.version_info[0:2])
print(get_pypy_link_lib())
print(sys.exec_prefix)
";

/// Asks an interpreter for its ABI tag, computed as the wheel package does.
pub const GET_ABI_TAG: &'static str = "
from sysconfig import get_config_var
import platform
import sys

def get_impl_ver():
    impl_ver = get_config_var('py_version_nodot')
    if not impl_ver or get_abbr_impl() == 'pp':
        impl_ver = ''.join(map(str, get_impl_version_info()))
    return impl_ver

def get_flag(var, fallback, expected=True, warn=True):
    val = get_config_var(var)
    if val is None:
        if warn:
            warnings.warn('Config variable {0} is unset, Python ABI tag may '
                          'be incorrect'.format(var), RuntimeWarning, 2)
        return fallback()
    return val == expected


def get_abbr_impl():
    impl = platform.python_implementation()
    if impl == 'PyPy':
        return 'pp'
    elif impl == 'Jython':
        return 'jy'
    elif impl == 'IronPython':
        return 'ip'
    elif impl == 'CPython':
        return 'cp'

    raise LookupError('Unknown Python implementation: ' + impl)

def get_abi_tag():
    soabi = get_config_var('SOABI')
    impl = get_abbr_impl()
    if not soabi and impl in ('cp', 'pp') and hasattr(sys, 'maxunicode'):
        d = ''
        m = ''
        u = ''
        if get_flag('Py_DEBUG',
                    lambda: hasattr(sys, 'gettotalrefcount'),
                    warn=(impl == 'cp')):
            d = 'd'
        if get_flag('WITH_PYMALLOC',
                    lambda: impl == 'cp',
                    warn=(impl == 'cp')):
            m = 'm'
        if get_flag('Py_UNICODE_SIZE',
                    lambda: sys.maxunicode == 0x10ffff,
                    expected=4,
                    warn=(impl == 'cp' and
                          sys.version_info < (3, 3))) \
                and sys.version_info < (3, 3):
            u = 'u'
        abi = '%s%s%s%s%s' % (impl, get_impl_ver(), d, m, u)
    elif soabi and soabi.startswith('cpython-'):
        abi = 'cp' + soabi.split('-')[1]
    elif soabi:
        abi = soabi.replace('.', '_').replace('-', '_')
    else:
        abi = None
    return abi

print(get_abi_tag())
";

/// What is known about an interpreter.
#[derive(Debug, PartialEq)]
pub struct InterpreterConfig {
    pub version: PythonVersion,
    pub path: PathBuf,
    pub libpath: String,
    pub enable_shared: bool,
    pub ld_version: String,
    pub exec_prefix: String,
    pub abi_version: String,
}

/// An [`InterpreterConfig`] in terms of sequences.
pub struct ConfigView {
    pub version: version::VersionView,
    pub path: PathBuf,
    pub libpath: Seq<char>,
    pub enable_shared: bool,
    pub ld_version: Seq<char>,
    pub exec_prefix: Seq<char>,
    pub abi_version: Seq<char>,
}

impl View for InterpreterConfig {
    type V = ConfigView;

    open spec fn view(&self) -> ConfigView {
        ConfigView {
            version: self.version@,
            path: self.path,
            libpath: self.libpath@,
            enable_shared: self.enable_shared,
            ld_version: self.ld_version@,
            exec_prefix: self.exec_prefix@,
            abi_version: self.abi_version@,
        }
    }
}

impl ConfigView {
    /// Whether the interpreter is PyPy.
    pub open spec fn is_pypy(self) -> bool {
        self.version.kind == Some("pypy"@)
    }
}

/// A result in terms of sequences.
pub open spec fn config_result_view(r: Result<InterpreterConfig, String>) -> Result<
    ConfigView,
    Seq<char>,
> {
    match r {
        Ok(c) => Ok(c@),
        Err(e) => Err(e@),
    }
}

/// What the answer to [`KIND_SCRIPT`] says: whether the interpreter is PyPy.
pub open spec fn kind_answer(out: Seq<char>) -> Option<bool> {
    let t = text::trim_end(text::lower(out));
    if t == "true"@ {
        Some(true)
    } else if t == "false"@ {
        Some(false)
    } else {
        None
    }
}

/// Reads the answer to [`KIND_SCRIPT`]; `None` where it is neither yes nor no.
pub fn read_kind(out: &str) -> (r: Option<bool>)
    ensures
        r == kind_answer(out@),
{
    let low: String = text::to_lower(out);
    assert(low@ == text::lower(out@));
    let t: String = text::trim_end_text(low.as_str());
    proof {
        reveal_strlit("true");
        reveal_strlit("false");
        assert("true"@.len() != "false"@.len());
    }
    if text::same_text(t.as_str(), "true") {
        Some(true)
    } else if text::same_text(t.as_str(), "false") {
        Some(false)
    } else {
        None
    }
}

/// How many lines an interpreter of the given kind prints about itself.
pub open spec fn reply_len(pypy: bool) -> nat {
    if pypy {
        3
    } else {
        5
    }
}

/// Whether what an interpreter printed about itself can be read: there is a first
/// line, a version in it fits, and where there is a version the other lines are
/// there too.
pub open spec fn reply_fits(pypy: bool, out: Seq<char>) -> bool {
    let l = text::lines(out);
    &&& l.len() >= 1
    &&& version::version_fits(pattern::version_captures(l[0]))
    &&& pattern::version_captures(l[0]) is Some ==> l.len() >= reply_len(pypy)
}

/// What is known about the interpreter at `path`, of the given kind, that printed
/// `out` about itself and `abi` for its ABI tag.
pub open spec fn reply_config(
    path: PathBuf,
    pypy: bool,
    out: Seq<char>,
    abi: Seq<char>,
) -> Result<ConfigView, Seq<char>> {
    let l = text::lines(out);
    match version::version_answer(pattern::version_captures(l[0]), l[0]) {
        Err(e) => Err(e),
        Ok((major, minor)) => Ok(
            ConfigView {
                version: version::VersionView {
                    major,
                    minor: Some(minor),
                    kind: Some(version::kind_name(pypy)),
                },
                path,
                libpath: l[1],
                enable_shared: pypy || l[2] == "1"@,
                ld_version: if pypy {
                    text::decimal(major as nat) + "."@ + text::decimal(minor as nat)
                } else {
                    l[3]
                },
                exec_prefix: if pypy {
                    l[2]
                } else {
                    l[4]
                },
                abi_version: text::trim_end(abi),
            },
        ),
    }
}

/// Whether what an interpreter printed about itself can be read.
pub fn is_readable(pypy: bool, out: &str) -> (r: bool)
    ensures
        r == reply_fits(pypy, out@),
{
    let lines: Vec<String> = text::split_lines(out);
    assert(text::views(lines@).len() == lines.len());
    if lines.len() == 0 {
        return false;
    }
    assert(text::views(lines@)[0] == lines@[0]@);
    match version::checked_parse_interpreter_version(lines[0].as_str()) {
        None => false,
        Some(Err(_)) => true,
        Some(Ok(_)) => lines.len() >= if pypy {
            3
        } else {
            5
        },
    }
}

impl InterpreterConfig {
    /// What is known about the interpreter at `interpreter`, PyPy or not, that
    /// printed `out` about itself and `abi_out` for its ABI tag.
    pub fn new(interpreter: PathBuf, pypy: bool, out: &str, abi_out: &str) -> (r: Result<
        InterpreterConfig,
        String,
    >)
        requires
            reply_fits(pypy, out@),
        ensures
            config_result_view(r) == reply_config(interpreter, pypy, out@, abi_out@),
    {
        if pypy {
            InterpreterConfig::from_pypy(interpreter, out, abi_out)
        } else {
            InterpreterConfig::from_cpython(interpreter, out, abi_out)
        }
    }

    /// What is known about the CPython interpreter at `interpreter` that answered
    /// [`CPYTHON_SCRIPT`] with `out` and [`GET_ABI_TAG`] with `abi_out`.
    pub fn from_cpython(interpreter: PathBuf, out: &str, abi_out: &str) -> (r: Result<
        InterpreterConfig,
        String,
    >)
        requires
            reply_fits(false, out@),
        ensures
            config_result_view(r) == reply_config(interpreter, false, out@, abi_out@),
    {
        let lines: Vec<String> = text::split_lines(out);
        let ghost l = text::lines(out@);
        assert(forall|i: int| 0 <= i < l.len() ==> l[i] == #[trigger] lines@[i]@);
        let abi_version: String = text::trim_end_text(abi_out);
        match version::parse_interpreter_version(lines[0].as_str()) {
            Err(e) => Err(e),
            Ok((major, minor)) => Ok(
                InterpreterConfig {
                    version: PythonVersion {
                        major,
                        minor: Some(minor),
                        kind: Some("cpython".to_owned()),
                    },
                    path: interpreter,
                    libpath: lines[1].as_str().to_owned(),
                    enable_shared: text::same_text(lines[2].as_str(), "1"),
                    ld_version: lines[3].as_str().to_owned(),
                    exec_prefix: lines[4].as_str().to_owned(),
                    abi_version,
                },
            ),
        }
    }

    /// What is known about the PyPy interpreter at `interpreter` that answered
    /// [`PYPY_SCRIPT`] with `out` and [`GET_ABI_TAG`] with `abi_out`.
    pub fn from_pypy(interpreter: PathBuf, out: &str, abi_out: &str) -> (r: Result<
        InterpreterConfig,
        String,
    >)
        requires
            reply_fits(true, out@),
        ensures
            config_result_view(r) == reply_config(interpreter, true, out@, abi_out@),
    {
        let lines: Vec<String> = text::split_lines(out);
        let ghost l = text::lines(out@);
        assert(forall|i: int| 0 <= i < l.len() ==> l[i] == #[trigger] lines@[i]@);
        let abi_version: String = text::trim_end_text(abi_out);
        match version::parse_interpreter_version(lines[0].as_str()) {
            Err(e) => Err(e),
            Ok((major, minor)) => {
                let mut ld_version: String = text::decimal_text(major as usize);
                ld_version.append(".");
                ld_version.append(text::decimal_text(minor as usize).as_str());
                Ok(
                    InterpreterConfig {
                        version: PythonVersion {
                            major,
                            minor: Some(minor),
                            kind: Some("pypy".to_owned()),
                        },
                        path: interpreter,
                        libpath: lines[1].as_str().to_owned(),
                        enable_shared: true,
                        ld_version,
                        exec_prefix: lines[2].as_str().to_owned(),
                        abi_version,
                    },
                )
            },
        }
    }

    /// Whether the interpreter is PyPy.
    pub fn is_pypy(&self) -> (r: bool)
        ensures
            r == self@.is_pypy(),
    {
        match &self.version.kind {
            Some(kind) => text::same_text(kind.as_str(), "pypy"),
            None => false,
        }
    }
}

/// What Python prints for a truth value is read back.
pub proof fn lemma_kind_is_read_back()
    ensures
        kind_answer("True\n"@) == Some(true),
        kind_answer("False\n"@) == Some(false),
{
    reveal_strlit("True\n");
    reveal_strlit("False\n");
    reveal_strlit("true");
    reveal_strlit("false");
    let yes = "True\n"@;
    let no = "False\n"@;
    assert(yes =~= seq!['T', 'r', 'u', 'e', '\n']);
    assert(no =~= seq!['F', 'a', 'l', 's', 'e', '\n']);
    assert(text::lower(yes) =~= "true"@.push('\n'));
    assert(text::lower(no) =~= "false"@.push('\n'));
    text::lemma_trim_line("true"@);
    text::lemma_trim_line("false"@);
    assert("true"@.len() != "false"@.len());
}

/// The kind of a described interpreter is the kind it was asked for.
pub proof fn law_kind_is_kept(path: PathBuf, pypy: bool, out: Seq<char>, abi: Seq<char>)
    ensures
        reply_config(path, pypy, out, abi) matches Ok(c) ==> c.is_pypy() == pypy,
{
    reveal_strlit("pypy");
    reveal_strlit("cpython");
    assert("pypy"@.len() != "cpython"@.len());
}

/// What CPython prints about itself: each answer on a line of its own.
pub open spec fn cpython_reply(
    major: u8,
    minor: u8,
    libdir: Seq<char>,
    shared: Seq<char>,
    ld_version: Seq<char>,
    prefix: Seq<char>,
) -> Seq<char> {
    text::unlines(seq![version::version_line(major, minor), libdir, shared, ld_version, prefix])
}

/// What PyPy prints about itself: each answer on a line of its own.
pub open spec fn pypy_reply(major: u8, minor: u8, libdir: Seq<char>, prefix: Seq<char>) -> Seq<
    char,
> {
    text::unlines(seq![version::version_line(major, minor), libdir, prefix])
}

proof fn lemma_version_line_is_line(major: u8, minor: u8)
    ensures
        text::is_line(version::version_line(major, minor)),
{
    let s = version::version_line(major, minor);
    let x = text::decimal(major as nat);
    let y = text::decimal(minor as nat);
    text::lemma_decimal_denotes(major as nat);
    text::lemma_decimal_denotes(minor as nat);
    assert forall|i: int| 0 <= i < s.len() implies #[trigger] s[i] != '\n' by {
        if 1 <= i < 1 + x.len() {
            assert(s[i] == x[i - 1]);
        } else if 3 + x.len() <= i < s.len() - 1 {
            assert(s[i] == y[i - 3 - x.len()]);
        }
    }
}

/// What CPython prints about itself is read back, field by field. An answer may
/// be any text that fits on a line; the ABI tag ends with no white space.
pub proof fn law_cpython_reply_is_read_back(
    path: PathBuf,
    major: u8,
    minor: u8,
    libdir: Seq<char>,
    shared: Seq<char>,
    ld_version: Seq<char>,
    prefix: Seq<char>,
    abi: Seq<char>,
)
    requires
        text::is_line(libdir),
        text::is_line(shared),
        text::is_line(ld_version),
        text::is_line(prefix),
        abi.len() > 0 ==> !text::is_white_space(abi.last()),
    ensures
        reply_fits(false, cpython_reply(major, minor, libdir, shared, ld_version, prefix)),
        reply_config(
            path,
            false,
            cpython_reply(major, minor, libdir, shared, ld_version, prefix),
            abi.push('\n'),
        ) == Ok::<ConfigView, Seq<char>>(
            ConfigView {
                version: version::VersionView {
                    major,
                    minor: Some(minor),
                    kind: Some("cpython"@),
                },
                path,
                libpath: libdir,
                enable_shared: shared == "1"@,
                ld_version,
                exec_prefix: prefix,
                abi_version: abi,
            },
        ),
{
    let l = seq![version::version_line(major, minor), libdir, shared, ld_version, prefix];
    lemma_version_line_is_line(major, minor);
    version::law_version_is_read_back(major, minor);
    text::law_lines_are_read_back(l);
    assert(pattern::version_captures(l[0]) is Some);
    text::lemma_trim_line(abi);
}

/// What PyPy prints about itself is read back, field by field.
pub proof fn law_pypy_reply_is_read_back(
    path: PathBuf,
    major: u8,
    minor: u8,
    libdir: Seq<char>,
    prefix: Seq<char>,
    abi: Seq<char>,
)
    requires
        text::is_line(libdir),
        text::is_line(prefix),
        abi.len() > 0 ==> !text::is_white_space(abi.last()),
    ensures
        reply_fits(true, pypy_reply(major, minor, libdir, prefix)),
        reply_config(
            path,
            true,
            pypy_reply(major, minor, libdir, prefix),
            abi.push('\n'),
        ) == Ok::<ConfigView, Seq<char>>(
            ConfigView {
                version: version::VersionView { major, minor: Some(minor), kind: Some("pypy"@) },
                path,
                libpath: libdir,
                enable_shared: true,
                ld_version: text::decimal(major as nat) + "."@ + text::decimal(minor as nat),
                exec_prefix: prefix,
                abi_version: abi,
            },
        ),
{
    let l = seq![version::version_line(major, minor), libdir, prefix];
    lemma_version_line_is_line(major, minor);
    version::law_version_is_read_back(major, minor);
    text::law_lines_are_read_back(l);
    assert(pattern::version_captures(l[0]) is Some);
    text::lemma_trim_line(abi);
}

/// An answer on the kind in ASCII is yes exactly where it is `true` in any case with
/// nothing but white space behind it, no exactly where it is `false`, and otherwise
/// neither.
pub proof fn law_kind_answer(t: Seq<char>, w: Seq<char>)
    requires
        forall|i: int| 0 <= i < t.len() ==> '\0' <= #[trigger] t[i] <= '\u{7f}',
        t.len() > 0 ==> !text::is_white_space(t.last()),
        forall|i: int|
            0 <= i < w.len() ==> text::is_white_space(#[trigger] w[i]) && '\0' <= w[i] <= '\u{7f}',
    ensures
        kind_answer(t + w) == Some(true) <==> t.len() == 4 && (t[0] == 't' || t[0] == 'T') && (t[1]
            == 'r' || t[1] == 'R') && (t[2] == 'u' || t[2] == 'U') && (t[3] == 'e' || t[3] == 'E'),
        kind_answer(t + w) == Some(false) <==> t.len() == 5 && (t[0] == 'f' || t[0] == 'F') && (t[1]
            == 'a' || t[1] == 'A') && (t[2] == 'l' || t[2] == 'L') && (t[3] == 's' || t[3] == 'S')
            && (t[4] == 'e' || t[4] == 'E'),
{
    reveal_strlit("true");
    reveal_strlit("false");
    let s = t + w;
    let low = text::lower(t);
    assert forall|i: int| 0 <= i < s.len() implies '\0' <= #[trigger] s[i] <= '\u{7f}' by {
        if i < t.len() {
            assert(s[i] == t[i]);
        } else {
            assert(s[i] == w[i - t.len()]);
        }
    }
    if s.len() > 0 {
        text::law_lower_ascii(s, 0);
    }
    if t.len() > 0 {
        text::law_lower_ascii(t, 0);
    }
    assert(text::lower(s).len() == s.len()) by {
        if s.len() == 0 {
            assert(text::lower(s) =~= s);
        }
    }
    assert(low.len() == t.len()) by {
        if t.len() == 0 {
            assert(low =~= t);
        }
    }
    assert forall|i: int| 0 <= i < s.len() implies text::lower(s)[i] == (low + w)[i] by {
        text::law_lower_ascii(s, i);
        if i < t.len() {
            assert(s[i] == t[i]);
            text::law_lower_ascii(t, i);
        } else {
            assert(s[i] == w[i - t.len()]);
            text::law_ascii_white_space(s[i]);
        }
    }
    assert(text::lower(s) =~= low + w);
    if t.len() > 0 {
        text::law_lower_ascii(t, t.len() - 1);
        text::law_ascii_white_space(t.last());
        text::law_ascii_white_space(low.last());
    }
    text::law_trimming_takes_white_space(low, w);
    assert(kind_answer(s) == if low == "true"@ {
        Some(true)
    } else if low == "false"@ {
        Some(false)
    } else {
        None
    });
    assert("true"@.len() == 4 && "false"@.len() == 5);
    if t.len() == 4 {
        text::law_lower_ascii(t, 0);
        text::law_lower_ascii(t, 1);
        text::law_lower_ascii(t, 2);
        text::law_lower_ascii(t, 3);
        assert(low == "true"@ <==> low =~= "true"@);
    }
    if t.len() == 5 {
        text::law_lower_ascii(t, 0);
        text::law_lower_ascii(t, 1);
        text::law_lower_ascii(t, 2);
        text::law_lower_ascii(t, 3);
        text::law_lower_ascii(t, 4);
        assert(low == "false"@ <==> low =~= "false"@);
    }
}

/// What CPython is known as: its lines in order are the version, the library
/// directory, `1` where it is shared, the linker version and the prefix, and its ABI
/// tag is what it printed for it without white space at the end. Further lines play no
/// part.
pub proof fn law_cpython_lines(
    path: PathBuf,
    out: Seq<char>,
    head: Seq<char>,
    libdir: Seq<char>,
    shared: Seq<char>,
    ld_version: Seq<char>,
    prefix: Seq<char>,
    more: Seq<Seq<char>>,
    major: u8,
    minor: u8,
    abi: Seq<char>,
    w: Seq<char>,
)
    requires
        text::lines(out) == seq![head, libdir, shared, ld_version, prefix] + more,
        version::version_fits(pattern::version_captures(head)),
        version::version_answer(pattern::version_captures(head), head) == Ok::<(u8, u8), Seq<char>>(
            (major, minor),
        ),
        abi.len() > 0 ==> !text::is_white_space(abi.last()),
        forall|i: int| 0 <= i < w.len() ==> text::is_white_space(#[trigger] w[i]),
    ensures
        reply_fits(false, out),
        reply_config(path, false, out, abi + w) == Ok::<ConfigView, Seq<char>>(
            ConfigView {
                version: version::VersionView {
                    major,
                    minor: Some(minor),
                    kind: Some("cpython"@),
                },
                path,
                libpath: libdir,
                enable_shared: shared == "1"@,
                ld_version,
                exec_prefix: prefix,
                abi_version: abi,
            },
        ),
{
    text::law_trimming_takes_white_space(abi, w);
    let l = text::lines(out);
    assert(l[0] == head && l[1] == libdir && l[2] == shared && l[3] == ld_version && l[4] == prefix);
}

/// What PyPy is known as: its lines in order are the version, the library directory
/// and the prefix. It is always shared, and its linker version is its version.
pub proof fn law_pypy_lines(
    path: PathBuf,
    out: Seq<char>,
    head: Seq<char>,
    libdir: Seq<char>,
    prefix: Seq<char>,
    more: Seq<Seq<char>>,
    major: u8,
    minor: u8,
    abi: Seq<char>,
    w: Seq<char>,
)
    requires
        text::lines(out) == seq![head, libdir, prefix] + more,
        version::version_fits(pattern::version_captures(head)),
        version::version_answer(pattern::version_captures(head), head) == Ok::<(u8, u8), Seq<char>>(
            (major, minor),
        ),
        abi.len() > 0 ==> !text::is_white_space(abi.last()),
        forall|i: int| 0 <= i < w.len() ==> text::is_white_space(#[trigger] w[i]),
    ensures
        reply_fits(true, out),
        reply_config(path, true, out, abi + w) == Ok::<ConfigView, Seq<char>>(
            ConfigView {
                version: version::VersionView { major, minor: Some(minor), kind: Some("pypy"@) },
                path,
                libpath: libdir,
                enable_shared: true,
                ld_version: text::decimal(major as nat) + "."@ + text::decimal(minor as nat),
                exec_prefix: prefix,
                abi_version: abi,
            },
        ),
{
    text::law_trimming_takes_white_space(abi, w);
    let l = text::lines(out);
    assert(l[0] == head && l[1] == libdir && l[2] == prefix);
}

/// What cannot be read: nothing at all, a number that does not fit, and too few lines
/// behind a version. Where there is no version the first line alone is complained
/// about.
pub proof fn law_which_replies_can_be_read(
    path: PathBuf,
    pypy: bool,
    out: Seq<char>,
    abi: Seq<char>,
)
    ensures
        ({
            let l = text::lines(out);
            let found = pattern::version_captures(l[0]);
            &&& l.len() == 0 ==> !reply_fits(pypy, out)
            &&& l.len() > 0 && found is None ==> reply_fits(pypy, out) && reply_config(
                path,
                pypy,
                out,
                abi,
            ) == Err::<ConfigView, Seq<char>>("Unexpected response to version query "@ + l[0])
            &&& l.len() > 0 && found is Some ==> (reply_fits(pypy, out) <==> version::version_fits(
                found,
            ) && (l.len() >= 5 || (pypy && l.len() >= 3)))
        }),
{
}

/// The script for CPython asks in the order in which the lines are read.
pub proof fn law_cpython_is_asked_in_order()
    ensures
        CPYTHON_SCRIPT@ == "import sys; import sysconfig;"@ + "print(sys.version_info[0:2]); "@
            + "print(sysconfig.get_config_var('LIBDIR')); "@
            + "print(sysconfig.get_config_var('Py_ENABLE_SHARED')); "@
            + "print(sysconfig.get_config_var('LDVERSION') or "@
            + "sysconfig.get_config_var('py_version_short')); "@ + "print(sys.exec_prefix);"@,
{
    reveal_strlit(
        "import sys; import sysconfig;\
         print(sys.version_info[0:2]); \
         print(sysconfig.get_config_var('LIBDIR')); \
         print(sysconfig.get_config_var('Py_ENABLE_SHARED')); \
         print(sysconfig.get_config_var('LDVERSION') or sysconfig.get_config_var('py_version_short')); \
         print(sys.exec_prefix);",
    );
    reveal_strlit("import sys; import sysconfig;");
    reveal_strlit("print(sys.version_info[0:2]); ");
    reveal_strlit("print(sysconfig.get_config_var('LIBDIR')); ");
    reveal_strlit("print(sysconfig.get_config_var('Py_ENABLE_SHARED')); ");
    reveal_strlit("print(sysconfig.get_config_var('LDVERSION') or ");
    reveal_strlit("sysconfig.get_config_var('py_version_short')); ");
    reveal_strlit("print(sys.exec_prefix);");
}

/// The script for PyPy asks in the order in which the lines are read, for the
/// directory in which it finds its library as the second.
pub proof fn law_pypy_is_asked_in_order()
    ensures
        PYPY_SCRIPT@ == "import sysconfig\nimport sys\nimport os\n\n"@
            + "def get_pypy_link_lib():\n"@
            + "    data_dir = os.path.join(sysconfig.get_path('data'))\n"@
            + "    for r, dirs, files in os.walk(data_dir):\n        for f in files:\n"@
            + "            if 'libpypy-c' in f or 'libpypy3-c' in f:\n"@
            + "                return os.path.dirname(os.path.join(r, f))\n"@
            + "    raise Exception('cannot locate libpypy')\n\n"@ + "print(sys.version_info[0:2])\n"@
            + "print(get_pypy_link_lib())\n"@ + "print(sys.exec_prefix)\n"@,
{
    reveal_strlit(
        "\
import sysconfig
import sys
import os

def get_pypy_link_lib():
    data_dir = os.path.join(sysconfig.get_path('data'))
    for r, dirs, files in os.walk(data_dir):
        for f in files:
            if 'libpypy-c' in f or 'libpypy3-c' in f:
                return os.path.dirname(os.path.join(r, f))
    raise Exception('cannot locate libpypy')

print(sys.version_info[0:2])
print(get_pypy_link_lib())
print(sys.exec_prefix)
",
    );
    reveal_strlit("import sysconfig\nimport sys\nimport os\n\n");
    reveal_strlit("def get_pypy_link_lib():\n");
    reveal_strlit("    data_dir = os.path.join(sysconfig.get_path('data'))\n");
    reveal_strlit("    for r, dirs, files in os.walk(data_dir):\n        for f in files:\n");
    reveal_strlit("            if 'libpypy-c' in f or 'libpypy3-c' in f:\n");
    reveal_strlit("                return os.path.dirname(os.path.join(r, f))\n");
    reveal_strlit("    raise Exception('cannot locate libpypy')\n\n");
    reveal_strlit("print(sys.version_info[0:2])\n");
    reveal_strlit("print(get_pypy_link_lib())\n");
    reveal_strlit("print(sys.exec_prefix)\n");
}

/// An answer on the kind is taken in lower case and without white space at its end,
/// whatever its characters.
pub proof fn law_kind_answer_in_lower_case(out: Seq<char>, t: Seq<char>)
    requires
        text::trim_end(text::lower(out)) == t,
    ensures
        t == "true"@ <==> kind_answer(out) == Some(true),
        t == "false"@ <==> kind_answer(out) == Some(false),
{
    reveal_strlit("true");
    reveal_strlit("false");
    assert("true"@.len() != "false"@.len());
}

} // verus!
