//! The compile-time defines of an interpreter that are passed on to `rustc` as
//! `--cfg py_sys_config="..."`.

use vstd::hash_map::StringHashMap;
use vstd::prelude::*;

use crate::config::InterpreterConfig;
use crate::text;

verus! {

/// The name under which the defines are passed on.
pub const CFG_KEY: &'static str = "py_sys_config";

/// Whether a define carries a value: `cfg` knows no flags with values, so that
/// such a define is passed on as `{name}_{value}`, for example
/// `Py_UNICODE_SIZE_4`.
pub open spec fn carries_value(key: Seq<char>) -> bool {
    key == "Py_UNICODE_SIZE"@
}

/// The defines of interest, in the order in which an interpreter prints them:
/// first the flags, then those that carry a value.
pub open spec fn var_list() -> Seq<Seq<char>> {
    seq![
        "Py_USING_UNICODE"@,
        "Py_UNICODE_WIDE"@,
        "WITH_THREAD"@,
        "Py_DEBUG"@,
        "Py_REF_DEBUG"@,
        "Py_TRACE_REFS"@,
        "COUNT_ALLOCS"@,
        "Py_UNICODE_SIZE"@,
    ]
}

/// The views of a sequence of string slices.
pub open spec fn str_views(v: Seq<&'static str>) -> Seq<Seq<char>> {
    v.map_values(|s: &'static str| s@)
}

/// The defines of interest, in the order in which an interpreter prints them.
pub fn sysconfig_vars() -> (r: Vec<&'static str>)
    ensures
        str_views(r@) == var_list(),
{
    let mut r: Vec<&'static str> = Vec::new();
    r.push("Py_USING_UNICODE");
    r.push("Py_UNICODE_WIDE");
    r.push("WITH_THREAD");
    r.push("Py_DEBUG");
    r.push("Py_REF_DEBUG");
    r.push("Py_TRACE_REFS");
    r.push("COUNT_ALLOCS");
    r.push("Py_UNICODE_SIZE");
    assert(str_views(r@) =~= var_list());
    r
}

/// Whether the define `key` carries a value.
pub fn is_value(key: &str) -> (r: bool)
    ensures
        r == carries_value(key@),
{
    text::same_text(key, "Py_UNICODE_SIZE")
}

/// The line that passes the define `key` with the value `val` on to `rustc`.
pub open spec fn cfg_line(key: Seq<char>, val: Seq<char>) -> Option<Seq<char>> {
    if carries_value(key) {
        Some("cargo:rustc-cfg="@ + CFG_KEY@ + "=\""@ + key + "_"@ + val + "\"\n"@)
    } else if val != "0"@ {
        Some("cargo:rustc-cfg="@ + CFG_KEY@ + "=\""@ + key + "\""@)
    } else {
        None
    }
}

/// The line that passes the define `key` with the value `val` on to `rustc`:
/// a define that carries a value has it appended to its name, any other is passed
/// on unless it is zero.
pub fn cfg_line_for_var(key: &str, val: &str) -> (r: Option<String>)
    ensures
        match r {
            Some(line) => Some(line@),
            None => None,
        } == cfg_line(key@, val@),
{
    let mut line: String = "cargo:rustc-cfg=".to_owned();
    line.append(CFG_KEY);
    line.append("=\"");
    line.append(key);
    if is_value(key) {
        line.append("_");
        line.append(val);
        line.append("\"\n");
        Some(line)
    } else if !text::same_text(val, "0") {
        line.append("\"");
        Some(line)
    } else {
        None
    }
}

/// The statement that prints one define.
pub open spec fn var_query(name: Seq<char>) -> Seq<char> {
    "print(config.get('"@ + name + "', "@ + (if carries_value(name) {
        "None"@
    } else {
        "0"@
    }) + "))"@ + ";"@
}

/// The statements that print the defines `names`, in order.
pub open spec fn var_queries(names: Seq<Seq<char>>) -> Seq<char>
    decreases names.len(),
{
    if names.len() == 0 {
        Seq::empty()
    } else {
        var_queries(names.drop_last()) + var_query(names.last())
    }
}

/// The script that makes an interpreter print its defines, one to a line.
pub fn config_vars_script() -> (r: String)
    ensures
        r@ == "import sysconfig; config = sysconfig.get_config_vars();"@ + var_queries(var_list()),
{
    let names: Vec<&'static str> = sysconfig_vars();
    let mut script: String = "import sysconfig; config = sysconfig.get_config_vars();".to_owned();
    let ghost head = script@;
    let ghost all = var_list();
    let mut i: usize = 0;
    assert(script@ =~= head + var_queries(all.take(0)));
    while i < names.len()
        invariant
            i <= names.len(),
            all == var_list(),
            str_views(names@) == all,
            script@ == head + var_queries(all.take(i as int)),
        decreases names.len() - i,
    {
        let ghost before = script@;
        let name: &str = names[i];
        assert(name@ == str_views(names@)[i as int]);
        script.append("print(config.get('");
        script.append(name);
        script.append("', ");
        if is_value(name) {
            script.append("None");
        } else {
            script.append("0");
        }
        script.append("))");
        script.append(";");
        assert(script@ =~= before + var_query(name@));
        assert(all.take(i + 1).drop_last() =~= all.take(i as int));
        assert(script@ =~= head + var_queries(all.take(i + 1)));
        i += 1;
    }
    assert(all.take(names.len() as int) =~= all);
    script
}

/// What the lines `l`, one for each define, say of the define `k`. A define that
/// carries a value is absent where the interpreter printed `None`.
pub open spec fn reported(l: Seq<Seq<char>>, k: Seq<char>) -> Option<Seq<char>> {
    if exists|i: int| 0 <= i < var_list().len() && var_list()[i] == k {
        let i = choose|i: int| 0 <= i < var_list().len() && var_list()[i] == k;
        if carries_value(k) && l[i] == "None"@ {
            None
        } else {
            Some(l[i])
        }
    } else {
        None
    }
}

/// Whether the lines `l` say that the interpreter is a debug build.
pub open spec fn is_debug(l: Seq<Seq<char>>) -> bool {
    reported(l, "Py_DEBUG"@) == Some("1"@)
}

/// The value of the define `k` before a debug build is taken into account. PyPy
/// always uses wide Unicode.
pub open spec fn kind_value(l: Seq<Seq<char>>, pypy: bool, k: Seq<char>) -> Option<Seq<char>> {
    if pypy && (k == "Py_USING_UNICODE"@ || k == "Py_UNICODE_WIDE"@) {
        Some("1"@)
    } else if pypy && k == "Py_UNICODE_SIZE"@ {
        Some("4"@)
    } else {
        reported(l, k)
    }
}

/// The value of the define `k` for an interpreter that printed the lines `l`. A
/// debug build counts references and allocations.
pub open spec fn var_value(l: Seq<Seq<char>>, pypy: bool, k: Seq<char>) -> Option<Seq<char>> {
    if is_debug(l) && (k == "Py_REF_DEBUG"@ || k == "Py_TRACE_REFS"@ || k == "COUNT_ALLOCS"@) {
        Some("1"@)
    } else {
        kind_value(l, pypy, k)
    }
}

/// What a map holds under `k`.
pub open spec fn lookup(m: StringHashMap<String>, k: Seq<char>) -> Option<Seq<char>> {
    if m@.contains_key(k) {
        Some(m@[k]@)
    } else {
        None
    }
}

/// The lines that an interpreter printed for its defines.
pub open spec fn var_lines(out: Seq<char>) -> Seq<Seq<char>> {
    text::lines(text::trim_end(out))
}

/// The defines of interest by place; no two have the same name.
proof fn lemma_var_names_differ()
    ensures
        var_list()[0] == "Py_USING_UNICODE"@,
        var_list()[1] == "Py_UNICODE_WIDE"@,
        var_list()[2] == "WITH_THREAD"@,
        var_list()[3] == "Py_DEBUG"@,
        var_list()[4] == "Py_REF_DEBUG"@,
        var_list()[5] == "Py_TRACE_REFS"@,
        var_list()[6] == "COUNT_ALLOCS"@,
        var_list()[7] == "Py_UNICODE_SIZE"@,
        forall|i: int, j: int|
            0 <= i < j < var_list().len() ==> #[trigger] var_list()[i] != #[trigger] var_list()[j],
{
    reveal_strlit("Py_USING_UNICODE");
    reveal_strlit("Py_UNICODE_WIDE");
    reveal_strlit("WITH_THREAD");
    reveal_strlit("Py_DEBUG");
    reveal_strlit("Py_REF_DEBUG");
    reveal_strlit("Py_TRACE_REFS");
    reveal_strlit("COUNT_ALLOCS");
    reveal_strlit("Py_UNICODE_SIZE");
    assert("Py_UNICODE_WIDE"@[11] != "Py_UNICODE_SIZE"@[11]);
    assert("Py_REF_DEBUG"@[0] != "COUNT_ALLOCS"@[0]);
    let n = var_list();
    assert(n[0].len() == 16 && n[1].len() == 15 && n[2].len() == 11 && n[3].len() == 8);
    assert(n[4].len() == 12 && n[5].len() == 13 && n[6].len() == 12 && n[7].len() == 15);
    assert forall|i: int, j: int| 0 <= i < j < n.len() implies #[trigger] n[i] != #[trigger] n[j] by {
        assert(i == 0 || i == 1 || i == 2 || i == 3 || i == 4 || i == 5 || i == 6);
        assert(j == 1 || j == 2 || j == 3 || j == 4 || j == 5 || j == 6 || j == 7);
    }
}

/// What the lines `l` say of the define at place `i`.
pub proof fn law_reported(l: Seq<Seq<char>>, i: int)
    requires
        0 <= i < var_list().len(),
    ensures
        reported(l, var_list()[i]) == if carries_value(var_list()[i]) && l[i] == "None"@ {
            None
        } else {
            Some(l[i])
        },
{
    lemma_var_names_differ();
}

/// The defines of an interpreter, from what it printed for
/// [`config_vars_script`], or the error that running the script ended with.
pub fn get_config_vars(interpreter_config: &InterpreterConfig, out: Result<String, String>) -> (r:
    Result<StringHashMap<String>, String>)
    ensures
        match out {
            Err(e) => r is Err && r->Err_0@ == e@,
            Ok(out) => if var_lines(out@).len() != var_list().len() {
                r is Err && r->Err_0@
                    == "python stdout len didn't return expected number of lines: "@
                    + text::decimal(var_lines(out@).len())
            } else {
                r is Ok && forall|k: Seq<char>| #[trigger]
                    lookup(r->Ok_0, k) == var_value(
                        var_lines(out@),
                        interpreter_config@.is_pypy(),
                        k,
                    )
            },
        },
{
    let out: String = match out {
        Ok(out) => out,
        Err(e) => return Err(e),
    };
    let trimmed: String = text::trim_end_text(out.as_str());
    let lines: Vec<String> = text::split_lines(trimmed.as_str());
    let ghost l = var_lines(out@);
    assert(forall|i: int| 0 <= i < l.len() ==> l[i] == #[trigger] lines@[i]@);
    let names: Vec<&'static str> = sysconfig_vars();
    assert(str_views(names@).len() == names.len());
    if lines.len() != names.len() {
        let mut e: String = "python stdout len didn't return expected number of lines: ".to_owned();
        e.append(text::decimal_text(lines.len()).as_str());
        return Err(e);
    }
    let mut vars: StringHashMap<String> = StringHashMap::new();
    let mut i: usize = 0;
    while i < names.len()
        invariant
            i <= names.len(),
            str_views(names@) == var_list(),
            names.len() == var_list().len(),
            lines.len() == names.len(),
            l.len() == lines.len(),
            forall|i: int| 0 <= i < l.len() ==> l[i] == #[trigger] lines@[i]@,
            forall|j: int|
                0 <= j < i ==> lookup(vars, #[trigger] var_list()[j]) == reported(l, var_list()[j]),
            forall|k: Seq<char>|
                (forall|j: int| 0 <= j < i ==> var_list()[j] != k) ==> #[trigger] lookup(vars, k)
                    == None::<Seq<char>>,
        decreases names.len() - i,
    {
        let name: &str = names[i];
        assert(name@ == str_views(names@)[i as int]);
        let ghost before = vars;
        proof {
            lemma_var_names_differ();
            law_reported(l, i as int);
            assert(lookup(before, name@) == None::<Seq<char>>);
        }
        if !(text::same_text(lines[i].as_str(), "None") && is_value(name)) {
            vars.insert(name.to_owned(), lines[i].as_str().to_owned());
        }
        assert(forall|k: Seq<char>| k != name@ ==> #[trigger] lookup(vars, k) == lookup(before, k));
        i += 1;
    }
    assert forall|k: Seq<char>| #[trigger] lookup(vars, k) == reported(l, k) by {
        if exists|j: int| 0 <= j < var_list().len() && var_list()[j] == k {
            let j = choose|j: int| 0 <= j < var_list().len() && var_list()[j] == k;
            assert(lookup(vars, var_list()[j]) == reported(l, var_list()[j]));
        }
    }
    proof {
        lemma_var_names_differ();
    }
    let ghost printed = vars;
    if interpreter_config.is_pypy() {
        vars.insert("Py_USING_UNICODE".to_owned(), "1".to_owned());
        vars.insert("Py_UNICODE_SIZE".to_owned(), "4".to_owned());
        vars.insert("Py_UNICODE_WIDE".to_owned(), "1".to_owned());
    }
    let ghost pypy = interpreter_config@.is_pypy();
    let ghost of_kind = vars;
    assert forall|k: Seq<char>| #[trigger] lookup(vars, k) == kind_value(l, pypy, k) by {
        assert(lookup(printed, k) == reported(l, k));
    }
    assert(lookup(vars, "Py_DEBUG"@) == reported(l, "Py_DEBUG"@));
    let debug: bool = match vars.get("Py_DEBUG") {
        Some(val) => text::same_text(val.as_str(), "1"),
        None => false,
    };
    if debug {
        vars.insert("Py_REF_DEBUG".to_owned(), "1".to_owned());
        vars.insert("Py_TRACE_REFS".to_owned(), "1".to_owned());
        vars.insert("COUNT_ALLOCS".to_owned(), "1".to_owned());
    }
    assert(debug == is_debug(l));
    assert forall|k: Seq<char>| #[trigger] lookup(vars, k) == var_value(l, pypy, k) by {
        assert(lookup(of_kind, k) == kind_value(l, pypy, k));
    }
    Ok(vars)
}

/// The value of the define `k` on Windows.
pub open spec fn windows_value(k: Seq<char>) -> Option<Seq<char>> {
    if k == "Py_USING_UNICODE"@ || k == "WITH_THREAD"@ {
        Some("1"@)
    } else if k == "Py_UNICODE_WIDE"@ {
        Some("0"@)
    } else if k == "Py_UNICODE_SIZE"@ {
        Some("2"@)
    } else {
        None
    }
}

/// The defines of an interpreter on Windows. There `sysconfig` lacks the flags,
/// and these are the ones that `PC\pyconfig.h` of the Python source defines.
pub fn get_windows_config_vars() -> (r: StringHashMap<String>)
    ensures
        forall|k: Seq<char>| #[trigger] lookup(r, k) == windows_value(k),
{
    let mut vars: StringHashMap<String> = StringHashMap::new();
    proof {
        lemma_var_names_differ();
    }
    vars.insert("Py_USING_UNICODE".to_owned(), "1".to_owned());
    vars.insert("Py_UNICODE_WIDE".to_owned(), "0".to_owned());
    vars.insert("WITH_THREAD".to_owned(), "1".to_owned());
    vars.insert("Py_UNICODE_SIZE".to_owned(), "2".to_owned());
    vars
}

/// A debug build has all the flags that go with debugging.
pub proof fn law_debug_build_counts(l: Seq<Seq<char>>, pypy: bool)
    requires
        is_debug(l),
    ensures
        var_value(l, pypy, "Py_DEBUG"@) == Some("1"@),
        var_value(l, pypy, "Py_REF_DEBUG"@) == Some("1"@),
        var_value(l, pypy, "Py_TRACE_REFS"@) == Some("1"@),
        var_value(l, pypy, "COUNT_ALLOCS"@) == Some("1"@),
{
    lemma_var_names_differ();
}

/// PyPy uses wide Unicode, whatever it prints.
pub proof fn law_pypy_is_wide(l: Seq<Seq<char>>)
    ensures
        var_value(l, true, "Py_USING_UNICODE"@) == Some("1"@),
        var_value(l, true, "Py_UNICODE_WIDE"@) == Some("1"@),
        var_value(l, true, "Py_UNICODE_SIZE"@) == Some("4"@),
{
    lemma_var_names_differ();
}

/// Of a CPython interpreter that is no debug build, every define is as printed.
pub proof fn law_defines_are_as_printed(l: Seq<Seq<char>>, k: Seq<char>)
    requires
        !is_debug(l),
    ensures
        var_value(l, false, k) == reported(l, k),
{
}

/// The defines that an interpreter prints, one to a line, are read back. Each fits
/// on a line, and the last ends with a character that is no white space.
pub proof fn law_printed_defines_are_read_back(l: Seq<Seq<char>>)
    requires
        l.len() == var_list().len(),
        forall|i: int| 0 <= i < l.len() ==> text::is_line(#[trigger] l[i]),
        l.last().len() > 0,
        !text::is_white_space(l.last().last()),
    ensures
        var_lines(text::unlines(l)) == l,
{
    text::lemma_lines_without_last_ending(l);
    let s = text::unlines(l).drop_last();
    assert(text::unlines(l) =~= s.push('\n'));
    text::lemma_trim_line(s);
}

/// A define that carries a value is always passed on, with its value behind its
/// name.
pub proof fn law_value_is_passed_on(val: Seq<char>)
    ensures
        cfg_line("Py_UNICODE_SIZE"@, val) == Some(
            "cargo:rustc-cfg=py_sys_config=\"Py_UNICODE_SIZE_"@ + val + "\"\n"@,
        ),
{
    reveal_strlit("cargo:rustc-cfg=");
    reveal_strlit("py_sys_config");
    reveal_strlit("=\"");
    reveal_strlit("Py_UNICODE_SIZE");
    reveal_strlit("_");
    reveal_strlit("cargo:rustc-cfg=py_sys_config=\"Py_UNICODE_SIZE_");
    assert("cargo:rustc-cfg="@ + CFG_KEY@ + "=\""@ + "Py_UNICODE_SIZE"@ + "_"@
        =~= "cargo:rustc-cfg=py_sys_config=\"Py_UNICODE_SIZE_"@);
}

/// The value can be read back from its line: two values have two lines.
pub proof fn law_values_have_different_lines(v: Seq<char>, w: Seq<char>)
    requires
        cfg_line("Py_UNICODE_SIZE"@, v) == cfg_line("Py_UNICODE_SIZE"@, w),
    ensures
        v == w,
{
    law_value_is_passed_on(v);
    law_value_is_passed_on(w);
    let p = "cargo:rustc-cfg=py_sys_config=\"Py_UNICODE_SIZE_"@;
    let e = "\"\n"@;
    let a = p + v + e;
    let b = p + w + e;
    assert(a == b);
    assert(v =~= a.subrange(p.len() as int, a.len() - e.len()));
    assert(w =~= b.subrange(p.len() as int, b.len() - e.len()));
}

/// A flag is passed on by its name exactly where it is not zero; what else its value
/// is plays no part.
pub proof fn law_flag_is_passed_on(key: Seq<char>, val: Seq<char>)
    requires
        key != "Py_UNICODE_SIZE"@,
    ensures
        val == "0"@ <==> cfg_line(key, val) is None,
        val != "0"@ ==> cfg_line(key, val) == Some(
            "cargo:rustc-cfg=py_sys_config=\""@ + key + "\""@,
        ),
{
    reveal_strlit("cargo:rustc-cfg=");
    reveal_strlit("py_sys_config");
    reveal_strlit("=\"");
    reveal_strlit("cargo:rustc-cfg=py_sys_config=\"");
    assert("cargo:rustc-cfg="@ + CFG_KEY@ + "=\""@ =~= "cargo:rustc-cfg=py_sys_config=\""@);
}

/// The three flags that go with debugging are set exactly where the line printed for
/// `Py_DEBUG`, the fourth, is `1`; otherwise they are as printed. No other line and
/// not the kind of interpreter plays a part.
pub proof fn law_debug_line_decides(l: Seq<Seq<char>>, pypy: bool)
    requires
        l.len() == 8,
    ensures
        var_value(l, pypy, "Py_DEBUG"@) == Some(l[3]),
        l[3] == "1"@ ==> var_value(l, pypy, "Py_REF_DEBUG"@) == Some("1"@),
        l[3] == "1"@ ==> var_value(l, pypy, "Py_TRACE_REFS"@) == Some("1"@),
        l[3] == "1"@ ==> var_value(l, pypy, "COUNT_ALLOCS"@) == Some("1"@),
        l[3] != "1"@ ==> var_value(l, pypy, "Py_REF_DEBUG"@) == Some(l[4]),
        l[3] != "1"@ ==> var_value(l, pypy, "Py_TRACE_REFS"@) == Some(l[5]),
        l[3] != "1"@ ==> var_value(l, pypy, "COUNT_ALLOCS"@) == Some(l[6]),
{
    lemma_var_names_differ();
    lemma_flags_carry_no_value();
    law_reported(l, 3);
    law_reported(l, 4);
    law_reported(l, 5);
    law_reported(l, 6);
}

/// The defines on Unicode are as printed for CPython, where an absent size is left
/// out, and fixed for PyPy; threading is as printed for both. Debugging plays no
/// part.
pub proof fn law_unicode_and_thread_lines(l: Seq<Seq<char>>)
    requires
        l.len() == 8,
    ensures
        var_value(l, false, "Py_USING_UNICODE"@) == Some(l[0]),
        var_value(l, false, "Py_UNICODE_WIDE"@) == Some(l[1]),
        var_value(l, false, "WITH_THREAD"@) == Some(l[2]),
        l[7] == "None"@ ==> var_value(l, false, "Py_UNICODE_SIZE"@) is None,
        l[7] != "None"@ ==> var_value(l, false, "Py_UNICODE_SIZE"@) == Some(l[7]),
        var_value(l, true, "Py_USING_UNICODE"@) == Some("1"@),
        var_value(l, true, "Py_UNICODE_WIDE"@) == Some("1"@),
        var_value(l, true, "WITH_THREAD"@) == Some(l[2]),
        var_value(l, true, "Py_UNICODE_SIZE"@) == Some("4"@),
{
    lemma_var_names_differ();
    lemma_flags_carry_no_value();
    law_reported(l, 0);
    law_reported(l, 1);
    law_reported(l, 2);
    law_reported(l, 7);
}

/// Nothing but the eight defines is told.
pub proof fn law_no_other_define(l: Seq<Seq<char>>, pypy: bool, k: Seq<char>)
    requires
        k != "Py_USING_UNICODE"@,
        k != "Py_UNICODE_WIDE"@,
        k != "WITH_THREAD"@,
        k != "Py_DEBUG"@,
        k != "Py_REF_DEBUG"@,
        k != "Py_TRACE_REFS"@,
        k != "COUNT_ALLOCS"@,
        k != "Py_UNICODE_SIZE"@,
    ensures
        var_value(l, pypy, k) is None,
{
    assert forall|i: int| 0 <= i < var_list().len() implies var_list()[i] != k by {
        lemma_var_names_differ();
        assert(i == 0 || i == 1 || i == 2 || i == 3 || i == 4 || i == 5 || i == 6 || i == 7);
    }
}

/// Eight lines are expected, and they are the lines of what was printed without the
/// white space at its end: any text that ends with none is read by its lines,
/// whatever white space follows.
pub proof fn law_lines_before_white_space_count(t: Seq<char>, w: Seq<char>)
    requires
        t.len() > 0 ==> !text::is_white_space(t.last()),
        forall|i: int| 0 <= i < w.len() ==> text::is_white_space(#[trigger] w[i]),
    ensures
        var_lines(t + w) == text::lines(t),
        var_list().len() == 8,
{
    text::law_trimming_takes_white_space(t, w);
}

/// On Windows four defines are fixed and no other is told.
pub proof fn law_windows_defines(k: Seq<char>)
    ensures
        k == "Py_USING_UNICODE"@ || k == "WITH_THREAD"@ <==> windows_value(k) == Some("1"@),
        k == "Py_UNICODE_WIDE"@ <==> windows_value(k) == Some("0"@),
        k == "Py_UNICODE_SIZE"@ <==> windows_value(k) == Some("2"@),
        windows_value(k) matches Some(v) ==> v == "0"@ || v == "1"@ || v == "2"@,
{
    lemma_var_names_differ();
    reveal_strlit("0");
    reveal_strlit("1");
    reveal_strlit("2");
    assert("0"@[0] != "1"@[0] && "0"@[0] != "2"@[0] && "1"@[0] != "2"@[0]);
}

/// None of the flags carries a value.
proof fn lemma_flags_carry_no_value()
    ensures
        forall|i: int| 0 <= i < 7 ==> !carries_value(#[trigger] var_list()[i]),
        carries_value(var_list()[7]),
{
    lemma_var_names_differ();
    assert forall|i: int| 0 <= i < 7 implies !carries_value(#[trigger] var_list()[i]) by {
        assert(var_list()[i] != var_list()[7]);
    }
}

/// The script asks for the eight defines in the order in which their lines are read,
/// with `0` for an absent flag and `None` for an absent value.
pub proof fn law_script_asks_in_order()
    ensures
        var_queries(var_list()) == "print(config.get('Py_USING_UNICODE', 0));"@
            + "print(config.get('Py_UNICODE_WIDE', 0));"@ + "print(config.get('WITH_THREAD', 0));"@
            + "print(config.get('Py_DEBUG', 0));"@ + "print(config.get('Py_REF_DEBUG', 0));"@
            + "print(config.get('Py_TRACE_REFS', 0));"@ + "print(config.get('COUNT_ALLOCS', 0));"@
            + "print(config.get('Py_UNICODE_SIZE', None));"@,
{
    lemma_var_names_differ();
    lemma_flags_carry_no_value();
    lemma_var_statements();
    let n = var_list();
    reveal_with_fuel(var_queries, 2);
    assert(var_queries(n.take(0)) =~= Seq::<char>::empty());
    assert forall|j: int| 1 <= j <= 8 implies var_queries(#[trigger] n.take(j)) == var_queries(
        n.take(j - 1),
    ) + var_query(n[j - 1]) by {
        assert(n.take(j).drop_last() =~= n.take(j - 1));
        assert(n.take(j).last() == n[j - 1]);
    }
    assert(n.take(8) =~= n);
    let none = Seq::<char>::empty();
    assert(none + var_query(n[0]) =~= var_query(n[0]));
}

/// The statements by name.
proof fn lemma_var_statements()
    ensures
        var_query("Py_USING_UNICODE"@) == "print(config.get('Py_USING_UNICODE', 0));"@,
        var_query("Py_UNICODE_WIDE"@) == "print(config.get('Py_UNICODE_WIDE', 0));"@,
        var_query("WITH_THREAD"@) == "print(config.get('WITH_THREAD', 0));"@,
        var_query("Py_DEBUG"@) == "print(config.get('Py_DEBUG', 0));"@,
        var_query("Py_REF_DEBUG"@) == "print(config.get('Py_REF_DEBUG', 0));"@,
        var_query("Py_TRACE_REFS"@) == "print(config.get('Py_TRACE_REFS', 0));"@,
        var_query("COUNT_ALLOCS"@) == "print(config.get('COUNT_ALLOCS', 0));"@,
        var_query("Py_UNICODE_SIZE"@) == "print(config.get('Py_UNICODE_SIZE', None));"@,
{
    lemma_flags_carry_no_value();
    lemma_var_names_differ();
    assert(!carries_value(var_list()[0]) && !carries_value(var_list()[1]));
    assert(!carries_value(var_list()[2]) && !carries_value(var_list()[3]));
    assert(!carries_value(var_list()[4]) && !carries_value(var_list()[5]));
    assert(!carries_value(var_list()[6]));
    reveal_strlit("print(config.get('");
    reveal_strlit("', ");
    reveal_strlit("None");
    reveal_strlit("0");
    reveal_strlit("))");
    reveal_strlit(";");
    reveal_strlit("Py_USING_UNICODE");
    reveal_strlit("Py_UNICODE_WIDE");
    reveal_strlit("WITH_THREAD");
    reveal_strlit("Py_DEBUG");
    reveal_strlit("Py_REF_DEBUG");
    reveal_strlit("Py_TRACE_REFS");
    reveal_strlit("COUNT_ALLOCS");
    reveal_strlit("Py_UNICODE_SIZE");
    reveal_strlit("print(config.get('Py_USING_UNICODE', 0));");
    reveal_strlit("print(config.get('Py_UNICODE_WIDE', 0));");
    reveal_strlit("print(config.get('WITH_THREAD', 0));");
    reveal_strlit("print(config.get('Py_DEBUG', 0));");
    reveal_strlit("print(config.get('Py_REF_DEBUG', 0));");
    reveal_strlit("print(config.get('Py_TRACE_REFS', 0));");
    reveal_strlit("print(config.get('COUNT_ALLOCS', 0));");
    reveal_strlit("print(config.get('Py_UNICODE_SIZE', None));");
}

} // verus!
