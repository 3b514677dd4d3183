//! Python versions: matching them, printing them, and reading them from an
//! interpreter's answer or from Cargo features.

use vstd::prelude::*;

use crate::pattern;
use crate::text;

verus! {

/// A Python version, or a demand on one.
#[derive(Debug, Clone)]
pub struct PythonVersion {
    pub major: u8,
    /// `None` means any minor version will do.
    pub minor: Option<u8>,
    /// `"pypy"` or `"cpython"`; `None` means `"cpython"`.
    pub kind: Option<String>,
}

/// A [`PythonVersion`] in terms of sequences.
pub struct VersionView {
    pub major: u8,
    pub minor: Option<u8>,
    pub kind: Option<Seq<char>>,
}

/// An optional string in terms of sequences.
pub open spec fn option_view(o: Option<String>) -> Option<Seq<char>> {
    match o {
        Some(s) => Some(s@),
        None => None,
    }
}

/// A result whose error is a message, with the message as a sequence.
pub open spec fn result_view<T>(r: Result<T, String>) -> Result<T, Seq<char>> {
    match r {
        Ok(t) => Ok(t),
        Err(e) => Err(e@),
    }
}

impl View for PythonVersion {
    type V = VersionView;

    open spec fn view(&self) -> VersionView {
        VersionView { major: self.major, minor: self.minor, kind: option_view(self.kind) }
    }
}

impl VersionView {
    /// Whether a version that is asked for admits the version `found`. The kind
    /// of interpreter plays no part.
    pub open spec fn admits(self, found: VersionView) -> bool {
        self.major == found.major && (self.minor is None || self.minor == found.minor)
    }

    /// The version as text: `major.minor`, with `*` for any minor version.
    pub open spec fn text(self) -> Seq<char> {
        text::decimal(self.major as nat) + "."@ + match self.minor {
            Some(minor) => text::decimal(minor as nat),
            None => "*"@,
        }
    }
}

impl PartialEq for PythonVersion {
    /// Whether `self`, as a demand, admits `o`.
    fn eq(&self, o: &PythonVersion) -> (r: bool) {
        self.major == o.major && (self.minor.is_none() || self.minor == o.minor)
    }
}

impl vstd::std_specs::cmp::PartialEqSpecImpl for PythonVersion {
    open spec fn obeys_eq_spec() -> bool {
        true
    }

    open spec fn eq_spec(&self, o: &PythonVersion) -> bool {
        self@.admits(o@)
    }
}

impl PythonVersion {
    /// The version as text: `major.minor`, with `*` for any minor version.
    pub fn to_string(&self) -> (r: String)
        ensures
            r@ == self@.text(),
    {
        let mut r: String = text::decimal_text(self.major as usize);
        r.append(".");
        match self.minor {
            Some(minor) => r.append(text::decimal_text(minor as usize).as_str()),
            None => r.append("*"),
        }
        r
    }
}

/// Every version admits itself.
pub proof fn law_version_admits_itself(v: VersionView)
    ensures
        v.admits(v),
{
}

/// What a version admits, every version that admits it admits as well.
pub proof fn law_admission_is_transitive(a: VersionView, b: VersionView, c: VersionView)
    requires
        a.admits(b),
        b.admits(c),
    ensures
        a.admits(c),
{
}

/// A version without a minor version admits exactly the versions with its major
/// version, whatever their minor version and kind.
pub proof fn law_any_minor_will_do(v: VersionView, found: VersionView)
    requires
        v.minor is None,
    ensures
        v.admits(found) <==> v.major == found.major,
{
}

/// Whether the captured major and minor version are numbers that fit.
pub open spec fn version_fits(found: Option<pattern::Groups>) -> bool {
    found matches Some(g) ==> {
        &&& g.len() >= 3
        &&& g[1] is Some
        &&& g[2] is Some
        &&& text::u8_of(g[1]->0) is Some
        &&& text::u8_of(g[2]->0) is Some
    }
}

/// The version that was captured in `line`, or the complaint about `line`.
pub open spec fn version_answer(found: Option<pattern::Groups>, line: Seq<char>) -> Result<
    (u8, u8),
    Seq<char>,
> {
    match found {
        Some(g) => Ok((text::u8_of(g[1]->0)->0, text::u8_of(g[2]->0)->0)),
        None => Err("Unexpected response to version query "@ + line),
    }
}

/// The number in a captured group.
fn group_number(groups: &Vec<Option<String>>, i: usize) -> (r: Option<u8>)
    requires
        i < groups.len(),
    ensures
        r == match pattern::groups_view(groups@)[i as int] {
            Some(s) => text::u8_of(s),
            None => None,
        },
{
    match &groups[i] {
        Some(s) => text::parse_u8(s.as_str()),
        None => None,
    }
}

/// Reads the captured major and minor version; `None` where they do not fit.
pub fn read_version(found: &Option<Vec<Option<String>>>, line: &str) -> (r: Option<
    Result<(u8, u8), String>,
>)
    ensures
        version_fits(pattern::search_view(*found)) ==> r is Some && result_view(r->0)
            == version_answer(pattern::search_view(*found), line@),
        !version_fits(pattern::search_view(*found)) ==> r is None,
{
    match found {
        Some(groups) => {
            if groups.len() < 3 {
                return None;
            }
            match (group_number(groups, 1), group_number(groups, 2)) {
                (Some(major), Some(minor)) => Some(Ok((major, minor))),
                _ => None,
            }
        },
        None => {
            let mut e: String = "Unexpected response to version query ".to_owned();
            e.append(line);
            Some(Err(e))
        },
    }
}

/// Reads an interpreter's answer to the version query; `None` where a number in
/// it does not fit into a `u8`.
pub fn checked_parse_interpreter_version(line: &str) -> (r: Option<Result<(u8, u8), String>>)
    ensures
        version_fits(pattern::version_captures(line@)) ==> r is Some && result_view(r->0)
            == version_answer(pattern::version_captures(line@), line@),
        !version_fits(pattern::version_captures(line@)) ==> r is None,
{
    let found: Option<Vec<Option<String>>> = pattern::find_captures(
        pattern::VERSION_PATTERN,
        line,
    );
    read_version(&found, line)
}

/// Reads an interpreter's answer to the version query.
pub fn parse_interpreter_version(line: &str) -> (r: Result<(u8, u8), String>)
    requires
        version_fits(pattern::version_captures(line@)),
    ensures
        result_view(r) == version_answer(pattern::version_captures(line@), line@),
{
    checked_parse_interpreter_version(line).unwrap()
}

/// What an interpreter of version `major.minor` prints for its version.
pub open spec fn version_line(major: u8, minor: u8) -> Seq<char> {
    seq!['('] + text::decimal(major as nat) + seq![',', ' '] + text::decimal(minor as nat) + seq![
        ')',
    ]
}

/// A version is read wherever it stands in a line, whatever stands before and
/// after it, as long as there is no other opening bracket.
pub proof fn law_version_is_found(before: Seq<char>, major: u8, minor: u8, after: Seq<char>)
    requires
        !before.contains('('),
        !after.contains('('),
    ensures
        version_fits(pattern::version_captures(before + version_line(major, minor) + after)),
        version_answer(
            pattern::version_captures(before + version_line(major, minor) + after),
            before + version_line(major, minor) + after,
        ) == Ok::<(u8, u8), Seq<char>>((major, minor)),
{
    let v = version_line(major, minor);
    let s = before + v + after;
    let x = text::decimal(major as nat);
    let y = text::decimal(minor as nat);
    text::lemma_decimal_denotes(major as nat);
    text::lemma_decimal_denotes(minor as nat);
    text::law_u8_is_read_back(major);
    text::law_u8_is_read_back(minor);
    let o = before.len() as int;
    let a = o + 1 + x.len() as int;
    let b = a + 2 + y.len();
    assert(s.subrange(o + 1, a) =~= x);
    assert(s.subrange(a + 2, b) =~= y);
    assert forall|i: int| 0 <= i < s.len() && #[trigger] s[i] == '(' implies i == o by {
        if i < o {
            assert(before[i] == '(');
        } else if b < i {
            assert(after[i - b - 1] == '(');
        } else if o < i < a {
            assert(s[i] == x[i - o - 1]);
        } else if a + 2 <= i < b {
            assert(s[i] == y[i - a - 2]);
        }
    }
    assert(pattern::first_version_at(s, o, a, b));
    pattern::lemma_version_groups(s, o, a, b);
    assert forall|i: int, c: int| #[trigger]
        pattern::version_reaches(s, i, c) implies text::is_ascii_char(s[c]) by {
        assert(i == o);
        if b < c {
            assert(s[b] == ')');
        } else if o < c < a {
            assert(s[c] == x[c - o - 1]);
        } else if a + 2 <= c < b {
            assert(s[c] == y[c - a - 2]);
        }
    }
}

/// The version that an interpreter prints is read back.
pub proof fn law_version_is_read_back(major: u8, minor: u8)
    ensures
        version_fits(pattern::version_captures(version_line(major, minor))),
        version_answer(
            pattern::version_captures(version_line(major, minor)),
            version_line(major, minor),
        ) == Ok::<(u8, u8), Seq<char>>((major, minor)),
{
    let none = Seq::<char>::empty();
    assert(none + version_line(major, minor) + none =~= version_line(major, minor));
    law_version_is_found(none, major, minor, none);
}

/// The names of the environment variables in `vars`.
pub open spec fn var_names(vars: Seq<(String, String)>) -> Seq<Seq<char>> {
    vars.map_values(|v: (String, String)| v.0@)
}

/// Whether `k` is the last, in the order of texts, of the variables that name a
/// Python version.
pub open spec fn last_feature(names: Seq<Seq<char>>, k: Seq<char>) -> bool {
    &&& names.contains(k)
    &&& pattern::feature_captures(k) is Some
    &&& forall|j: int|
        0 <= j < names.len() && pattern::feature_captures(#[trigger] names[j]) is Some ==> names[j]
            == k || text::text_lt(names[j], k)
}

/// Whether no variable names a Python version.
pub open spec fn no_feature(names: Seq<Seq<char>>) -> bool {
    forall|j: int| 0 <= j < names.len() ==> pattern::feature_captures(#[trigger] names[j]) is None
}

/// Whether the versions captured from a feature are numbers that fit.
pub open spec fn feature_fits(g: pattern::Groups) -> bool {
    &&& g.len() >= 4
    &&& g[1] is Some
    &&& text::u8_of(g[1]->0) is Some
    &&& g[3] matches Some(minor) ==> text::u8_of(minor) is Some
}

/// The version captured from a feature.
pub open spec fn feature_version(g: pattern::Groups, kind: Seq<char>) -> VersionView {
    VersionView {
        major: text::u8_of(g[1]->0)->0,
        minor: match g[3] {
            Some(minor) => Some(text::u8_of(minor)->0),
            None => None,
        },
        kind: Some(kind),
    }
}

/// The kind of interpreter that a build with or without the `pypy` feature asks
/// for.
pub open spec fn kind_name(pypy: bool) -> Seq<char> {
    if pypy {
        "pypy"@
    } else {
        "cpython"@
    }
}

/// Whether the version that the variables select can be told: the numbers of the
/// selecting variable fit.
pub open spec fn env_fits(names: Seq<Seq<char>>) -> bool {
    forall|k: Seq<char>| #[trigger]
        last_feature(names, k) ==> feature_fits(pattern::feature_captures(k)->0)
}

/// Whether `r` is what the variables select: the version that the last feature
/// names, or a complaint where there is no feature.
pub open spec fn env_answer(
    names: Seq<Seq<char>>,
    pypy: bool,
    r: Result<VersionView, Seq<char>>,
) -> bool {
    match r {
        Ok(v) => exists|k: Seq<char>| #[trigger]
            last_feature(names, k) && v == feature_version(
                pattern::feature_captures(k)->0,
                kind_name(pypy),
            ),
        Err(e) => no_feature(names) && e
            == "Python version feature was not found. At least one python version feature must be enabled."@,
    }
}

/// A result in terms of sequences.
pub open spec fn version_result_view(r: Result<PythonVersion, String>) -> Result<
    VersionView,
    Seq<char>,
> {
    match r {
        Ok(v) => Ok(v@),
        Err(e) => Err(e@),
    }
}

/// Finds the last of the variables that name a Python version, and what its name
/// captures.
fn select_feature(vars: &Vec<(String, String)>) -> (r: Option<(usize, Vec<Option<String>>)>)
    ensures
        match r {
            Some((i, groups)) => i < vars.len() && last_feature(var_names(vars@), vars@[i as int].0@)
                && pattern::feature_captures(vars@[i as int].0@) == Some(
                pattern::groups_view(groups@),
            ),
            None => no_feature(var_names(vars@)),
        },
{
    let ghost names = var_names(vars@);
    let mut best: Option<(usize, Vec<Option<String>>)> = None;
    let mut i: usize = 0;
    while i < vars.len()
        invariant
            i <= vars.len(),
            names == var_names(vars@),
            match best {
                Some((b, groups)) => {
                    &&& b < i
                    &&& pattern::feature_captures(names[b as int]) == Some(
                        pattern::groups_view(groups@),
                    )
                    &&& forall|j: int|
                        0 <= j < i && pattern::feature_captures(#[trigger] names[j]) is Some
                            ==> names[j] == names[b as int] || text::text_lt(
                            names[j],
                            names[b as int],
                        )
                },
                None => forall|j: int|
                    0 <= j < i ==> pattern::feature_captures(#[trigger] names[j]) is None,
            },
        decreases vars.len() - i,
    {
        let name: &str = vars[i].0.as_str();
        assert(name@ == names[i as int]);
        let found: Option<Vec<Option<String>>> = pattern::find_captures(
            pattern::FEATURE_PATTERN,
            name,
        );
        assert(pattern::search_view(found) == pattern::feature_captures(name@));
        if let Some(groups) = found {
            let later: bool = match &best {
                Some((b, _)) => text::comes_before(vars[*b].0.as_str(), name),
                None => true,
            };
            let ghost old_best = best;
            if later {
                best = Some((i, groups));
                proof {
                    if let Some((b, _)) = old_best {
                        assert forall|j: int|
                            0 <= j < i + 1 && pattern::feature_captures(
                                #[trigger] names[j],
                            ) is Some implies names[j] == names[i as int] || text::text_lt(
                            names[j],
                            names[i as int],
                        ) by {
                            if j < i && names[j] != names[b as int] {
                                text::lemma_text_lt_transitive(
                                    names[j],
                                    names[b as int],
                                    names[i as int],
                                );
                            }
                        }
                    }
                }
            } else {
                proof {
                    if let Some((b, _)) = old_best {
                        text::lemma_text_lt_total(names[b as int], names[i as int]);
                    }
                }
            }
        }
        i += 1;
    }
    proof {
        if let Some((b, _)) = best {
            assert(names[b as int] == vars@[b as int].0@);
        }
    }
    best
}

/// The version that a feature captured; `None` where its numbers do not fit.
pub fn read_feature(groups: &Vec<Option<String>>, pypy: bool) -> (r: Option<PythonVersion>)
    ensures
        feature_fits(pattern::groups_view(groups@)) ==> r is Some && r->0@ == feature_version(
            pattern::groups_view(groups@),
            kind_name(pypy),
        ),
        !feature_fits(pattern::groups_view(groups@)) ==> r is None,
{
    if groups.len() < 4 {
        return None;
    }
    let kind: String = if pypy {
        "pypy".to_owned()
    } else {
        "cpython".to_owned()
    };
    let major: u8 = match group_number(groups, 1) {
        Some(n) => n,
        None => return None,
    };
    let minor: Option<u8> = match &groups[3] {
        Some(s) => match text::parse_u8(s.as_str()) {
            Some(n) => Some(n),
            None => return None,
        },
        None => None,
    };
    Some(PythonVersion { major, minor, kind: Some(kind) })
}

/// Whether the version that the variables select can be told: the numbers of the
/// selecting variable fit into a `u8`.
pub fn is_env_readable(vars: &Vec<(String, String)>) -> (r: bool)
    ensures
        r == env_fits(var_names(vars@)),
{
    let ghost names = var_names(vars@);
    match select_feature(vars) {
        Some((i, groups)) => {
            proof {
                let k = vars@[i as int].0@;
                assert forall|l: Seq<char>| #[trigger] last_feature(names, l) implies l == k by {
                    lemma_last_feature_unique(names, k, l);
                }
            }
            read_feature(&groups, false).is_some()
        },
        None => {
            assert forall|k: Seq<char>| !#[trigger] last_feature(names, k) by {
                if last_feature(names, k) {
                    let i = choose|i: int| 0 <= i < names.len() && names[i] == k;
                    assert(names[i] == k);
                }
            }
            true
        },
    }
}

/// The Python version that a build is made for, from the environment variables
/// of its Cargo features. The more explicit of two features takes priority; a
/// feature may omit the minor version. `pypy` tells whether the `pypy` feature is
/// on.
pub fn version_from_env(vars: &Vec<(String, String)>, pypy: bool) -> (r: Result<
    PythonVersion,
    String,
>)
    requires
        env_fits(var_names(vars@)),
    ensures
        env_answer(var_names(vars@), pypy, version_result_view(r)),
{
    match select_feature(vars) {
        Some((_, groups)) => Ok(read_feature(&groups, pypy).unwrap()),
        None => Err(
            "Python version feature was not found. At least one python version feature must be enabled.".to_owned(),
        ),
    }
}

/// The Python version that a build is made for, as [`version_from_env`] tells it;
/// `None` where a number in the selecting variable does not fit into a `u8`.
pub fn checked_version_from_env(vars: &Vec<(String, String)>, pypy: bool) -> (r: Option<
    Result<PythonVersion, String>,
>)
    ensures
        r is Some <==> env_fits(var_names(vars@)),
        r is Some ==> env_answer(var_names(vars@), pypy, version_result_view(r->0)),
{
    if is_env_readable(vars) {
        Some(version_from_env(vars, pypy))
    } else {
        None
    }
}

/// At most one variable is the last feature.
proof fn lemma_last_feature_unique(names: Seq<Seq<char>>, k: Seq<char>, l: Seq<char>)
    requires
        last_feature(names, k),
        last_feature(names, l),
    ensures
        k == l,
{
    let i = choose|i: int| 0 <= i < names.len() && names[i] == k;
    let j = choose|j: int| 0 <= j < names.len() && names[j] == l;
    assert(names[i] == k && names[j] == l);
    text::lemma_text_lt_total(k, l);
}

/// What the variables select is one result only.
pub proof fn law_env_answer_is_unique(
    names: Seq<Seq<char>>,
    pypy: bool,
    r: Result<VersionView, Seq<char>>,
    t: Result<VersionView, Seq<char>>,
)
    requires
        env_answer(names, pypy, r),
        env_answer(names, pypy, t),
    ensures
        r == t,
{
    if r is Ok && t is Ok {
        let k = choose|k: Seq<char>| #[trigger]
            last_feature(names, k) && r->Ok_0 == feature_version(
                pattern::feature_captures(k)->0,
                kind_name(pypy),
            );
        let l = choose|l: Seq<char>| #[trigger]
            last_feature(names, l) && t->Ok_0 == feature_version(
                pattern::feature_captures(l)->0,
                kind_name(pypy),
            );
        lemma_last_feature_unique(names, k, l);
    } else if r is Ok || t is Ok {
        let k = choose|k: Seq<char>| #[trigger] last_feature(names, k);
        let i = choose|i: int| 0 <= i < names.len() && names[i] == k;
        assert(names[i] == k);
    }
}

/// The variable of the feature that names a Python version.
pub open spec fn feature_name(major: u8, minor: Option<u8>) -> Seq<char> {
    pattern::FEATURE_PREFIX@ + text::decimal(major as nat) + match minor {
        Some(minor) => seq!['_'] + text::decimal(minor as nat),
        None => Seq::empty(),
    }
}

/// The feature prefix stands at the front of a feature's variable and nowhere else.
proof fn lemma_prefix_stands_once(major: u8, minor: Option<u8>)
    ensures
        forall|i: int| #[trigger]
            pattern::stands_at(feature_name(major, minor), pattern::FEATURE_PREFIX@, i) ==> i == 0,
{
    let p = pattern::FEATURE_PREFIX@;
    let s = feature_name(major, minor);
    let x = text::decimal(major as nat);
    text::lemma_decimal_denotes(major as nat);
    if let Some(m) = minor {
        text::lemma_decimal_denotes(m as nat);
    }
    reveal_strlit("CARGO_FEATURE_PYTHON");
    assert forall|i: int| #[trigger] pattern::stands_at(s, p, i) implies i == 0 by {
        if i > 0 {
            // The last letter of the prefix would stand behind the prefix.
            let e = i + p.len() - 1;
            assert(s.subrange(i, i + p.len())[p.len() - 1] == s[e]);
            assert(s[e] == 'N');
            if e < p.len() + x.len() {
                assert(s[e] == x[e - p.len()]);
            } else if e > p.len() + x.len() {
                let y = text::decimal(minor->0 as nat);
                assert(s[e] == y[e - p.len() - x.len() - 1]);
            }
        }
    }
}

/// The version that a feature names is read back from its variable.
pub proof fn law_feature_is_read_back(major: u8, minor: Option<u8>, kind: Seq<char>)
    ensures
        pattern::feature_captures(feature_name(major, minor)) is Some,
        feature_fits(pattern::feature_captures(feature_name(major, minor))->0),
        feature_version(pattern::feature_captures(feature_name(major, minor))->0, kind) == (
        VersionView { major, minor, kind: Some(kind) }),
{
    let p = pattern::FEATURE_PREFIX@;
    let s = feature_name(major, minor);
    let x = text::decimal(major as nat);
    text::lemma_decimal_denotes(major as nat);
    text::law_u8_is_read_back(major);
    let a = p.len() + x.len() as int;
    assert(s.subrange(0, p.len() as int) =~= p);
    assert(s.subrange(p.len() as int, a) =~= x);
    assert(pattern::first_feature_at(s, 0, a));
    pattern::lemma_feature_groups(s, 0, a);
    match minor {
        Some(m) => {
            let y = text::decimal(m as nat);
            text::lemma_decimal_denotes(m as nat);
            text::law_u8_is_read_back(m);
            let b = a + 1 + y.len();
            assert(s.subrange(a + 1, b) =~= y);
            assert(pattern::minor_at(s, a, b));
        },
        None => {
            assert(s =~= p + x);
        },
    }
    lemma_prefix_stands_once(major, minor);
    assert forall|i: int, c: int| #[trigger]
        pattern::feature_reaches(s, i, c) implies text::is_ascii_char(s[c]) by {
        if c < a {
            assert(s[c] == x[c - p.len()]);
        } else if a < c {
            let y = text::decimal(minor->0 as nat);
            text::lemma_decimal_denotes(minor->0 as nat);
            assert(s[c] == y[c - a - 1]);
        }
    }
}

/// A feature selects its version where it comes after every other variable whose
/// name holds the feature prefix.
pub proof fn law_last_feature_selects(
    names: Seq<Seq<char>>,
    pypy: bool,
    major: u8,
    minor: Option<u8>,
)
    requires
        names.contains(feature_name(major, minor)),
        forall|j: int|
            0 <= j < names.len() && pattern::contains_text(
                #[trigger] names[j],
                pattern::FEATURE_PREFIX@,
            ) ==> names[j] == feature_name(major, minor) || text::text_lt(
                names[j],
                feature_name(major, minor),
            ),
    ensures
        env_fits(names),
        env_answer(
            names,
            pypy,
            Ok(VersionView { major, minor, kind: Some(kind_name(pypy)) }),
        ),
{
    let k = feature_name(major, minor);
    law_feature_is_read_back(major, minor, kind_name(pypy));
    assert forall|j: int|
        0 <= j < names.len() && pattern::feature_captures(
            #[trigger] names[j],
        ) is Some implies names[j] == k || text::text_lt(names[j], k) by {
        if !pattern::contains_text(names[j], pattern::FEATURE_PREFIX@) {
            pattern::law_feature_needs_prefix(names[j]);
        }
    }
    assert(last_feature(names, k));
    assert forall|l: Seq<char>| #[trigger] last_feature(names, l) implies l == k by {
        lemma_last_feature_unique(names, k, l);
    }
}

/// A feature that names a major version only comes before every feature that also
/// names a minor version of it.
proof fn lemma_explicit_feature_comes_later(major: u8, minor: u8)
    ensures
        text::text_lt(feature_name(major, None), feature_name(major, Some(minor))),
{
    let rest = seq!['_'] + text::decimal(minor as nat);
    assert(feature_name(major, Some(minor)) =~= feature_name(major, None) + rest);
    text::lemma_prefix_comes_first(feature_name(major, None), rest);
}

/// The more explicit feature takes priority: in every environment with a feature
/// that names a major and a minor version, the feature that names the major version
/// only is not the one that selects. Some feature does, namely that one or one that
/// comes after it.
pub proof fn law_explicit_feature_takes_priority(names: Seq<Seq<char>>, major: u8, minor: u8)
    requires
        names.contains(feature_name(major, Some(minor))),
    ensures
        !last_feature(names, feature_name(major, None)),
        forall|k: Seq<char>| #[trigger]
            last_feature(names, k) ==> k == feature_name(major, Some(minor)) || text::text_lt(
                feature_name(major, Some(minor)),
                k,
            ),
        forall|pypy: bool, r: Result<VersionView, Seq<char>>| #[trigger]
            env_answer(names, pypy, r) ==> r is Ok,
{
    let k = feature_name(major, Some(minor));
    law_feature_is_read_back(major, Some(minor), Seq::empty());
    lemma_explicit_feature_comes_later(major, minor);
    text::lemma_text_lt_total(feature_name(major, None), k);
    let i = choose|i: int| 0 <= i < names.len() && names[i] == k;
    assert(names[i] == k);
}

/// Of two features that are set alone, one that names a major version only and one
/// that also names a minor version of it, the more explicit one selects its version.
pub proof fn law_explicit_feature_selects(
    names: Seq<Seq<char>>,
    pypy: bool,
    major: u8,
    minor: u8,
)
    requires
        names.contains(feature_name(major, Some(minor))),
        forall|j: int|
            0 <= j < names.len() && pattern::contains_text(
                #[trigger] names[j],
                pattern::FEATURE_PREFIX@,
            ) ==> names[j] == feature_name(major, Some(minor)) || names[j] == feature_name(
                major,
                None,
            ),
    ensures
        env_fits(names),
        env_answer(
            names,
            pypy,
            Ok(VersionView { major, minor: Some(minor), kind: Some(kind_name(pypy)) }),
        ),
{
    lemma_explicit_feature_comes_later(major, minor);
    law_last_feature_selects(names, pypy, major, Some(minor));
}

/// A version with a minor version admits exactly the versions with that major and
/// that minor version, whatever their kind.
pub proof fn law_minor_has_to_match(v: VersionView, found: VersionView, minor: u8)
    requires
        v.minor == Some(minor),
    ensures
        v.admits(found) <==> v.major == found.major && found.minor == Some(minor),
{
}

/// A version is written with its numbers and a full stop between them, and with a
/// star where any minor version will do.
pub proof fn law_version_text(v: VersionView)
    ensures
        v.minor is None ==> v.text() == text::decimal(v.major as nat) + ".*"@,
        forall|minor: u8|
            v.minor == Some(minor) ==> v.text() == text::decimal(v.major as nat) + "."@
                + #[trigger] text::decimal(minor as nat),
{
    reveal_strlit(".");
    reveal_strlit("*");
    reveal_strlit(".*");
    assert("."@ + "*"@ =~= ".*"@);
    assert(text::decimal(v.major as nat) + "."@ + "*"@ =~= text::decimal(v.major as nat) + ".*"@);
}

/// The numbers can be read back from the text of a version: two versions with the same
/// text have the same numbers.
pub proof fn law_version_text_tells_versions_apart(v: VersionView, w: VersionView)
    requires
        v.text() == w.text(),
    ensures
        v.major == w.major,
        v.minor == w.minor,
{
    reveal_strlit(".");
    reveal_strlit("*");
    let a = text::decimal(v.major as nat);
    let b = text::decimal(w.major as nat);
    text::lemma_decimal_denotes(v.major as nat);
    text::lemma_decimal_denotes(w.major as nat);
    let s = v.text();
    assert(s[a.len() as int] == '.');
    assert(s[b.len() as int] == '.');
    if a.len() < b.len() {
        assert(b[a.len() as int] == s[a.len() as int]);
    } else if b.len() < a.len() {
        assert(a[b.len() as int] == s[b.len() as int]);
    }
    assert(a =~= s.take(a.len() as int));
    assert(b =~= s.take(b.len() as int));
    let x = match v.minor {
        Some(m) => text::decimal(m as nat),
        None => "*"@,
    };
    let y = match w.minor {
        Some(m) => text::decimal(m as nat),
        None => "*"@,
    };
    assert(x =~= s.skip(a.len() as int + 1));
    assert(y =~= s.skip(b.len() as int + 1));
    if let Some(m) = v.minor {
        text::lemma_decimal_denotes(m as nat);
        assert(text::is_digit(x[0]));
    }
    if let Some(m) = w.minor {
        text::lemma_decimal_denotes(m as nat);
        assert(text::is_digit(y[0]));
    }
}

/// Whether `t` is made of the digits `0` to `9`, at least one.
pub open spec fn is_numeral(t: Seq<char>) -> bool {
    t.len() > 0 && forall|i: int| 0 <= i < t.len() ==> '0' <= #[trigger] t[i] <= '9'
}

/// Whether `t` holds ASCII characters only.
pub open spec fn is_ascii_text(t: Seq<char>) -> bool {
    forall|i: int| 0 <= i < t.len() ==> '\0' <= #[trigger] t[i] <= '\u{7f}'
}

/// The first version in a line is read, with any number of digits: the numbers that
/// they denote are the answer where both fit into a `u8`, and the line cannot be read
/// where one does not.
pub proof fn law_first_version_is_read(
    before: Seq<char>,
    x: Seq<char>,
    y: Seq<char>,
    after: Seq<char>,
)
    requires
        !before.contains('('),
        is_numeral(x),
        is_numeral(y),
        !after.contains('(') || is_ascii_text(after),
    ensures
        ({
            let line = before + "("@ + x + ", "@ + y + ")"@ + after;
            let found = pattern::version_captures(line);
            &&& found is Some
            &&& version_fits(found) <==> text::number(x) <= 255 && text::number(y) <= 255
            &&& version_fits(found) ==> version_answer(found, line) == Ok::<(u8, u8), Seq<char>>(
                (text::number(x) as u8, text::number(y) as u8),
            )
        }),
{
    reveal_strlit("(");
    reveal_strlit(", ");
    reveal_strlit(")");
    let s = before + "("@ + x + ", "@ + y + ")"@ + after;
    let o = before.len() as int;
    let a = o + 1 + x.len() as int;
    let b = a + 2 + y.len();
    assert(s.subrange(o + 1, a) =~= x);
    assert(s.subrange(a + 2, b) =~= y);
    assert forall|i: int| 0 <= i < s.len() && #[trigger] s[i] == '(' implies i == o || b < i by {
        if i < o {
            assert(before[i] == '(');
        } else if o < i < a {
            assert(s[i] == x[i - o - 1]);
        } else if a + 2 <= i < b {
            assert(s[i] == y[i - a - 2]);
        }
    }
    assert(pattern::version_at(s, o, a, b));
    assert(pattern::first_version_at(s, o, a, b));
    pattern::lemma_version_groups(s, o, a, b);
    assert forall|i: int, c: int| #[trigger]
        pattern::version_reaches(s, i, c) implies text::is_ascii_char(s[c]) by {
        if i == o {
            if b < c {
                assert(s[b] == ')');
            } else if o < c < a {
                assert(s[c] == x[c - o - 1]);
            } else if a + 2 <= c < b {
                assert(s[c] == y[c - a - 2]);
            }
        } else {
            assert(after[i - b - 1] == '(');
            assert(s[c] == after[c - b - 1]);
        }
    }
    text::law_u8_texts(x);
    text::law_u8_texts(y);
}

/// A line without an opening bracket holds no version, and is complained about.
pub proof fn law_line_without_bracket(line: Seq<char>)
    requires
        !line.contains('('),
    ensures
        version_fits(pattern::version_captures(line)),
        version_answer(pattern::version_captures(line), line) == Err::<(u8, u8), Seq<char>>(
            "Unexpected response to version query "@ + line,
        ),
{
    assert forall|i: int, a: int, b: int| !#[trigger] pattern::version_at(line, i, a, b) by {
        if pattern::version_at(line, i, a, b) {
            assert(line[i] == '(');
        }
    }
    assert forall|i: int, c: int| !#[trigger] pattern::version_reaches(line, i, c) by {
        if pattern::version_reaches(line, i, c) {
            assert(line[i] == '(');
        }
    }
}

/// A version that is read stands in the line: two numbers in brackets with a comma and
/// a space between them.
pub proof fn law_version_stands_in_line(line: Seq<char>, major: u8, minor: u8)
    requires
        is_ascii_text(line),
        version_fits(pattern::version_captures(line)),
        version_answer(pattern::version_captures(line), line) == Ok::<(u8, u8), Seq<char>>(
            (major, minor),
        ),
    ensures
        exists|p: Seq<char>, x: Seq<char>, y: Seq<char>, q: Seq<char>|
            line == #[trigger] (p + "("@ + x + ", "@ + y + ")"@ + q) && is_numeral(x) && is_numeral(
                y,
            ) && text::number(x) == major && text::number(y) == minor,
{
    reveal_strlit("(");
    reveal_strlit(", ");
    reveal_strlit(")");
    assert(pattern::version_is_plain(line));
    let (i, a, b) = choose|i: int, a: int, b: int| pattern::first_version_at(line, i, a, b);
    assert(pattern::first_version_at(line, i, a, b));
    let p = line.take(i);
    let x = line.subrange(i + 1, a);
    let y = line.subrange(a + 2, b);
    let q = line.skip(b + 1);
    pattern::lemma_version_groups(line, i, a, b);
    assert(is_numeral(x)) by {
        assert forall|j: int| 0 <= j < x.len() implies '0' <= #[trigger] x[j] <= '9' by {
            assert(text::is_digit(x[j]));
        }
    }
    assert(is_numeral(y)) by {
        assert forall|j: int| 0 <= j < y.len() implies '0' <= #[trigger] y[j] <= '9' by {
            assert(text::is_digit(y[j]));
        }
    }
    text::law_u8_texts(x);
    text::law_u8_texts(y);
    assert(line =~= p + "("@ + x + ", "@ + y + ")"@ + q);
}

/// A line that holds a version anywhere is not complained about.
pub proof fn law_line_with_version_is_answered(
    p: Seq<char>,
    x: Seq<char>,
    y: Seq<char>,
    q: Seq<char>,
)
    requires
        is_numeral(x),
        is_numeral(y),
        is_ascii_text(p + "("@ + x + ", "@ + y + ")"@ + q),
    ensures
        ({
            let line = p + "("@ + x + ", "@ + y + ")"@ + q;
            pattern::version_captures(line) is Some && version_answer(
                pattern::version_captures(line),
                line,
            ) is Ok
        }),
{
    reveal_strlit("(");
    reveal_strlit(", ");
    reveal_strlit(")");
    let s = p + "("@ + x + ", "@ + y + ")"@ + q;
    let o = p.len() as int;
    let a = o + 1 + x.len() as int;
    let b = a + 2 + y.len();
    assert(s.subrange(o + 1, a) =~= x);
    assert(s.subrange(a + 2, b) =~= y);
    assert(pattern::version_at(s, o, a, b));
    lemma_first_version_exists(s, o, a, b);
    assert(pattern::version_is_plain(s));
}

/// Where a version stands there is a first one.
proof fn lemma_first_version_exists(s: Seq<char>, i: int, a: int, b: int)
    requires
        pattern::version_at(s, i, a, b),
    ensures
        exists|j: int, c: int, d: int| pattern::first_version_at(s, j, c, d),
    decreases i,
{
    if !pattern::first_version_at(s, i, a, b) {
        let (j, c, d) = choose|j: int, c: int, d: int| #[trigger]
            pattern::version_at(s, j, c, d) && j < i;
        lemma_first_version_exists(s, j, c, d);
    }
}

/// A feature is read wherever it stands in the name of a variable: the digits behind
/// the prefix are the major version, and an underscore with digits behind them the
/// minor version. Where there is no such underscore any minor version will do; what
/// else follows plays no part.
pub proof fn law_feature_stands_in_name(
    before: Seq<char>,
    x: Seq<char>,
    y: Seq<char>,
    rest: Seq<char>,
    kind: Seq<char>,
)
    requires
        is_numeral(x),
        is_numeral(y),
        is_ascii_text(rest),
        rest.len() > 0 ==> !('0' <= rest[0] <= '9'),
        forall|i: int| #[trigger]
            pattern::stands_at(
                before + "CARGO_FEATURE_PYTHON"@ + x + rest,
                "CARGO_FEATURE_PYTHON"@,
                i,
            ) ==> i == before.len(),
        forall|i: int| #[trigger]
            pattern::stands_at(
                before + "CARGO_FEATURE_PYTHON"@ + x + "_"@ + y + rest,
                "CARGO_FEATURE_PYTHON"@,
                i,
            ) ==> i == before.len(),
    ensures
        ({
            let found = pattern::feature_captures(
                before + "CARGO_FEATURE_PYTHON"@ + x + "_"@ + y + rest,
            );
            &&& found is Some
            &&& feature_fits(found->0) <==> text::number(x) <= 255 && text::number(y) <= 255
            &&& feature_fits(found->0) ==> feature_version(found->0, kind) == (VersionView {
                major: text::number(x) as u8,
                minor: Some(text::number(y) as u8),
                kind: Some(kind),
            })
        }),
        rest.len() < 2 || rest[0] != '_' || !('0' <= rest[1] <= '9') ==> ({
            let found = pattern::feature_captures(before + "CARGO_FEATURE_PYTHON"@ + x + rest);
            &&& found is Some
            &&& feature_fits(found->0) <==> text::number(x) <= 255
            &&& feature_fits(found->0) ==> feature_version(found->0, kind) == (VersionView {
                major: text::number(x) as u8,
                minor: None,
                kind: Some(kind),
            })
        }),
{
    lemma_feature_with_minor(before, x, y, rest, kind);
    if rest.len() < 2 || rest[0] != '_' || !('0' <= rest[1] <= '9') {
        lemma_feature_without_minor(before, x, rest, kind);
    }
}

proof fn lemma_feature_with_minor(
    before: Seq<char>,
    x: Seq<char>,
    y: Seq<char>,
    rest: Seq<char>,
    kind: Seq<char>,
)
    requires
        is_numeral(x),
        is_numeral(y),
        is_ascii_text(rest),
        rest.len() > 0 ==> !('0' <= rest[0] <= '9'),
        forall|i: int| #[trigger]
            pattern::stands_at(
                before + "CARGO_FEATURE_PYTHON"@ + x + "_"@ + y + rest,
                "CARGO_FEATURE_PYTHON"@,
                i,
            ) ==> i == before.len(),
    ensures
        ({
            let found = pattern::feature_captures(
                before + "CARGO_FEATURE_PYTHON"@ + x + "_"@ + y + rest,
            );
            &&& found is Some
            &&& feature_fits(found->0) <==> text::number(x) <= 255 && text::number(y) <= 255
            &&& feature_fits(found->0) ==> feature_version(found->0, kind) == (VersionView {
                major: text::number(x) as u8,
                minor: Some(text::number(y) as u8),
                kind: Some(kind),
            })
        }),
{
    let p = "CARGO_FEATURE_PYTHON"@;
    let o = before.len() as int;
    let e = o + p.len();
    let a = e + x.len();
    let b = a + 1 + y.len();
    let s = before + p + x + "_"@ + y + rest;
    assert(s.subrange(o, e) =~= p && s.subrange(e, a) =~= x && s.subrange(a + 1, b) =~= y && s[a]
        == '_' && (b < s.len() ==> s[b] == rest[0]) && s.len() == b + rest.len()) by {
        reveal_strlit("_");
    }
    assert forall|c: int| e <= c < s.len() implies text::is_ascii_char(#[trigger] s[c]) by {
        if c < a {
            assert(s[c] == s.subrange(e, a)[c - e]);
        } else if a < c < b {
            assert(s[c] == s.subrange(a + 1, b)[c - a - 1]);
        } else if b <= c {
            assert(s[c] == rest[c - b]);
        }
    }
    lemma_only_feature(s, o, a);
    assert(pattern::minor_at(s, a, b));
    pattern::lemma_feature_groups(s, o, a);
    let g = pattern::feature_captures(s)->0;
    assert(g[1] == Some(x) && g[3] == Some(y) && g.len() == 4);
    text::law_u8_texts(x);
    text::law_u8_texts(y);
    law_feature_groups_are_read(g, Some(x), Some(y), kind);
}

/// A feature that stands at the only place of the prefix is the first one, and a search
/// gets as far as no character outside ASCII where there is none behind the prefix.
proof fn lemma_only_feature(s: Seq<char>, o: int, a: int)
    requires
        forall|i: int| #[trigger] pattern::stands_at(s, "CARGO_FEATURE_PYTHON"@, i) ==> i == o,
        pattern::stands_at(s, "CARGO_FEATURE_PYTHON"@, o),
        pattern::digit_run(s, o + "CARGO_FEATURE_PYTHON"@.len(), a),
        forall|c: int|
            o + "CARGO_FEATURE_PYTHON"@.len() <= c < s.len() ==> text::is_ascii_char(
                #[trigger] s[c],
            ),
    ensures
        pattern::first_feature_at(s, o, a),
        pattern::feature_is_plain(s),
        pattern::feature_captures(s) == pattern::feature_groups(s),
{
}

proof fn lemma_feature_without_minor(
    before: Seq<char>,
    x: Seq<char>,
    rest: Seq<char>,
    kind: Seq<char>,
)
    requires
        is_numeral(x),
        is_ascii_text(rest),
        rest.len() > 0 ==> !('0' <= rest[0] <= '9'),
        rest.len() < 2 || rest[0] != '_' || !('0' <= rest[1] <= '9'),
        forall|i: int| #[trigger]
            pattern::stands_at(
                before + "CARGO_FEATURE_PYTHON"@ + x + rest,
                "CARGO_FEATURE_PYTHON"@,
                i,
            ) ==> i == before.len(),
    ensures
        ({
            let found = pattern::feature_captures(before + "CARGO_FEATURE_PYTHON"@ + x + rest);
            &&& found is Some
            &&& feature_fits(found->0) <==> text::number(x) <= 255
            &&& feature_fits(found->0) ==> feature_version(found->0, kind) == (VersionView {
                major: text::number(x) as u8,
                minor: None,
                kind: Some(kind),
            })
        }),
{
    let p = "CARGO_FEATURE_PYTHON"@;
    let o = before.len() as int;
    let e = o + p.len();
    let a = e + x.len();
    let s = before + p + x + rest;
    assert(s.subrange(o, e) =~= p);
    assert(s.subrange(e, a) =~= x);
    assert(a < s.len() ==> s[a] == rest[0]);
    assert(a + 1 < s.len() ==> s[a + 1] == rest[1]);
    assert forall|c: int| e <= c < s.len() implies text::is_ascii_char(#[trigger] s[c]) by {
        if c < a {
            assert(s[c] == s.subrange(e, a)[c - e]);
        } else {
            assert(s[c] == rest[c - a]);
        }
    }
    assert(pattern::digit_run(s, e, a));
    lemma_only_feature(s, o, a);
    assert forall|c: int| !#[trigger] pattern::minor_at(s, a, c) by {
        if pattern::minor_at(s, a, c) {
            assert(text::is_digit(s.subrange(a + 1, c)[0]));
            assert(s.subrange(a + 1, c)[0] == s[a + 1]);
        }
    }
    pattern::lemma_feature_groups(s, o, a);
    let g = pattern::feature_captures(s)->0;
    assert(g[1] == Some(x) && g[3] == None::<Seq<char>> && g.len() == 4);
    text::law_u8_texts(x);
    law_feature_groups_are_read(g, Some(x), None, kind);
}

/// The feature prefix has to be followed by a digit: a name with the prefix and
/// something else in ASCII behind it everywhere names no version.
pub proof fn law_feature_needs_digits(name: Seq<char>)
    requires
        is_ascii_text(name),
        forall|i: int| #[trigger]
            pattern::stands_at(name, "CARGO_FEATURE_PYTHON"@, i) ==> i + "CARGO_FEATURE_PYTHON"@.len()
                == name.len() || !('0' <= name[i + "CARGO_FEATURE_PYTHON"@.len()] <= '9'),
    ensures
        pattern::feature_captures(name) is None,
{
    let p = "CARGO_FEATURE_PYTHON"@;
    assert(pattern::feature_is_plain(name));
    assert forall|i: int, a: int| !#[trigger] pattern::first_feature_at(name, i, a) by {
        if pattern::first_feature_at(name, i, a) {
            assert(pattern::stands_at(name, p, i));
            assert(text::is_digit(name.subrange(i + p.len(), a)[0]));
            assert(name.subrange(i + p.len(), a)[0] == name[i + p.len()]);
        }
    }
}

/// A build asks for PyPy where the `pypy` feature is on, and for CPython where it is
/// not; the feature changes nothing else.
pub proof fn law_pypy_feature_tells_the_kind(
    names: Seq<Seq<char>>,
    pypy: bool,
    r: Result<VersionView, Seq<char>>,
)
    requires
        env_answer(names, pypy, r),
    ensures
        r is Ok && pypy ==> r->Ok_0.kind == Some("pypy"@),
        r is Ok && !pypy ==> r->Ok_0.kind == Some("cpython"@),
        r is Ok ==> env_answer(
            names,
            true,
            Ok(VersionView { kind: Some("pypy"@), ..r->Ok_0 }),
        ) && env_answer(names, false, Ok(VersionView { kind: Some("cpython"@), ..r->Ok_0 })),
        r is Err ==> env_answer(names, !pypy, r),
{
    if let Ok(v) = r {
        let k = choose|k: Seq<char>| #[trigger]
            last_feature(names, k) && v == feature_version(
                pattern::feature_captures(k)->0,
                kind_name(pypy),
            );
        assert(last_feature(names, k));
        assert((VersionView { kind: Some("pypy"@), ..v }) == feature_version(
            pattern::feature_captures(k)->0,
            kind_name(true),
        ));
        assert((VersionView { kind: Some("cpython"@), ..v }) == feature_version(
            pattern::feature_captures(k)->0,
            kind_name(false),
        ));
    }
}

/// Where the name of no variable holds the feature prefix there is no version, and
/// the build is told so.
pub proof fn law_no_feature_is_complained_about(
    names: Seq<Seq<char>>,
    pypy: bool,
    r: Result<VersionView, Seq<char>>,
)
    requires
        forall|j: int|
            0 <= j < names.len() ==> !pattern::contains_text(
                #[trigger] names[j],
                "CARGO_FEATURE_PYTHON"@,
            ),
    ensures
        env_fits(names),
        env_answer(names, pypy, r) <==> r == Err::<VersionView, Seq<char>>(
            "Python version feature was not found. At least one python version feature must be enabled."@,
        ),
{
    assert forall|j: int| 0 <= j < names.len() implies pattern::feature_captures(
        #[trigger] names[j],
    ) is None by {
        pattern::law_feature_needs_prefix(names[j]);
    }
    assert forall|k: Seq<char>| !#[trigger] last_feature(names, k) by {
        if last_feature(names, k) {
            let i = choose|i: int| 0 <= i < names.len() && names[i] == k;
            assert(names[i] == k);
        }
    }
}

/// The order of the variables and how often each is listed play no part.
pub proof fn law_order_of_variables_plays_no_part(
    a: Seq<Seq<char>>,
    b: Seq<Seq<char>>,
    pypy: bool,
    r: Result<VersionView, Seq<char>>,
)
    requires
        forall|k: Seq<char>| #[trigger] a.contains(k) <==> b.contains(k),
    ensures
        env_fits(a) == env_fits(b),
        env_answer(a, pypy, r) == env_answer(b, pypy, r),
{
    assert forall|k: Seq<char>| #[trigger] last_feature(a, k) == last_feature(b, k) by {
        lemma_last_feature_of_same(a, b, k);
        lemma_last_feature_of_same(b, a, k);
    }
    lemma_no_feature_of_same(a, b);
    lemma_no_feature_of_same(b, a);
    if env_fits(a) {
        assert forall|k: Seq<char>| #[trigger] last_feature(b, k) implies feature_fits(
            pattern::feature_captures(k)->0,
        ) by {
            assert(last_feature(a, k));
        }
    }
    if let Ok(v) = r {
        if env_answer(a, pypy, r) {
            let k = choose|k: Seq<char>| #[trigger]
                last_feature(a, k) && v == feature_version(
                    pattern::feature_captures(k)->0,
                    kind_name(pypy),
                );
            assert(last_feature(b, k));
        }
        if env_answer(b, pypy, r) {
            let k = choose|k: Seq<char>| #[trigger]
                last_feature(b, k) && v == feature_version(
                    pattern::feature_captures(k)->0,
                    kind_name(pypy),
                );
            assert(last_feature(a, k));
        }
    }
}

proof fn lemma_last_feature_of_same(a: Seq<Seq<char>>, b: Seq<Seq<char>>, k: Seq<char>)
    requires
        forall|k: Seq<char>| #[trigger] a.contains(k) <==> b.contains(k),
    ensures
        last_feature(a, k) ==> last_feature(b, k),
{
    if last_feature(a, k) {
        assert forall|j: int|
            0 <= j < b.len() && pattern::feature_captures(#[trigger] b[j]) is Some implies b[j] == k
            || text::text_lt(b[j], k) by {
            assert(b.contains(b[j]));
            assert(a.contains(b[j]));
            let i = choose|i: int| 0 <= i < a.len() && a[i] == b[j];
            assert(a[i] == b[j]);
        }
    }
}

proof fn lemma_no_feature_of_same(a: Seq<Seq<char>>, b: Seq<Seq<char>>)
    requires
        forall|k: Seq<char>| #[trigger] a.contains(k) <==> b.contains(k),
    ensures
        no_feature(a) ==> no_feature(b),
{
    if no_feature(a) {
        assert forall|j: int| 0 <= j < b.len() implies pattern::feature_captures(
            #[trigger] b[j],
        ) is None by {
            assert(b.contains(b[j]));
            assert(a.contains(b[j]));
            let i = choose|i: int| 0 <= i < a.len() && a[i] == b[j];
            assert(a[i] == b[j]);
        }
    }
}

/// A variable whose name does not hold the feature prefix plays no part.
pub proof fn law_other_variables_play_no_part(
    names: Seq<Seq<char>>,
    other: Seq<char>,
    pypy: bool,
    r: Result<VersionView, Seq<char>>,
)
    requires
        !pattern::contains_text(other, "CARGO_FEATURE_PYTHON"@),
    ensures
        env_fits(names.push(other)) == env_fits(names),
        env_answer(names.push(other), pypy, r) == env_answer(names, pypy, r),
{
    let more = names.push(other);
    pattern::law_feature_needs_prefix(other);
    assert forall|k: Seq<char>| #[trigger] last_feature(more, k) == last_feature(names, k) by {
        if last_feature(names, k) {
            let i = choose|i: int| 0 <= i < names.len() && names[i] == k;
            assert(more[i] == k);
            assert forall|j: int|
                0 <= j < more.len() && pattern::feature_captures(
                    #[trigger] more[j],
                ) is Some implies more[j] == k || text::text_lt(more[j], k) by {
                assert(more[j] == names[j]);
            }
        }
        if last_feature(more, k) {
            let i = choose|i: int| 0 <= i < more.len() && more[i] == k;
            assert(i < names.len());
            assert(names[i] == k);
            assert forall|j: int|
                0 <= j < names.len() && pattern::feature_captures(
                    #[trigger] names[j],
                ) is Some implies names[j] == k || text::text_lt(names[j], k) by {
                assert(more[j] == names[j]);
            }
        }
    }
    assert(no_feature(more) == no_feature(names)) by {
        if no_feature(more) {
            assert forall|j: int| 0 <= j < names.len() implies pattern::feature_captures(
                #[trigger] names[j],
            ) is None by {
                assert(more[j] == names[j]);
            }
        }
    }
    if env_fits(names) {
        assert forall|k: Seq<char>| #[trigger] last_feature(more, k) implies feature_fits(
            pattern::feature_captures(k)->0,
        ) by {
            assert(last_feature(names, k));
        }
    }
    if env_fits(more) {
        assert forall|k: Seq<char>| #[trigger] last_feature(names, k) implies feature_fits(
            pattern::feature_captures(k)->0,
        ) by {
            assert(last_feature(more, k));
        }
    }
    if let Ok(v) = r {
        if env_answer(names, pypy, r) {
            let k = choose|k: Seq<char>| #[trigger]
                last_feature(names, k) && v == feature_version(
                    pattern::feature_captures(k)->0,
                    kind_name(pypy),
                );
            assert(last_feature(more, k));
        }
        if env_answer(more, pypy, r) {
            let k = choose|k: Seq<char>| #[trigger]
                last_feature(more, k) && v == feature_version(
                    pattern::feature_captures(k)->0,
                    kind_name(pypy),
                );
            assert(last_feature(names, k));
        }
    }
}

/// A feature with any digits selects the version that they denote where it comes after
/// every other variable that names a version, and the selection cannot be told where a
/// number does not fit into a `u8`.
pub proof fn law_last_numbers_select(
    names: Seq<Seq<char>>,
    pypy: bool,
    x: Seq<char>,
    y: Option<Seq<char>>,
)
    requires
        is_numeral(x),
        y matches Some(m) ==> is_numeral(m),
        ({
            let k = "CARGO_FEATURE_PYTHON"@ + x + match y {
                Some(m) => "_"@ + m,
                None => ""@,
            };
            &&& names.contains(k)
            &&& forall|j: int|
                0 <= j < names.len() && pattern::feature_captures(#[trigger] names[j]) is Some
                    ==> names[j] == k || text::text_lt(names[j], k)
        }),
    ensures
        env_fits(names) <==> text::number(x) <= 255 && (y matches Some(m) ==> text::number(m)
            <= 255),
        env_fits(names) ==> env_answer(
            names,
            pypy,
            Ok(
                VersionView {
                    major: text::number(x) as u8,
                    minor: match y {
                        Some(m) => Some(text::number(m) as u8),
                        None => None,
                    },
                    kind: Some(
                        if pypy {
                            "pypy"@
                        } else {
                            "cpython"@
                        },
                    ),
                },
            ),
        ),
{
    let p = "CARGO_FEATURE_PYTHON"@;
    let kind = if pypy {
        "pypy"@
    } else {
        "cpython"@
    };
    reveal_strlit("");
    reveal_strlit("_");
    let none = Seq::<char>::empty();
    let m = match y {
        Some(m) => m,
        None => x,
    };
    let k = p + x + match y {
        Some(m) => "_"@ + m,
        None => ""@,
    };
    let bare = none + p + x + none;
    let full = none + p + x + "_"@ + m + none;
    lemma_prefix_stands_in_front(x, none);
    lemma_prefix_stands_in_front(x, "_"@ + m);
    assert(bare =~= p + x + none);
    assert(full =~= p + x + ("_"@ + m));
    law_feature_stands_in_name(none, x, m, none, kind);
    match y {
        Some(_) => assert(k =~= full),
        None => assert(k =~= bare),
    }
    assert(pattern::feature_captures(k) is Some);
    law_last_capture_selects(names, pypy, k, pattern::feature_captures(k)->0);
}

/// The last variable that names a version selects it, by what its name captures.
pub proof fn law_last_capture_selects(
    names: Seq<Seq<char>>,
    pypy: bool,
    k: Seq<char>,
    g: pattern::Groups,
)
    requires
        names.contains(k),
        pattern::feature_captures(k) == Some(g),
        forall|j: int|
            0 <= j < names.len() && pattern::feature_captures(#[trigger] names[j]) is Some
                ==> names[j] == k || text::text_lt(names[j], k),
    ensures
        env_fits(names) <==> feature_fits(g),
        forall|r: Result<VersionView, Seq<char>>| #[trigger]
            env_answer(names, pypy, r) <==> r == Ok::<VersionView, Seq<char>>(
                feature_version(
                    g,
                    if pypy {
                        "pypy"@
                    } else {
                        "cpython"@
                    },
                ),
            ),
{
    assert(last_feature(names, k));
    assert forall|l: Seq<char>| #[trigger] last_feature(names, l) implies l == k by {
        lemma_last_feature_unique(names, k, l);
    }
    let i = choose|i: int| 0 <= i < names.len() && names[i] == k;
    assert(names[i] == k);
    assert(!no_feature(names));
}

/// The feature prefix stands nowhere but in front of digits and underscores.
proof fn lemma_prefix_stands_in_front(x: Seq<char>, rest: Seq<char>)
    requires
        is_numeral(x),
        forall|i: int| 0 <= i < rest.len() ==> #[trigger] rest[i] == '_' || '0' <= rest[i] <= '9',
    ensures
        forall|i: int| #[trigger]
            pattern::stands_at("CARGO_FEATURE_PYTHON"@ + x + rest, "CARGO_FEATURE_PYTHON"@, i) ==> i
                == 0,
{
    let p = "CARGO_FEATURE_PYTHON"@;
    let s = p + x + rest;
    reveal_strlit("CARGO_FEATURE_PYTHON");
    assert forall|i: int| #[trigger] pattern::stands_at(s, p, i) implies i == 0 by {
        if i > 0 {
            let e = i + p.len() - 1;
            assert(s.subrange(i, i + p.len())[p.len() - 1] == s[e]);
            assert(s[e] == 'N');
            if e < p.len() + x.len() {
                assert(s[e] == x[e - p.len()]);
            } else {
                assert(s[e] == rest[e - p.len() - x.len()]);
            }
        }
    }
}

/// The first group is read as the major version and the second as the minor version,
/// whatever other groups there are; both have to be there and be read as a `u8`.
pub proof fn law_groups_are_read_in_order(
    g: pattern::Groups,
    a: Option<Seq<char>>,
    b: Option<Seq<char>>,
    line: Seq<char>,
)
    requires
        g.len() > 2,
        g[1] == a,
        g[2] == b,
    ensures
        version_fits(Some(g)) <==> a is Some && b is Some && text::u8_of(a->0) is Some
            && text::u8_of(b->0) is Some,
        version_fits(Some(g)) ==> version_answer(Some(g), line) == Ok::<(u8, u8), Seq<char>>(
            (text::u8_of(a->0)->0, text::u8_of(b->0)->0),
        ),
        version_fits(None),
        version_answer(None, line) == Err::<(u8, u8), Seq<char>>(
            "Unexpected response to version query "@ + line,
        ),
{
}

/// Of a feature the first group is read as the major version and the third, where it
/// took part, as the minor version; any minor version will do where it took none.
pub proof fn law_feature_groups_are_read(
    g: pattern::Groups,
    a: Option<Seq<char>>,
    b: Option<Seq<char>>,
    kind: Seq<char>,
)
    requires
        g.len() > 3,
        g[1] == a,
        g[3] == b,
    ensures
        feature_fits(g) <==> a is Some && text::u8_of(a->0) is Some && (b is Some ==> text::u8_of(
            b->0,
        ) is Some),
        feature_fits(g) && b is None ==> feature_version(g, kind) == (VersionView {
            major: text::u8_of(a->0)->0,
            minor: None,
            kind: Some(kind),
        }),
        feature_fits(g) && b is Some ==> feature_version(g, kind) == (VersionView {
            major: text::u8_of(a->0)->0,
            minor: Some(text::u8_of(b->0)->0),
            kind: Some(kind),
        }),
{
}

} // verus!
