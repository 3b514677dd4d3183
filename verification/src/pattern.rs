//! The two regular expressions of the crate and what they capture.

use vstd::prelude::*;

use crate::text;

verus! {

/// What an interpreter prints for its major and minor version.
pub const VERSION_PATTERN: &'static str = r"\((\d+), (\d+)\)";

/// The environment variable of a Cargo feature that names a Python version.
pub const FEATURE_PATTERN: &'static str = r"CARGO_FEATURE_PYTHON(\d+)(_(\d+))?";

/// The literal text that [`FEATURE_PATTERN`] begins with.
pub const FEATURE_PREFIX: &'static str = "CARGO_FEATURE_PYTHON";

/// What a successful search captures: the groups by number, group 0 being the
/// whole match; a group that took no part in the match is `None`.
pub type Groups = Seq<Option<Seq<char>>>;

/// The groups in a vector of strings.
pub open spec fn groups_view(groups: Seq<Option<String>>) -> Groups {
    groups.map_values(
        |g: Option<String>|
            match g {
                Some(s) => Some(s@),
                None => None,
            },
    )
}

/// The outcome of a search in terms of sequences.
pub open spec fn search_view(found: Option<Vec<Option<String>>>) -> Option<Groups> {
    match found {
        Some(groups) => Some(groups_view(groups@)),
        None => None,
    }
}

/// Whether `(`, digits up to `a`, a comma and a space, digits up to `b` and `)`
/// stand in `s` from `i` on.
pub open spec fn version_at(s: Seq<char>, i: int, a: int, b: int) -> bool {
    &&& 0 <= i
    &&& i + 1 < a
    &&& a + 2 < b
    &&& b < s.len()
    &&& s[i] == '('
    &&& text::all_digits(s.subrange(i + 1, a))
    &&& s[a] == ','
    &&& s[a + 1] == ' '
    &&& text::all_digits(s.subrange(a + 2, b))
    &&& s[b] == ')'
}

/// The leftmost place of `s` where a version stands.
pub open spec fn first_version_at(s: Seq<char>, i: int, a: int, b: int) -> bool {
    &&& version_at(s, i, a, b)
    &&& forall|j: int, c: int, d: int| #[trigger] version_at(s, j, c, d) ==> i <= j
}

/// What [`VERSION_PATTERN`] captures where `\d` stands for the digits `0` to `9`.
pub open spec fn version_groups(s: Seq<char>) -> Option<Groups> {
    if exists|i: int, a: int, b: int| first_version_at(s, i, a, b) {
        let (i, a, b) = choose|i: int, a: int, b: int| first_version_at(s, i, a, b);
        Some(
            seq![
                Some(s.subrange(i, b + 1)),
                Some(s.subrange(i + 1, a)),
                Some(s.subrange(a + 2, b)),
            ],
        )
    } else {
        None
    }
}

/// Whether `t` stands in `s` from `i` on.
pub open spec fn stands_at(s: Seq<char>, t: Seq<char>, i: int) -> bool {
    0 <= i && i + t.len() <= s.len() && s.subrange(i, i + t.len()) == t
}

/// Whether `t` stands somewhere in `s`.
pub open spec fn contains_text(s: Seq<char>, t: Seq<char>) -> bool {
    exists|i: int| stands_at(s, t, i)
}

/// Whether the digits of `s` from `i` on, at least one, end at `a`.
pub open spec fn digit_run(s: Seq<char>, i: int, a: int) -> bool {
    &&& 0 <= i < a <= s.len()
    &&& text::all_digits(s.subrange(i, a))
    &&& a < s.len() ==> !text::is_digit(s[a])
}

/// Whether [`FEATURE_PREFIX`] stands in `s` from `i` on, followed by digits that
/// end at `a`.
pub open spec fn feature_at(s: Seq<char>, i: int, a: int) -> bool {
    &&& stands_at(s, FEATURE_PREFIX@, i)
    &&& digit_run(s, i + FEATURE_PREFIX@.len(), a)
}

/// The leftmost place of `s` where a feature stands.
pub open spec fn first_feature_at(s: Seq<char>, i: int, a: int) -> bool {
    &&& feature_at(s, i, a)
    &&& forall|j: int, c: int| #[trigger] feature_at(s, j, c) ==> i <= j
}

/// Whether an underscore stands at `a`, followed by digits that end at `b`.
pub open spec fn minor_at(s: Seq<char>, a: int, b: int) -> bool {
    &&& 0 <= a < s.len()
    &&& s[a] == '_'
    &&& digit_run(s, a + 1, b)
}

/// What [`FEATURE_PATTERN`] captures where `\d` stands for the digits `0` to `9`.
pub open spec fn feature_groups(s: Seq<char>) -> Option<Groups> {
    if exists|i: int, a: int| first_feature_at(s, i, a) {
        let (i, a) = choose|i: int, a: int| first_feature_at(s, i, a);
        let major = s.subrange(i + FEATURE_PREFIX@.len(), a);
        if exists|b: int| minor_at(s, a, b) {
            let b = choose|b: int| minor_at(s, a, b);
            Some(
                seq![
                    Some(s.subrange(i, b)),
                    Some(major),
                    Some(s.subrange(a, b)),
                    Some(s.subrange(a + 1, b)),
                ],
            )
        } else {
            Some(seq![Some(s.subrange(i, a)), Some(major), None, None])
        }
    } else {
        None
    }
}

/// Whether a search for a version that starts at `i` may get as far as `c`: from an
/// opening bracket over digits, commas and spaces.
pub open spec fn version_reaches(s: Seq<char>, i: int, c: int) -> bool {
    &&& 0 <= i < c < s.len()
    &&& s[i] == '('
    &&& forall|j: int|
        i < j < c ==> text::is_digit(#[trigger] s[j]) || s[j] == ',' || s[j] == ' '
}

/// Whether a search for a version gets as far as no character outside ASCII, so
/// that the decimal digits of other scripts play no part in it.
pub open spec fn version_is_plain(s: Seq<char>) -> bool {
    forall|i: int, c: int| #[trigger] version_reaches(s, i, c) ==> text::is_ascii_char(s[c])
}

/// Whether a search for a feature that starts at `i` may get as far as `c`: from
/// [`FEATURE_PREFIX`] over digits and underscores.
pub open spec fn feature_reaches(s: Seq<char>, i: int, c: int) -> bool {
    &&& stands_at(s, FEATURE_PREFIX@, i)
    &&& i + FEATURE_PREFIX@.len() <= c < s.len()
    &&& forall|j: int|
        i + FEATURE_PREFIX@.len() <= j < c ==> text::is_digit(#[trigger] s[j]) || s[j] == '_'
}

/// Whether a search for a feature gets as far as no character outside ASCII, so
/// that the decimal digits of other scripts play no part in it.
pub open spec fn feature_is_plain(s: Seq<char>) -> bool {
    forall|i: int, c: int| #[trigger] feature_reaches(s, i, c) ==> text::is_ascii_char(s[c])
}

/// What `Regex::captures` finds in a text where a character outside ASCII stands
/// in the way of the search, and `\d` may stand for it.
pub uninterp spec fn regex_captures(pattern: Seq<char>, text: Seq<char>) -> Option<
    Seq<Option<Seq<char>>>,
>;

/// What [`VERSION_PATTERN`] captures in `s`.
pub open spec fn version_captures(s: Seq<char>) -> Option<Groups> {
    if version_is_plain(s) {
        version_groups(s)
    } else {
        regex_captures(VERSION_PATTERN@, s)
    }
}

/// What [`FEATURE_PATTERN`] captures in `s`.
pub open spec fn feature_captures(s: Seq<char>) -> Option<Groups> {
    if feature_is_plain(s) {
        feature_groups(s)
    } else {
        regex_captures(FEATURE_PATTERN@, s)
    }
}

/// Compiles `pattern` with `regex::Regex::new` and searches `text` with
/// `regex::Regex::captures`, handing out the text of each group.
///
/// Trusted: both patterns of this crate compile. The search finds the leftmost
/// match, and each `+` and `?` takes as much as it can. Among ASCII characters `\d`
/// stands for the digits `0` to `9`; so where a search gets as far as no other
/// character the captures are [`version_groups`] and [`feature_groups`]. Where it
/// does, `\d` may stand for that character, as a decimal digit of another script,
/// and all that is claimed is that the captures depend on pattern and text alone.
#[verifier::external_body]
pub(crate) fn find_captures(pattern: &str, text: &str) -> (r: Option<Vec<Option<String>>>)
    requires
        pattern@ == VERSION_PATTERN@ || pattern@ == FEATURE_PATTERN@,
    ensures
        pattern@ == VERSION_PATTERN@ && version_is_plain(text@) ==> search_view(r)
            == version_groups(text@),
        pattern@ == FEATURE_PATTERN@ && feature_is_plain(text@) ==> search_view(r)
            == feature_groups(text@),
        pattern@ == VERSION_PATTERN@ && !version_is_plain(text@) ==> search_view(r)
            == regex_captures(pattern@, text@),
        pattern@ == FEATURE_PATTERN@ && !feature_is_plain(text@) ==> search_view(r)
            == regex_captures(pattern@, text@),
{
    let compiled = regex::Regex::new(pattern).unwrap();
    compiled.captures(text).map(
        |found| found.iter().map(|group| group.map(|m| m.as_str().to_string())).collect(),
    )
}

/// A digit run that starts at a given place ends at one place only.
proof fn lemma_digit_run_unique(s: Seq<char>, i: int, a: int, b: int)
    requires
        digit_run(s, i, a),
        digit_run(s, i, b),
    ensures
        a == b,
{
    if a < b {
        assert(s.subrange(i, b)[a - i] == s[a]);
    } else if b < a {
        assert(s.subrange(i, a)[b - i] == s[b]);
    }
}

/// A text without [`FEATURE_PREFIX`] holds no feature, whatever its characters.
pub proof fn law_feature_needs_prefix(s: Seq<char>)
    requires
        !contains_text(s, FEATURE_PREFIX@),
    ensures
        feature_captures(s) is None,
{
    assert(forall|i: int| !stands_at(s, FEATURE_PREFIX@, i));
}

/// What is captured where the leftmost version is known.
pub proof fn lemma_version_groups(s: Seq<char>, i: int, a: int, b: int)
    requires
        first_version_at(s, i, a, b),
    ensures
        version_groups(s) == Some(
            seq![
                Some(s.subrange(i, b + 1)),
                Some(s.subrange(i + 1, a)),
                Some(s.subrange(a + 2, b)),
            ],
        ),
{
    let (j, c, d) = choose|j: int, c: int, d: int| first_version_at(s, j, c, d);
    assert(first_version_at(s, j, c, d));
    assert(version_at(s, j, c, d));
    assert(version_at(s, i, a, b));
    assert(i == j);
    lemma_digit_run_unique(s, i + 1, a, c);
    lemma_digit_run_unique(s, a + 2, b, d);
}

/// What is captured where the leftmost feature is known.
pub proof fn lemma_feature_groups(s: Seq<char>, i: int, a: int)
    requires
        first_feature_at(s, i, a),
    ensures
        forall|b: int| #[trigger] minor_at(s, a, b) ==> feature_groups(s) == Some(
            seq![
                Some(s.subrange(i, b)),
                Some(s.subrange(i + FEATURE_PREFIX@.len(), a)),
                Some(s.subrange(a, b)),
                Some(s.subrange(a + 1, b)),
            ],
        ),
        (forall|b: int| !minor_at(s, a, b)) ==> feature_groups(s) == Some(
            seq![
                Some(s.subrange(i, a)),
                Some(s.subrange(i + FEATURE_PREFIX@.len(), a)),
                None,
                None,
            ],
        ),
{
    let (j, c) = choose|j: int, c: int| first_feature_at(s, j, c);
    assert(first_feature_at(s, j, c));
    assert(feature_at(s, j, c));
    assert(feature_at(s, i, a));
    assert(i == j);
    lemma_digit_run_unique(s, i + FEATURE_PREFIX@.len(), a, c);
    assert forall|b: int| #[trigger] minor_at(s, a, b) implies feature_groups(s) == Some(
        seq![
            Some(s.subrange(i, b)),
            Some(s.subrange(i + FEATURE_PREFIX@.len(), a)),
            Some(s.subrange(a, b)),
            Some(s.subrange(a + 1, b)),
        ],
    ) by {
        let e = choose|e: int| minor_at(s, a, e);
        assert(minor_at(s, a, e));
        lemma_digit_run_unique(s, a + 1, b, e);
    }
}

} // verus!
