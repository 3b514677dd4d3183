//! Text as sequences of characters: numerals, lines, trimming and order.

use vstd::prelude::*;
use vstd::utf8::*;

verus! {

/// Whether `c` is one of the digits `0` to `9`.
pub open spec fn is_digit(c: char) -> bool {
    '0' <= c && c <= '9'
}

/// Whether every character of `s` is one of the digits `0` to `9`.
pub open spec fn all_digits(s: Seq<char>) -> bool {
    forall|i: int| 0 <= i < s.len() ==> is_digit(#[trigger] s[i])
}

/// The value of the digit `c`.
pub open spec fn digit_value(c: char) -> nat
    recommends
        is_digit(c),
{
    (c as int - '0' as int) as nat
}

/// The digit that stands for `d`.
pub open spec fn digit_char(d: nat) -> char
    recommends
        d < 10,
{
    ('0' as int + d) as char
}

/// The number that the digits of `s` denote in base ten.
pub open spec fn number(s: Seq<char>) -> nat
    decreases s.len(),
{
    if s.len() == 0 {
        0
    } else {
        number(s.drop_last()) * 10 + digit_value(s.last())
    }
}

/// The numeral of `n` in base ten, without leading zeros.
pub open spec fn decimal(n: nat) -> Seq<char>
    decreases n,
{
    if n < 10 {
        seq![digit_char(n)]
    } else {
        decimal(n / 10).push(digit_char(n % 10))
    }
}

/// The digits of a numeral that may carry a plus sign.
pub open spec fn unsigned_digits(s: Seq<char>) -> Seq<char> {
    if s.len() > 1 && s[0] == '+' {
        s.skip(1)
    } else {
        s
    }
}

/// The `u8` that `s` denotes: a nonempty run of digits, perhaps after a plus
/// sign, whose number fits.
pub open spec fn u8_of(s: Seq<char>) -> Option<u8> {
    let d = unsigned_digits(s);
    if d.len() > 0 && all_digits(d) && number(d) <= u8::MAX {
        Some(number(d) as u8)
    } else {
        None
    }
}

/// The views of a sequence of strings.
pub open spec fn views(v: Seq<String>) -> Seq<Seq<char>> {
    v.map_values(|s: String| s@)
}

proof fn lemma_number_grows(s: Seq<char>, n: int)
    requires
        0 <= n <= s.len(),
    ensures
        number(s.take(n)) <= number(s),
    decreases s.len(),
{
    if n == s.len() {
        assert(s.take(n) =~= s);
    } else {
        lemma_number_grows(s.drop_last(), n);
        assert(s.drop_last().take(n) =~= s.take(n));
    }
}

/// The numeral of a number is made of digits and denotes that number.
pub proof fn lemma_decimal_denotes(n: nat)
    ensures
        decimal(n).len() > 0,
        all_digits(decimal(n)),
        number(decimal(n)) == n,
    decreases n,
{
    if n < 10 {
        assert(decimal(n).drop_last() =~= Seq::<char>::empty());
        assert(number(decimal(n).drop_last()) == 0);
    } else {
        lemma_decimal_denotes(n / 10);
        assert(decimal(n).drop_last() =~= decimal(n / 10));
    }
}

/// A `u8` is read back from its numeral.
pub proof fn law_u8_is_read_back(n: u8)
    ensures
        u8_of(decimal(n as nat)) == Some(n),
{
    lemma_decimal_denotes(n as nat);
    assert(is_digit(decimal(n as nat)[0]));
}

/// The characters of `s`.
pub fn to_chars(s: &str) -> (v: Vec<char>)
    ensures
        v@ == s@,
{
    let mut v: Vec<char> = Vec::new();
    for c in it: s.chars()
        invariant
            it.seq() == s@,
            v@ == s@.take(it.index()),
    {
        v.push(c);
    }
    assert(s@.take(s@.len() as int) =~= s@);
    v
}

/// Whether two texts are equal.
pub fn same_text(a: &str, b: &str) -> (r: bool)
    ensures
        r == (a@ == b@),
{
    let x: Vec<char> = to_chars(a);
    let y: Vec<char> = to_chars(b);
    if x.len() != y.len() {
        return false;
    }
    let mut i: usize = 0;
    while i < x.len()
        invariant
            x@ == a@,
            y@ == b@,
            x.len() == y.len(),
            i <= x.len(),
            forall|j: int| 0 <= j < i ==> x@[j] == y@[j],
        decreases x.len() - i,
    {
        if x[i] != y[i] {
            return false;
        }
        i += 1;
    }
    assert(a@ =~= b@);
    true
}

fn digit_text(d: usize) -> (r: &'static str)
    requires
        d < 10,
    ensures
        r@ == seq![digit_char(d as nat)],
{
    proof {
        reveal_strlit("0");
        reveal_strlit("1");
        reveal_strlit("2");
        reveal_strlit("3");
        reveal_strlit("4");
        reveal_strlit("5");
        reveal_strlit("6");
        reveal_strlit("7");
        reveal_strlit("8");
        reveal_strlit("9");
    }
    if d == 0 {
        "0"
    } else if d == 1 {
        "1"
    } else if d == 2 {
        "2"
    } else if d == 3 {
        "3"
    } else if d == 4 {
        "4"
    } else if d == 5 {
        "5"
    } else if d == 6 {
        "6"
    } else if d == 7 {
        "7"
    } else if d == 8 {
        "8"
    } else {
        "9"
    }
}

/// Writes `n` in base ten.
pub fn decimal_text(n: usize) -> (r: String)
    ensures
        r@ == decimal(n as nat),
    decreases n,
{
    if n < 10 {
        digit_text(n).to_owned()
    } else {
        let mut r: String = decimal_text(n / 10);
        r.append(digit_text(n % 10));
        r
    }
}

/// Reads a `u8` in base ten.
pub fn parse_u8(s: &str) -> (r: Option<u8>)
    ensures
        r == u8_of(s@),
{
    let v: Vec<char> = to_chars(s);
    let start: usize = if v.len() > 1 && v[0] == '+' {
        1
    } else {
        0
    };
    if v.len() == 0 {
        return None;
    }
    let ghost d = unsigned_digits(s@);
    assert(d =~= s@.skip(start as int));
    let mut acc: u32 = 0;
    let mut i: usize = start;
    while i < v.len()
        invariant
            v@ == s@,
            d == unsigned_digits(s@),
            d == s@.skip(start as int),
            start <= i <= v.len(),
            start < v.len(),
            acc <= 255,
            all_digits(d.take(i - start)),
            acc == number(d.take(i - start)),
        decreases v.len() - i,
    {
        let c: char = v[i];
        assert(d[i - start] == c);
        if c < '0' || c > '9' {
            return None;
        }
        acc = acc * 10 + (c as u32 - '0' as u32);
        proof {
            let p = d.take(i - start + 1);
            assert(p.drop_last() =~= d.take(i - start));
            assert(number(p) == acc);
            lemma_number_grows(d, i - start + 1);
        }
        if acc > 255 {
            return None;
        }
        i += 1;
    }
    assert(d.take(d.len() as int) =~= d);
    Some(acc as u8)
}

/// Whether `c` is an ASCII character.
pub open spec fn is_ascii_char(c: char) -> bool {
    (c as u32) < 128
}

/// Whether `c`, outside ASCII, has the Unicode property `White_Space`.
pub uninterp spec fn unicode_white_space(c: char) -> bool;

/// Whether `c` is white space. Within ASCII that is the space and the
/// characters from tab to carriage return.
pub open spec fn is_white_space(c: char) -> bool {
    if is_ascii_char(c) {
        c == ' ' || ('\t' <= c && c <= '\r')
    } else {
        unicode_white_space(c)
    }
}

/// [`char::is_whitespace`] tells whether a character has the Unicode property
/// `White_Space`. Trusted: within ASCII these are the space and the characters
/// from tab to carriage return; outside it the answer depends on the character
/// alone.
pub assume_specification[ char::is_whitespace ](c: char) -> (b: bool)
    ensures
        is_ascii_char(c) ==> b == (c == ' ' || ('\t' <= c && c <= '\r')),
        !is_ascii_char(c) ==> b == unicode_white_space(c),
;

/// `s` without the white space at its end.
pub open spec fn trim_end(s: Seq<char>) -> Seq<char>
    decreases s.len(),
{
    if s.len() > 0 && is_white_space(s.last()) {
        trim_end(s.drop_last())
    } else {
        s
    }
}

/// Drops the white space at the end of `s`.
pub fn trim_end_text(s: &str) -> (r: String)
    ensures
        r@ == trim_end(s@),
{
    let v: Vec<char> = to_chars(s);
    let mut n: usize = v.len();
    assert(s@.take(n as int) =~= s@);
    while n > 0 && v[n - 1].is_whitespace()
        invariant
            v@ == s@,
            n <= v.len(),
            trim_end(s@.take(n as int)) == trim_end(s@),
        ensures
            n <= v.len(),
            trim_end(s@) == s@.take(n as int),
        decreases n,
    {
        assert(s@.take(n as int).drop_last() =~= s@.take(n - 1));
        n -= 1;
    }
    assert(s@.subrange(0, n as int) =~= s@.take(n as int));
    s.substring_char(0, n).to_owned()
}

/// The lower-case form of an ASCII character.
pub open spec fn ascii_lower_char(c: char) -> char {
    if 'A' <= c && c <= 'Z' {
        (c as int + 32) as char
    } else {
        c
    }
}

/// The Unicode lower-case form of a text that is not all ASCII.
pub uninterp spec fn unicode_lower(s: Seq<char>) -> Seq<char>;

/// The lower-case form of a text: letter by letter where it is all ASCII.
pub open spec fn lower(s: Seq<char>) -> Seq<char> {
    if is_ascii_chars(s) {
        s.map_values(|c: char| ascii_lower_char(c))
    } else {
        unicode_lower(s)
    }
}

/// Calls [`str::to_lowercase`]. Trusted: an ASCII text is mapped letter by
/// letter, `A` to `Z` onto `a` to `z`; for any other text the result depends on
/// the text alone.
#[verifier::external_body]
pub(crate) fn to_lower(s: &str) -> (r: String)
    ensures
        is_ascii_chars(s@) ==> r@ == s@.map_values(|c: char| ascii_lower_char(c)),
        !is_ascii_chars(s@) ==> r@ == unicode_lower(s@),
{
    s.to_lowercase()
}

/// The number of characters before the first line feed of `s`, or before its
/// end where it has none.
pub open spec fn line_len(s: Seq<char>) -> nat
    decreases s.len(),
{
    if s.len() == 0 || s[0] == '\n' {
        0
    } else {
        1 + line_len(s.skip(1))
    }
}

/// `s` without a carriage return at its end.
pub open spec fn strip_carriage_return(s: Seq<char>) -> Seq<char> {
    if s.len() > 0 && s.last() == '\r' {
        s.drop_last()
    } else {
        s
    }
}

/// The lines of `s`. A line ends with a line feed, or with a carriage return
/// and a line feed; the last line needs no ending.
pub open spec fn lines(s: Seq<char>) -> Seq<Seq<char>>
    decreases s.len(),
    via lines_decreases
{
    let n = line_len(s);
    if s.len() == 0 {
        Seq::empty()
    } else if n >= s.len() {
        seq![s]
    } else {
        seq![strip_carriage_return(s.take(n as int))] + lines(s.skip(n as int + 1))
    }
}

#[via_fn]
proof fn lines_decreases(s: Seq<char>) {
}

proof fn lemma_line_len(s: Seq<char>, n: nat)
    requires
        n <= s.len(),
        forall|j: int| 0 <= j < n ==> s[j] != '\n',
        n < s.len() ==> s[n as int] == '\n',
    ensures
        line_len(s) == n,
    decreases n,
{
    if n > 0 {
        lemma_line_len(s.skip(1), (n - 1) as nat);
    }
}

/// Splits `s` into its lines.
pub fn split_lines(s: &str) -> (r: Vec<String>)
    ensures
        views(r@) == lines(s@),
{
    let v: Vec<char> = to_chars(s);
    let mut r: Vec<String> = Vec::new();
    let mut start: usize = 0;
    assert(s@.skip(0) =~= s@);
    assert(views(r@) + lines(s@) =~= lines(s@));
    while start < v.len()
        invariant
            v@ == s@,
            start <= v.len(),
            views(r@) + lines(s@.skip(start as int)) == lines(s@),
        decreases v.len() - start,
    {
        let ghost rest = s@.skip(start as int);
        let mut i: usize = start;
        while i < v.len() && v[i] != '\n'
            invariant
                v@ == s@,
                start <= i <= v.len(),
                rest == s@.skip(start as int),
                forall|j: int| 0 <= j < i - start ==> rest[j] != '\n',
            ensures
                i < v.len() ==> v@[i as int] == '\n',
            decreases v.len() - i,
        {
            assert(rest[i - start] == v@[i as int]);
            i += 1;
        }
        proof {
            lemma_line_len(rest, (i - start) as nat);
        }
        let ghost before = views(r@);
        if i == v.len() {
            assert(s@.subrange(start as int, i as int) =~= rest);
            r.push(s.substring_char(start, i).to_owned());
            assert(views(r@) =~= before.push(rest));
            assert(views(r@) + lines(s@.skip(i as int)) =~= before + lines(rest)) by {
                assert(lines(rest) =~= seq![rest]);
                assert(s@.skip(i as int) =~= Seq::<char>::empty());
                assert(lines(s@.skip(i as int)) =~= Seq::<Seq<char>>::empty());
            }
            start = i;
        } else {
            let end: usize = if i > start && v[i - 1] == '\r' {
                i - 1
            } else {
                i
            };
            assert(s@.subrange(start as int, end as int) =~= strip_carriage_return(
                rest.take(i - start),
            ));
            r.push(s.substring_char(start, end).to_owned());
            assert(views(r@) =~= before.push(strip_carriage_return(rest.take(i - start))));
            assert(rest.skip(i - start + 1) =~= s@.skip(i + 1));
            assert(views(r@) + lines(s@.skip(i + 1)) =~= before + lines(rest));
            start = i + 1;
        }
    }
    assert(s@.skip(start as int) =~= Seq::<char>::empty());
    assert(views(r@) + lines(s@.skip(start as int)) =~= views(r@));
    r
}

/// Whether `s` can stand as a line: it holds no line feed and ends with no
/// carriage return.
pub open spec fn is_line(s: Seq<char>) -> bool {
    &&& forall|i: int| 0 <= i < s.len() ==> #[trigger] s[i] != '\n'
    &&& s.len() > 0 ==> s.last() != '\r'
}

/// The texts of `l`, each followed by a line feed.
pub open spec fn unlines(l: Seq<Seq<char>>) -> Seq<char>
    decreases l.len(),
{
    if l.len() == 0 {
        Seq::empty()
    } else {
        l[0].push('\n') + unlines(l.skip(1))
    }
}

/// Lines that are written out one after the other are read back.
pub proof fn law_lines_are_read_back(l: Seq<Seq<char>>)
    requires
        forall|i: int| 0 <= i < l.len() ==> is_line(#[trigger] l[i]),
    ensures
        lines(unlines(l)) == l,
    decreases l.len(),
{
    if l.len() == 0 {
        assert(lines(unlines(l)) =~= l);
    } else {
        let s = unlines(l);
        let n = l[0].len();
        assert forall|i: int| 0 <= i < l.skip(1).len() implies is_line(#[trigger] l.skip(1)[i]) by {
            assert(l.skip(1)[i] == l[i + 1]);
        }
        law_lines_are_read_back(l.skip(1));
        assert(is_line(l[0]));
        assert(forall|j: int| 0 <= j < n ==> s[j] == l[0][j]);
        lemma_line_len(s, n);
        assert(s.take(n as int) =~= l[0]);
        assert(s.skip(n as int + 1) =~= unlines(l.skip(1)));
        assert(lines(s) =~= seq![l[0]] + lines(unlines(l.skip(1))));
        assert(lines(s) =~= l);
    }
}

/// Lines are read back also where the last line feed is missing, provided that the
/// last line is not empty.
pub proof fn lemma_lines_without_last_ending(l: Seq<Seq<char>>)
    requires
        l.len() > 0,
        l.last().len() > 0,
        forall|i: int| 0 <= i < l.len() ==> is_line(#[trigger] l[i]),
    ensures
        unlines(l).len() > 1,
        unlines(l).last() == '\n',
        unlines(l).drop_last().last() == l.last().last(),
        lines(unlines(l).drop_last()) == l,
    decreases l.len(),
{
    let s = unlines(l).drop_last();
    let n = l[0].len();
    assert(is_line(l[0]));
    if l.len() == 1 {
        assert(unlines(l.skip(1)) =~= Seq::<char>::empty());
        assert(unlines(l) =~= l[0].push('\n'));
        assert(s =~= l[0]);
        lemma_line_len(s, n);
        assert(lines(s) =~= l);
    } else {
        let rest = l.skip(1);
        assert forall|i: int| 0 <= i < rest.len() implies is_line(#[trigger] rest[i]) by {
            assert(rest[i] == l[i + 1]);
        }
        lemma_lines_without_last_ending(rest);
        assert(s =~= l[0].push('\n') + unlines(rest).drop_last());
        assert(forall|j: int| 0 <= j < n ==> s[j] == l[0][j]);
        lemma_line_len(s, n);
        assert(s.take(n as int) =~= l[0]);
        assert(s.skip(n as int + 1) =~= unlines(rest).drop_last());
        assert(lines(s) =~= seq![l[0]] + rest);
        assert(lines(s) =~= l);
    }
}

/// Trimming a line that ends with no white space gives the line without its
/// ending.
pub proof fn lemma_trim_line(s: Seq<char>)
    requires
        s.len() > 0 ==> !is_white_space(s.last()),
    ensures
        trim_end(s.push('\n')) == s,
{
    assert(s.push('\n').drop_last() =~= s);
    assert(trim_end(s) == s);
}

/// Whether `a` comes before `b` in the order of texts by code points.
pub open spec fn text_lt(a: Seq<char>, b: Seq<char>) -> bool
    decreases a.len(),
{
    if b.len() == 0 {
        false
    } else if a.len() == 0 {
        true
    } else if a[0] != b[0] {
        a[0] < b[0]
    } else {
        text_lt(a.skip(1), b.skip(1))
    }
}

/// The order of texts is transitive.
pub proof fn lemma_text_lt_transitive(a: Seq<char>, b: Seq<char>, c: Seq<char>)
    requires
        text_lt(a, b),
        text_lt(b, c),
    ensures
        text_lt(a, c),
    decreases a.len(),
{
    if a.len() > 0 && a[0] == b[0] && b[0] == c[0] {
        lemma_text_lt_transitive(a.skip(1), b.skip(1), c.skip(1));
    }
}

/// Of two different texts exactly one comes first.
pub proof fn lemma_text_lt_total(a: Seq<char>, b: Seq<char>)
    ensures
        text_lt(a, b) || text_lt(b, a) || a == b,
        !(text_lt(a, b) && text_lt(b, a)),
        text_lt(a, b) ==> a != b,
    decreases a.len(),
{
    if a.len() > 0 && b.len() > 0 && a[0] == b[0] {
        lemma_text_lt_total(a.skip(1), b.skip(1));
        if a.skip(1) == b.skip(1) {
            assert(a =~= seq![a[0]] + a.skip(1));
            assert(b =~= seq![b[0]] + b.skip(1));
        }
    } else if a.len() == 0 && b.len() == 0 {
        assert(a =~= b);
    }
}

/// A text comes before every longer text that begins with it.
pub proof fn lemma_prefix_comes_first(a: Seq<char>, b: Seq<char>)
    requires
        b.len() > 0,
    ensures
        text_lt(a, a + b),
    decreases a.len(),
{
    if a.len() > 0 {
        lemma_prefix_comes_first(a.skip(1), b);
        assert((a + b).skip(1) =~= a.skip(1) + b);
    }
}

/// Whether `a` comes before `b` in the order of texts.
pub fn comes_before(a: &str, b: &str) -> (r: bool)
    ensures
        r == text_lt(a@, b@),
{
    let x: Vec<char> = to_chars(a);
    let y: Vec<char> = to_chars(b);
    let mut i: usize = 0;
    assert(a@.skip(0) =~= a@);
    assert(b@.skip(0) =~= b@);
    while i < x.len() && i < y.len()
        invariant
            x@ == a@,
            y@ == b@,
            i <= x.len(),
            i <= y.len(),
            text_lt(a@, b@) == text_lt(a@.skip(i as int), b@.skip(i as int)),
        decreases x.len() - i,
    {
        if x[i] != y[i] {
            return x[i] < y[i];
        }
        assert(a@.skip(i as int).skip(1) =~= a@.skip(i + 1));
        assert(b@.skip(i as int).skip(1) =~= b@.skip(i + 1));
        i += 1;
    }
    i < y.len()
}

/// Numerals are positional: of two runs of digits that are joined, the first counts
/// for its number times the power of ten that the second is long.
pub proof fn law_number_of_joined_digits(s: Seq<char>, t: Seq<char>)
    ensures
        number(s + t) == number(s) * vstd::arithmetic::power::pow(10, t.len()) + number(t),
    decreases t.len(),
{
    if t.len() == 0 {
        assert(s + t =~= s);
        vstd::arithmetic::power::lemma_pow0(10);
    } else {
        let u = t.drop_last();
        law_number_of_joined_digits(s, u);
        assert((s + t).drop_last() =~= s + u);
        assert((s + t).last() == t.last());
        vstd::arithmetic::power::lemma_pow1(10);
        vstd::arithmetic::power::lemma_pow_adds(10, u.len(), 1);
        let p = vstd::arithmetic::power::pow(10, u.len());
        let q = vstd::arithmetic::power::pow(10, t.len());
        assert(q == p * 10);
        let n = number(s) as int;
        assert(n * p * 10 == n * q) by (nonlinear_arith)
            requires
                q == p * 10,
        ;
        assert((n * p + number(u)) * 10 == n * p * 10 + number(u) * 10) by (nonlinear_arith);
    }
}

/// A digit denotes its distance from `0`.
pub proof fn law_number_of_digit(c: char)
    requires
        '0' <= c <= '9',
    ensures
        number(seq![c]) == c as int - '0' as int,
{
    assert(seq![c].drop_last() =~= Seq::<char>::empty());
    assert(number(seq![c].drop_last()) == 0);
}

/// A numeral has no leading zero, so that each number has one numeral only: a run
/// of digits without a leading zero is the numeral of the number it denotes.
pub proof fn law_numeral_is_unique(s: Seq<char>)
    requires
        s.len() > 0,
        forall|i: int| 0 <= i < s.len() ==> '0' <= #[trigger] s[i] <= '9',
        s.len() > 1 ==> s[0] != '0',
    ensures
        decimal(number(s)) == s,
    decreases s.len(),
{
    let u = s.drop_last();
    let d = digit_value(s.last());
    if s.len() == 1 {
        assert(u =~= Seq::<char>::empty());
        assert(number(u) == 0);
        assert(decimal(number(s)) =~= s);
    } else {
        law_numeral_is_unique(u);
        if number(u) == 0 {
            assert(decimal(0)[0] == '0');
        }
        assert(number(s) == number(u) * 10 + d);
        assert(number(s) / 10 == number(u));
        assert(number(s) % 10 == d);
        assert(decimal(number(s)) =~= s);
    }
}

/// A run of digits is read as the number it denotes, with or without a plus sign
/// before it, exactly where that number is at most 255.
pub proof fn law_u8_texts(s: Seq<char>)
    requires
        s.len() > 0,
        forall|i: int| 0 <= i < s.len() ==> '0' <= #[trigger] s[i] <= '9',
    ensures
        number(s) <= 255 ==> u8_of(s) == Some(number(s) as u8),
        number(s) <= 255 ==> u8_of(seq!['+'] + s) == Some(number(s) as u8),
        number(s) > 255 ==> u8_of(s) is None,
        number(s) > 255 ==> u8_of(seq!['+'] + s) is None,
{
    assert((seq!['+'] + s).skip(1) =~= s);
    assert('0' <= s[0] <= '9');
    assert(all_digits(s));
}

/// A text with a character that is no digit, except for a plus sign at its front,
/// is not read as a `u8`, and neither is the empty text or a bare plus sign.
pub proof fn law_u8_needs_digits(s: Seq<char>, i: int)
    requires
        s.len() == 0 || (0 <= i < s.len() && !('0' <= s[i] <= '9') && (i == 0 && s.len() > 1 ==> s[i]
            != '+')),
    ensures
        u8_of(s) is None,
{
    if s.len() > 0 {
        let d = unsigned_digits(s);
        if s.len() > 1 && s[0] == '+' {
            assert(d[i - 1] == s[i]);
        } else {
            assert(d[i] == s[i]);
        }
    }
}

/// Which ASCII characters are white space.
pub proof fn law_ascii_white_space(c: char)
    requires
        (c as u32) < 128,
    ensures
        is_white_space(c) <==> c == ' ' || c == '\t' || c == '\n' || c == '\u{b}' || c == '\u{c}' || c
            == '\r',
{
}

/// Trimming takes away white space at the end, all of it and nothing else: a text
/// that ends with no white space comes back from whatever white space follows it.
pub proof fn law_trimming_takes_white_space(t: Seq<char>, w: Seq<char>)
    requires
        t.len() > 0 ==> !is_white_space(t.last()),
        forall|i: int| 0 <= i < w.len() ==> is_white_space(#[trigger] w[i]),
    ensures
        trim_end(t + w) == t,
    decreases w.len(),
{
    if w.len() == 0 {
        assert(t + w =~= t);
    } else {
        law_trimming_takes_white_space(t, w.drop_last());
        assert((t + w).drop_last() =~= t + w.drop_last());
        assert((t + w).last() == w.last());
    }
}

/// The lower-case form of an ASCII text has the same length, and each letter `A`
/// to `Z` becomes the letter 32 places on while every other character stays.
pub proof fn law_lower_ascii(s: Seq<char>, i: int)
    requires
        forall|j: int| 0 <= j < s.len() ==> '\0' <= #[trigger] s[j] <= '\u{7f}',
        0 <= i < s.len(),
    ensures
        lower(s).len() == s.len(),
        'A' <= s[i] <= 'Z' ==> lower(s)[i] as int == s[i] as int + 32,
        !('A' <= s[i] <= 'Z') ==> lower(s)[i] == s[i],
{
    assert(is_ascii_chars(s));
}

/// A first line is split off, whatever follows: it ends with a line feed, with or
/// without a carriage return before it.
pub proof fn law_first_line_is_split_off(t: Seq<char>, rest: Seq<char>)
    requires
        !t.contains('\n'),
    ensures
        lines(t + seq!['\r', '\n'] + rest) == seq![t] + lines(rest),
        t.len() > 0 && t.last() == '\r' || lines(t + seq!['\n'] + rest) == seq![t] + lines(rest),
{
    let s = t + seq!['\r', '\n'] + rest;
    assert forall|j: int| 0 <= j < t.len() + 1 implies s[j] != '\n' by {
        if j < t.len() {
            assert(t.contains(t[j]));
        }
    }
    lemma_line_len(s, t.len() + 1);
    assert(s.take(t.len() as int + 1).drop_last() =~= t);
    assert(s.skip(t.len() as int + 2) =~= rest);
    assert(lines(s) =~= seq![t] + lines(rest));
    let u = t + seq!['\n'] + rest;
    assert forall|j: int| 0 <= j < t.len() implies u[j] != '\n' by {
        assert(t.contains(t[j]));
    }
    lemma_line_len(u, t.len());
    assert(u.take(t.len() as int) =~= t);
    assert(u.skip(t.len() as int + 1) =~= rest);
    if !(t.len() > 0 && t.last() == '\r') {
        assert(lines(u) =~= seq![t] + lines(rest));
    }
}

/// A last line needs no ending, and then stays as it is; the empty text has no
/// lines.
pub proof fn law_last_line_needs_no_ending(t: Seq<char>)
    requires
        !t.contains('\n'),
    ensures
        lines(t) == if t.len() == 0 {
            Seq::<Seq<char>>::empty()
        } else {
            seq![t]
        },
{
    assert forall|j: int| 0 <= j < t.len() implies t[j] != '\n' by {
        assert(t.contains(t[j]));
    }
    lemma_line_len(t, t.len());
}

/// Where two texts first differ, the order of the differing characters decides.
pub proof fn law_first_difference_decides(
    p: Seq<char>,
    c: char,
    x: Seq<char>,
    d: char,
    y: Seq<char>,
)
    requires
        (c as u32) < (d as u32),
    ensures
        text_lt(p + seq![c] + x, p + seq![d] + y),
        !text_lt(p + seq![d] + y, p + seq![c] + x),
    decreases p.len(),
{
    let a = p + seq![c] + x;
    let b = p + seq![d] + y;
    if p.len() > 0 {
        let q = p.skip(1);
        law_first_difference_decides(q, c, x, d, y);
        assert(a.skip(1) =~= q + seq![c] + x);
        assert(b.skip(1) =~= q + seq![d] + y);
    }
}

} // verus!
