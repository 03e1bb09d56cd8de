//! Text as sequences of characters: the reading and writing that the rest of the library rests on.
use vstd::prelude::*;

verus! {

/// `s` begins with `prefix`.
pub open spec fn has_prefix(s: Seq<char>, prefix: Seq<char>) -> bool {
    prefix.len() <= s.len() && s.subrange(0, prefix.len() as int) == prefix
}

/// `s` ends with `suffix`.
pub open spec fn has_suffix(s: Seq<char>, suffix: Seq<char>) -> bool {
    suffix.len() <= s.len() && s.subrange(s.len() - suffix.len(), s.len() as int) == suffix
}

/// What follows the first `n` characters.
pub open spec fn after(s: Seq<char>, n: int) -> Seq<char> {
    s.subrange(n, s.len() as int)
}

/// `part` stands somewhere in `s`.
pub open spec fn contains(s: Seq<char>, part: Seq<char>) -> bool {
    exists|i: int|
        0 <= i <= s.len() - part.len() && #[trigger] s.subrange(i, i + part.len()) == part
}

/// The first place of `c` in `s`, or the length of `s` where `c` does not occur.
pub open spec fn first_at(s: Seq<char>, c: char) -> nat
    decreases s.len(),
{
    if s.len() == 0 || s[0] == c {
        0
    } else {
        1 + first_at(s.drop_first(), c)
    }
}

/// Unicode's `White_Space` property.
pub open spec fn is_space(c: char) -> bool {
    ||| '\u{9}' <= c <= '\u{d}'
    ||| c == ' '
    ||| c == '\u{85}'
    ||| c == '\u{a0}'
    ||| c == '\u{1680}'
    ||| '\u{2000}' <= c <= '\u{200a}'
    ||| c == '\u{2028}'
    ||| c == '\u{2029}'
    ||| c == '\u{202f}'
    ||| c == '\u{205f}'
    ||| c == '\u{3000}'
}

pub open spec fn trim_start(s: Seq<char>) -> Seq<char>
    decreases s.len(),
{
    if s.len() > 0 && is_space(s[0]) {
        trim_start(s.drop_first())
    } else {
        s
    }
}

pub open spec fn trim_end(s: Seq<char>) -> Seq<char>
    decreases s.len(),
{
    if s.len() > 0 && is_space(s.last()) {
        trim_end(s.drop_last())
    } else {
        s
    }
}

/// `s` without the white space at its two ends.
pub open spec fn trim(s: Seq<char>) -> Seq<char> {
    trim_end(trim_start(s))
}

/// A line without the carriage return that belongs to its line ending.
pub open spec fn without_cr(line: Seq<char>) -> Seq<char> {
    if line.len() > 0 && line.last() == '\r' {
        line.drop_last()
    } else {
        line
    }
}

/// The lines of `s`. A line ends in a line feed, which a carriage return may precede; the ending
/// of the last line may be missing.
pub open spec fn lines(s: Seq<char>) -> Seq<Seq<char>>
    decreases s.len(),
{
    let end = first_at(s, '\n') as int;
    if s.len() == 0 {
        Seq::empty()
    } else if end >= s.len() {
        seq![s]
    } else {
        seq![without_cr(s.subrange(0, end))] + lines(after(s, end + 1))
    }
}

/// Each line with a line feed behind it.
pub open spec fn unlines(ls: Seq<Seq<char>>) -> Seq<char>
    decreases ls.len(),
{
    if ls.len() == 0 {
        Seq::empty()
    } else {
        unlines(ls.drop_last()) + ls.last() + "\n"@
    }
}

/// The parts in order, with `sep` between each two of them.
pub open spec fn join(parts: Seq<Seq<char>>, sep: Seq<char>) -> Seq<char>
    decreases parts.len(),
{
    if parts.len() == 0 {
        Seq::empty()
    } else if parts.len() == 1 {
        parts[0]
    } else {
        join(parts.drop_last(), sep) + sep + parts.last()
    }
}

pub open spec fn digit(n: nat) -> char {
    if n == 0 { '0' } else if n == 1 { '1' } else if n == 2 { '2' } else if n == 3 { '3' }
    else if n == 4 { '4' } else if n == 5 { '5' } else if n == 6 { '6' } else if n == 7 { '7' }
    else if n == 8 { '8' } else { '9' }
}

/// `n` in decimal digits, without leading zeros.
pub open spec fn decimal(n: nat) -> Seq<char>
    decreases n,
{
    if n < 10 {
        seq![digit(n)]
    } else {
        decimal(n / 10).push(digit(n % 10))
    }
}

/// `n` in decimal digits, at least two of them.
pub open spec fn two_digits(n: nat) -> Seq<char> {
    if n < 10 {
        "0"@ + decimal(n)
    } else {
        decimal(n)
    }
}

pub open spec fn is_digit(c: char) -> bool {
    '0' <= c <= '9'
}

pub open spec fn all_digits(s: Seq<char>) -> bool {
    forall|i: int| 0 <= i < s.len() ==> is_digit(#[trigger] s[i])
}

/// The number that a sequence of digits stands for.
pub open spec fn digits_value(s: Seq<char>) -> nat
    decreases s.len(),
{
    if s.len() == 0 {
        0
    } else {
        10 * digits_value(s.drop_last()) + (s.last() as nat - '0' as nat) as nat
    }
}

/// An optional `+` and one or more digits, read as a number of at most `max`.
pub open spec fn parse_number(s: Seq<char>, max: nat) -> Option<nat> {
    let digits = if s.len() > 0 && s[0] == '+' { s.drop_first() } else { s };
    if digits.len() > 0 && all_digits(digits) && digits_value(digits) <= max {
        Some(digits_value(digits))
    } else {
        None
    }
}

pub open spec fn to_lower(c: char) -> char {
    if 'A' <= c <= 'Z' { ((c as u32) + 32) as char } else { c }
}

/// Equality in which the letters `A` to `Z` and `a` to `z` do not differ by case.
pub open spec fn same_ignoring_case(a: Seq<char>, b: Seq<char>) -> bool {
    a.len() == b.len() && forall|i: int| 0 <= i < a.len() ==> to_lower(#[trigger] a[i]) == to_lower(b[i])
}

/// How many bytes `c` takes in UTF-8.
pub open spec fn char_width(c: char) -> nat {
    if c <= '\u{7f}' { 1 } else if c <= '\u{7ff}' { 2 } else if c <= '\u{ffff}' { 3 } else { 4 }
}

/// How many bytes `s` takes in UTF-8.
pub open spec fn utf8_len(s: Seq<char>) -> nat
    decreases s.len(),
{
    if s.len() == 0 {
        0
    } else {
        utf8_len(s.drop_last()) + char_width(s.last())
    }
}

/// `a` stands before `b` in the order of strings, which goes by their first difference.
pub open spec fn precedes(a: Seq<char>, b: Seq<char>) -> bool
    decreases a.len(),
{
    if b.len() == 0 {
        false
    } else if a.len() == 0 {
        true
    } else if a[0] == b[0] {
        precedes(a.drop_first(), b.drop_first())
    } else {
        a[0] < b[0]
    }
}

/// `s` without as many copies of `suffix` as stand at its end.
pub open spec fn without_suffixes(s: Seq<char>, suffix: Seq<char>) -> Seq<char>
    decreases s.len(),
{
    if suffix.len() > 0 && has_suffix(s, suffix) {
        without_suffixes(s.subrange(0, s.len() - suffix.len()), suffix)
    } else {
        s
    }
}

/// `s` without as many copies of `c` as stand at its start.
pub open spec fn without_leading(s: Seq<char>, c: char) -> Seq<char>
    decreases s.len(),
{
    if s.len() > 0 && s[0] == c {
        without_leading(s.drop_first(), c)
    } else {
        s
    }
}

/// The characters of a string, one by one.
pub fn chars_of(s: &str) -> (r: Vec<char>)
    ensures
        r@ == s@,
{
    let mut out: Vec<char> = Vec::new();
    for c in it: s.chars()
        invariant
            it.seq() == s@,
            out@ == s@.subrange(0, it.index()),
    {
        out.push(c);
    }
    out
}

/// Whether two strings hold the same characters.
pub fn same(a: &str, b: &str) -> (r: bool)
    ensures
        r == (a@ == b@),
{
    let x = chars_of(a);
    let y = chars_of(b);
    if x.len() != y.len() {
        return false;
    }
    for i in 0..x.len()
        invariant
            x@ == a@,
            y@ == b@,
            x.len() == y.len(),
            forall|j: int| 0 <= j < i ==> x@[j] == y@[j],
    {
        if x[i] != y[i] {
            return false;
        }
    }
    assert(a@ =~= b@);
    true
}

/// What stands behind `prefix` at the start of `s`.
pub fn strip_prefix<'a>(s: &'a str, prefix: &str) -> (r: Option<&'a str>)
    ensures
        r is Some <==> has_prefix(s@, prefix@),
        r matches Some(rest) ==> rest@ == after(s@, prefix@.len() as int),
{
    let n = s.unicode_len();
    let m = prefix.unicode_len();
    if m <= n && same(s.substring_char(0, m), prefix) {
        Some(s.substring_char(m, n))
    } else {
        None
    }
}

/// What stands before `suffix` at the end of `s`.
pub fn strip_suffix<'a>(s: &'a str, suffix: &str) -> (r: Option<&'a str>)
    ensures
        r is Some <==> has_suffix(s@, suffix@),
        r matches Some(rest) ==> rest@ == s@.subrange(0, s@.len() - suffix@.len()),
{
    let n = s.unicode_len();
    let m = suffix.unicode_len();
    if m <= n && same(s.substring_char(n - m, n), suffix) {
        Some(s.substring_char(0, n - m))
    } else {
        None
    }
}

/// Whether `s` begins with `prefix`.
pub fn starts_with(s: &str, prefix: &str) -> (r: bool)
    ensures
        r == has_prefix(s@, prefix@),
{
    strip_prefix(s, prefix).is_some()
}

/// The place of `c` that no other one precedes is the first, and where there is none the search goes
/// to the end.
pub proof fn lemma_first_at(s: Seq<char>, c: char, n: int)
    requires
        0 <= n <= s.len(),
        forall|i: int| 0 <= i < n ==> s[i] != c,
        n < s.len() ==> s[n] == c,
    ensures
        first_at(s, c) == n,
    decreases n,
{
    if n > 0 {
        lemma_first_at(s.drop_first(), c, n - 1);
    }
}

/// The first place of `c` in `s`.
pub fn find(s: &str, c: char) -> (r: Option<usize>)
    ensures
        r is Some <==> first_at(s@, c) < s@.len(),
        r matches Some(i) ==> i == first_at(s@, c),
{
    let chars = chars_of(s);
    let mut i: usize = 0;
    while i < chars.len()
        invariant
            chars@ == s@,
            i <= chars.len(),
            forall|j: int| 0 <= j < i ==> s@[j] != c,
        decreases chars.len() - i,
    {
        if chars[i] == c {
            proof {
                lemma_first_at(s@, c, i as int);
            }
            return Some(i);
        }
        i = i + 1;
    }
    proof {
        lemma_first_at(s@, c, s@.len() as int);
    }
    None
}

/// Whether `c` is white space.
pub fn is_whitespace(c: char) -> (r: bool)
    ensures
        r == is_space(c),
{
    ('\u{9}' <= c && c <= '\u{d}') || c == ' ' || c == '\u{85}' || c == '\u{a0}' || c == '\u{1680}'
        || ('\u{2000}' <= c && c <= '\u{200a}') || c == '\u{2028}' || c == '\u{2029}'
        || c == '\u{202f}' || c == '\u{205f}' || c == '\u{3000}'
}

proof fn lemma_trim_start(s: Seq<char>, n: int)
    requires
        0 <= n <= s.len(),
        forall|i: int| 0 <= i < n ==> is_space(s[i]),
        n < s.len() ==> !is_space(s[n]),
    ensures
        trim_start(s) == s.subrange(n, s.len() as int),
    decreases n,
{
    if n > 0 {
        lemma_trim_start(s.drop_first(), n - 1);
        assert(s.drop_first().subrange(n - 1, s.len() - 1) =~= s.subrange(n, s.len() as int));
    } else {
        assert(s.subrange(0, s.len() as int) =~= s);
    }
}

proof fn lemma_trim_end(s: Seq<char>, n: int)
    requires
        0 <= n <= s.len(),
        forall|i: int| n <= i < s.len() ==> is_space(s[i]),
        n > 0 ==> !is_space(s[n - 1]),
    ensures
        trim_end(s) == s.subrange(0, n),
    decreases s.len(),
{
    if n < s.len() {
        lemma_trim_end(s.drop_last(), n);
        assert(s.drop_last().subrange(0, n) =~= s.subrange(0, n));
    } else {
        assert(s.subrange(0, n) =~= s);
    }
}

/// `s` without the white space at its two ends.
pub fn trimmed(s: &str) -> (r: &str)
    ensures
        r@ == trim(s@),
{
    let chars = chars_of(s);
    let mut from: usize = 0;
    while from < chars.len() && is_whitespace(chars[from])
        invariant
            chars@ == s@,
            from <= chars.len(),
            forall|j: int| 0 <= j < from ==> is_space(s@[j]),
        decreases chars.len() - from,
    {
        from = from + 1;
    }
    let mut to: usize = chars.len();
    while to > from && is_whitespace(chars[to - 1])
        invariant
            chars@ == s@,
            from <= to <= chars.len(),
            forall|j: int| to <= j < s@.len() ==> is_space(s@[j]),
        decreases to,
    {
        to = to - 1;
    }
    proof {
        lemma_trim_start(s@, from as int);
        let rest = s@.subrange(from as int, s@.len() as int);
        lemma_trim_end(rest, to - from);
        assert(rest.subrange(0, to - from) =~= s@.subrange(from as int, to as int));
    }
    s.substring_char(from, to)
}

/// The lines of `s`.
pub fn split_lines(s: &str) -> (r: Vec<&str>)
    ensures
        r.deep_view() == lines(s@),
{
    let chars = chars_of(s);
    let n = chars.len();
    let mut out: Vec<&str> = Vec::new();
    let mut start: usize = 0;
    let mut i: usize = 0;
    proof {
        assert(after(s@, 0) =~= s@);
        assert(out.deep_view() + lines(s@) =~= lines(s@));
    }
    while i < n
        invariant
            chars@ == s@,
            n == chars.len(),
            start <= i <= n,
            forall|j: int| start <= j < i ==> s@[j] != '\n',
            lines(s@) == out.deep_view() + lines(after(s@, start as int)),
        decreases n - i,
    {
        if chars[i] == '\n' {
            let end: usize = if i > start && chars[i - 1] == '\r' { i - 1 } else { i };
            let line = s.substring_char(start, end);
            let ghost before = out.deep_view();
            out.push(line);
            proof {
                let rest = after(s@, start as int);
                lemma_first_at(rest, '\n', i - start);
                assert(rest.subrange(0, i - start) =~= s@.subrange(start as int, i as int));
                assert(without_cr(s@.subrange(start as int, i as int)) =~= line@);
                assert(after(rest, i - start + 1) =~= after(s@, i + 1));
                assert(out.deep_view() =~= before.push(line@));
                assert(before + (seq![line@] + lines(after(s@, i + 1))) =~= before.push(line@)
                    + lines(after(s@, i + 1)));
            }
            start = i + 1;
        }
        i = i + 1;
    }
    let ghost rest = after(s@, start as int);
    proof {
        lemma_first_at(rest, '\n', rest.len() as int);
    }
    if start < n {
        let line = s.substring_char(start, n);
        let ghost before = out.deep_view();
        out.push(line);
        proof {
            assert(rest =~= line@);
            assert(out.deep_view() =~= before.push(line@));
            assert(before + seq![line@] =~= before.push(line@));
        }
    } else {
        assert(out.deep_view() + lines(rest) =~= out.deep_view());
    }
    out
}

/// Whether `part` stands somewhere in `s`.
pub fn includes(s: &str, part: &str) -> (r: bool)
    ensures
        r == contains(s@, part@),
{
    let n = s.unicode_len();
    let m = part.unicode_len();
    if m > n {
        return false;
    }
    let mut i: usize = 0;
    while i < n - m
        invariant
            n == s@.len(),
            m == part@.len(),
            m <= n,
            i <= n - m,
            forall|j: int| 0 <= j < i ==> #[trigger] s@.subrange(j, j + m) != part@,
        decreases n - m - i,
    {
        if same(s.substring_char(i, i + m), part) {
            return true;
        }
        i = i + 1;
    }
    assert(s@.subrange(i as int, i + m) == s@.subrange(i as int, n as int));
    same(s.substring_char(i, n), part)
}

/// Whether two strings are equal but for the case of ASCII letters.
pub fn eq_ignore_case(a: &str, b: &str) -> (r: bool)
    ensures
        r == same_ignoring_case(a@, b@),
{
    let x = chars_of(a);
    let y = chars_of(b);
    if x.len() != y.len() {
        return false;
    }
    let mut i: usize = 0;
    while i < x.len()
        invariant
            x@ == a@,
            y@ == b@,
            x.len() == y.len(),
            i <= x.len(),
            forall|j: int| 0 <= j < i ==> to_lower(#[trigger] a@[j]) == to_lower(b@[j]),
        decreases x.len() - i,
    {
        if lower(x[i]) != lower(y[i]) {
            return false;
        }
        i = i + 1;
    }
    true
}

/// The lower-case form of an ASCII letter, and any other character unchanged.
fn lower(c: char) -> (r: u32)
    ensures
        r == to_lower(c) as u32,
{
    if 'A' <= c && c <= 'Z' {
        (c as u32) + 32
    } else {
        c as u32
    }
}

/// Whether `a` stands before `b` in the order of strings.
pub fn comes_before(a: &str, b: &str) -> (r: bool)
    ensures
        r == precedes(a@, b@),
{
    let x = chars_of(a);
    let y = chars_of(b);
    let mut i: usize = 0;
    proof {
        assert(after(a@, 0) =~= a@);
        assert(after(b@, 0) =~= b@);
    }
    while i < x.len() && i < y.len()
        invariant
            x@ == a@,
            y@ == b@,
            i <= x.len(),
            i <= y.len(),
            precedes(a@, b@) == precedes(after(a@, i as int), after(b@, i as int)),
        decreases x.len() - i,
    {
        if x[i] != y[i] {
            return x[i] < y[i];
        }
        proof {
            assert(after(a@, i as int).drop_first() =~= after(a@, i + 1));
            assert(after(b@, i as int).drop_first() =~= after(b@, i + 1));
        }
        i = i + 1;
    }
    i < y.len()
}

/// The order of strings is irreflexive.
pub proof fn lemma_precedes_irreflexive(a: Seq<char>)
    ensures
        !precedes(a, a),
    decreases a.len(),
{
    if a.len() > 0 {
        lemma_precedes_irreflexive(a.drop_first());
    }
}

/// The order of strings is transitive.
pub proof fn lemma_precedes_transitive(a: Seq<char>, b: Seq<char>, c: Seq<char>)
    requires
        precedes(a, b),
        precedes(b, c),
    ensures
        precedes(a, c),
    decreases a.len(),
{
    if a.len() > 0 && a[0] == b[0] && b[0] == c[0] {
        lemma_precedes_transitive(a.drop_first(), b.drop_first(), c.drop_first());
    }
}

/// Of two different strings one stands before the other.
pub proof fn lemma_precedes_total(a: Seq<char>, b: Seq<char>)
    requires
        !precedes(a, b),
        !precedes(b, a),
    ensures
        a == b,
    decreases a.len(),
{
    if a.len() > 0 && b.len() > 0 {
        lemma_precedes_total(a.drop_first(), b.drop_first());
        assert(a =~= seq![a[0]] + a.drop_first());
        assert(b =~= seq![b[0]] + b.drop_first());
    } else {
        assert(a =~= b);
    }
}

/// The digit of a number below ten.
fn digit_text(n: u128) -> (r: &'static str)
    requires
        n < 10,
    ensures
        r@ == seq![digit(n as nat)],
{
    proof {
        reveal_strlit("0");
        reveal_strlit("1");
        reveal_strlit("2");
        reveal_strlit("3");
        reveal_strlit("4");
        reveal_strlit("5");
        reveal_strlit("6");
        reveal_strlit("7");
        reveal_strlit("8");
        reveal_strlit("9");
    }
    let r: &'static str = if n == 0 { "0" } else if n == 1 { "1" } else if n == 2 { "2" }
        else if n == 3 { "3" } else if n == 4 { "4" } else if n == 5 { "5" } else if n == 6 { "6" }
        else if n == 7 { "7" } else if n == 8 { "8" } else { "9" };
    assert(r@ =~= seq![digit(n as nat)]);
    r
}

/// `n` in decimal digits.
pub fn decimal_text(n: u128) -> (r: String)
    ensures
        r@ == decimal(n as nat),
    decreases n,
{
    if n < 10 {
        digit_text(n).to_owned()
    } else {
        let mut s = decimal_text(n / 10);
        s.append(digit_text(n % 10));
        assert(s@ =~= decimal(n as nat));
        s
    }
}

/// `n` in decimal digits, at least two of them.
pub fn two_digit_text(n: u128) -> (r: String)
    ensures
        r@ == two_digits(n as nat),
{
    if n < 10 {
        let mut s = "0".to_owned();
        s.append(decimal_text(n).as_str());
        s
    } else {
        decimal_text(n)
    }
}

proof fn lemma_digit_injective(a: nat, b: nat)
    requires
        a < 10,
        b < 10,
        digit(a) == digit(b),
    ensures
        a == b,
{
}

/// Different numbers have different decimal digits.
pub proof fn lemma_decimal_injective(a: nat, b: nat)
    requires
        decimal(a) == decimal(b),
    ensures
        a == b,
    decreases a,
{
    lemma_decimal_len(a);
    lemma_decimal_len(b);
    let x = decimal(a);
    let y = decimal(b);
    if a < 10 {
        if b < 10 {
            assert(x[0] == digit(a) && y[0] == digit(b));
            lemma_digit_injective(a, b);
        }
    } else if b >= 10 {
        assert(x.last() == digit(a % 10) && y.last() == digit(b % 10));
        lemma_digit_injective(a % 10, b % 10);
        assert(decimal(a / 10) =~= x.drop_last());
        assert(decimal(b / 10) =~= y.drop_last());
        lemma_decimal_injective(a / 10, b / 10);
    }
}

proof fn lemma_decimal_len(n: nat)
    ensures
        n < 10 ==> decimal(n).len() == 1,
        n >= 10 ==> decimal(n).len() > 1,
    decreases n,
{
    if n >= 10 {
        lemma_decimal_len(n / 10);
    }
}

/// The digits of a number read back as that number.
pub proof fn lemma_decimal_reads_back(n: nat)
    ensures
        decimal(n).len() > 0,
        all_digits(decimal(n)),
        digits_value(decimal(n)) == n,
    decreases n,
{
    if n < 10 {
        let d = decimal(n);
        assert(d.drop_last() =~= Seq::empty());
        assert(digits_value(d.drop_last()) == 0);
    } else {
        lemma_decimal_reads_back(n / 10);
        let d = decimal(n);
        assert(d.drop_last() =~= decimal(n / 10));
        assert forall|i: int| 0 <= i < d.len() implies is_digit(#[trigger] d[i]) by {
            if i < d.len() - 1 {
                assert(decimal(n / 10)[i] == d[i]);
            }
        }
    }
}

/// A number written in at least two digits parses as that number.
pub proof fn lemma_two_digits_parse(n: nat, max: nat)
    requires
        n <= max,
    ensures
        parse_number(two_digits(n), max) == Some(n),
        n < 100 ==> two_digits(n).len() == 2,
{
    lemma_decimal_reads_back(n);
    reveal_strlit("0");
    let t = two_digits(n);
    let d = decimal(n);
    if n < 10 {
        assert(t =~= seq!['0', digit(n)]);
        assert(t.drop_last().drop_last() =~= Seq::empty());
        reveal_with_fuel(digits_value, 3);
        assert(all_digits(t));
    } else {
        assert(is_digit(d[0]));
        if n < 100 {
            assert(decimal(n / 10).len() == 1);
        }
    }
}

/// Reads an optional `+` and one or more digits as a number of at most `max`.
pub fn parse_unsigned(s: &str, max: u128) -> (r: Option<u128>)
    requires
        max < 0x1000_0000_0000_0000_0000_0000_0000_0000,
    ensures
        r is Some <==> parse_number(s@, max as nat) is Some,
        r matches Some(v) ==> parse_number(s@, max as nat) == Some(v as nat),
{
    let chars = chars_of(s);
    let n = chars.len();
    let from: usize = if n > 0 && chars[0] == '+' { 1 } else { 0 };
    let ghost digits = after(s@, from as int);
    proof {
        assert(digits =~= if s@.len() > 0 && s@[0] == '+' { s@.drop_first() } else { s@ });
    }
    if from == n {
        return None;
    }
    let mut value: u128 = 0;
    let mut over = false;
    let mut i: usize = from;
    while i < n
        invariant
            chars@ == s@,
            n == chars.len(),
            from <= i <= n,
            digits == after(s@, from as int),
            digits == if s@.len() > 0 && s@[0] == '+' { s@.drop_first() } else { s@ },
            max < 0x1000_0000_0000_0000_0000_0000_0000_0000,
            all_digits(digits.subrange(0, i - from)),
            over ==> digits_value(digits.subrange(0, i - from)) > max,
            !over ==> value == digits_value(digits.subrange(0, i - from)) && value <= max,
        decreases n - i,
    {
        let c = chars[i];
        let ghost seen = digits.subrange(0, i - from);
        let ghost next = digits.subrange(0, i + 1 - from);
        proof {
            assert(next.drop_last() =~= seen);
            assert(next.last() == c);
            assert(digits[i - from] == c);
        }
        if !('0' <= c && c <= '9') {
            return None;
        }
        proof {
            assert forall|j: int| 0 <= j < next.len() implies is_digit(#[trigger] next[j]) by {
                if j < seen.len() {
                    assert(seen[j] == next[j]);
                }
            }
        }
        if !over {
            let d: u128 = ((c as u32) - ('0' as u32)) as u128;
            value = value * 10 + d;
            if value > max {
                over = true;
            }
        }
        i = i + 1;
    }
    assert(digits.subrange(0, n - from) =~= digits);
    if over {
        None
    } else {
        Some(value)
    }
}

/// The parts in order, with `sep` between each two of them.
pub fn join_texts(parts: &Vec<String>, sep: &str) -> (r: String)
    ensures
        r@ == join(parts.deep_view(), sep@),
{
    let mut out = String::new();
    let mut i: usize = 0;
    let ghost all = parts.deep_view();
    while i < parts.len()
        invariant
            all == parts.deep_view(),
            i <= parts.len(),
            out@ == join(all.subrange(0, i as int), sep@),
        decreases parts.len() - i,
    {
        proof {
            let now = all.subrange(0, i + 1);
            assert(now.drop_last() =~= all.subrange(0, i as int));
            assert(now.last() == parts@[i as int]@);
            if i == 0 {
                assert(out@ + parts@[0]@ =~= parts@[0]@);
            }
        }
        if i > 0 {
            out.append(sep);
        }
        out.append(parts[i].as_str());
        i = i + 1;
    }
    assert(all.subrange(0, parts.len() as int) =~= all);
    out
}

/// Adds a line and its line feed.
pub fn push_line(out: &mut String, line: &str)
    ensures
        final(out)@ == old(out)@ + line@ + "\n"@,
{
    out.append(line);
    out.append("\n");
}

/// `s` without as many copies of `suffix` as stand at its end.
pub fn trim_suffixes<'a>(s: &'a str, suffix: &str) -> (r: &'a str)
    requires
        suffix@.len() > 0,
    ensures
        r@ == without_suffixes(s@, suffix@),
    decreases s@.len(),
{
    match strip_suffix(s, suffix) {
        Some(rest) => trim_suffixes(rest, suffix),
        None => s,
    }
}

proof fn lemma_without_leading(s: Seq<char>, c: char, n: int)
    requires
        0 <= n <= s.len(),
        forall|i: int| 0 <= i < n ==> s[i] == c,
        n < s.len() ==> s[n] != c,
    ensures
        without_leading(s, c) == after(s, n),
    decreases n,
{
    if n > 0 {
        lemma_without_leading(s.drop_first(), c, n - 1);
        assert(after(s.drop_first(), n - 1) =~= after(s, n));
    } else {
        assert(after(s, 0) =~= s);
    }
}

/// `s` without as many copies of `c` as stand at its start.
pub fn trim_leading(s: &str, c: char) -> (r: &str)
    ensures
        r@ == without_leading(s@, c),
{
    let chars = chars_of(s);
    let mut i: usize = 0;
    while i < chars.len() && chars[i] == c
        invariant
            chars@ == s@,
            i <= chars.len(),
            forall|j: int| 0 <= j < i ==> s@[j] == c,
        decreases chars.len() - i,
    {
        i = i + 1;
    }
    proof {
        lemma_without_leading(s@, c, i as int);
    }
    s.substring_char(i, chars.len())
}

/// Each line with a line feed behind it.
pub fn unlines_text(ls: &Vec<String>) -> (r: String)
    ensures
        r@ == unlines(ls.deep_view()),
{
    let mut out = String::new();
    let mut i: usize = 0;
    let ghost all = ls.deep_view();
    while i < ls.len()
        invariant
            all == ls.deep_view(),
            i <= ls.len(),
            out@ == unlines(all.subrange(0, i as int)),
        decreases ls.len() - i,
    {
        proof {
            let now = all.subrange(0, i + 1);
            assert(now.drop_last() =~= all.subrange(0, i as int));
            assert(now.last() == ls@[i as int]@);
        }
        push_line(&mut out, ls[i].as_str());
        i = i + 1;
    }
    assert(all.subrange(0, ls.len() as int) =~= all);
    out
}

/// A line that is read back as it was written: no line feed in it, no carriage return at its end.
pub open spec fn is_line(s: Seq<char>) -> bool {
    &&& forall|i: int| 0 <= i < s.len() ==> s[i] != '\n'
    &&& s.len() > 0 ==> s.last() != '\r'
}

proof fn lemma_unlines_front(ls: Seq<Seq<char>>)
    requires
        ls.len() > 0,
    ensures
        unlines(ls) == ls[0] + "\n"@ + unlines(ls.drop_first()),
    decreases ls.len(),
{
    if ls.len() == 1 {
        assert(ls.drop_last() =~= Seq::empty());
        assert(ls.drop_first() =~= Seq::empty());
        assert(unlines(ls) =~= ls[0] + "\n"@ + unlines(ls.drop_first()));
    } else {
        lemma_unlines_front(ls.drop_last());
        assert(ls.drop_last().drop_first() =~= ls.drop_first().drop_last());
        assert(unlines(ls) =~= ls[0] + "\n"@ + unlines(ls.drop_first()));
    }
}

/// Lines that are written one after the other are read back as they are.
pub proof fn lemma_lines_of_unlines(ls: Seq<Seq<char>>)
    requires
        forall|i: int| 0 <= i < ls.len() ==> is_line(#[trigger] ls[i]),
    ensures
        lines(unlines(ls)) == ls,
    decreases ls.len(),
{
    if ls.len() > 0 {
        let rest = ls.drop_first();
        let s = unlines(ls);
        let n = ls[0].len() as int;
        lemma_unlines_front(ls);
        reveal_strlit("\n");
        assert forall|i: int| 0 <= i < rest.len() implies is_line(#[trigger] rest[i]) by {
            assert(rest[i] == ls[i + 1]);
        }
        lemma_lines_of_unlines(rest);
        assert(is_line(ls[0]));
        lemma_first_at(s, '\n', n);
        assert(s.subrange(0, n) =~= ls[0]);
        assert(after(s, n + 1) =~= unlines(rest));
        assert(lines(s) =~= seq![ls[0]] + rest);
        assert(seq![ls[0]] + rest =~= ls);
    }
}

/// White space at the start of a text is all that trimming takes where the text behind it starts
/// and ends with something else.
pub proof fn lemma_trim_padded(pad: Seq<char>, core: Seq<char>)
    requires
        forall|i: int| 0 <= i < pad.len() ==> is_space(#[trigger] pad[i]),
        core.len() > 0,
        !is_space(core[0]),
        !is_space(core.last()),
    ensures
        trim(pad + core) == core,
    decreases pad.len(),
{
    if pad.len() > 0 {
        assert((pad + core).drop_first() =~= pad.drop_first() + core);
        assert((pad + core)[0] == pad[0]);
        lemma_trim_padded(pad.drop_first(), core);
    } else {
        assert(pad + core =~= core);
    }
}

proof fn lemma_trim_end_inside(s: Seq<char>)
    ensures
        trim_end(s).len() <= s.len(),
        trim_end(s) == s.subrange(0, trim_end(s).len() as int),
    decreases s.len(),
{
    if s.len() > 0 && is_space(s.last()) {
        lemma_trim_end_inside(s.drop_last());
        assert(s.drop_last().subrange(0, trim_end(s).len() as int) =~= s.subrange(0, trim_end(s).len() as int));
    } else {
        assert(s.subrange(0, s.len() as int) =~= s);
    }
}

proof fn lemma_trim_start_inside(s: Seq<char>)
    ensures
        trim_start(s).len() <= s.len(),
        trim_start(s) == s.subrange(s.len() - trim_start(s).len(), s.len() as int),
    decreases s.len(),
{
    if s.len() > 0 && is_space(s[0]) {
        let rest = s.drop_first();
        lemma_trim_start_inside(rest);
        let n = trim_start(s).len();
        assert(rest.subrange(rest.len() - n, rest.len() as int) =~= s.subrange(s.len() - n, s.len() as int));
    } else {
        assert(s.subrange(0, s.len() as int) =~= s);
    }
}

/// Trimming brings in no character.
pub proof fn lemma_trim_brings_nothing(s: Seq<char>, c: char)
    requires
        forall|i: int| 0 <= i < s.len() ==> s[i] != c,
    ensures
        forall|i: int| 0 <= i < trim(s).len() ==> trim(s)[i] != c,
{
    let t = trim_start(s);
    lemma_trim_start_inside(s);
    lemma_trim_end_inside(t);
    assert forall|i: int| 0 <= i < trim(s).len() implies trim(s)[i] != c by {
        assert(trim(s)[i] == t[i]);
        assert(t[i] == s[s.len() - t.len() + i]);
    }
}

/// Ten times itself, `m` times.
pub open spec fn power_of_ten(m: nat) -> nat
    decreases m,
{
    if m == 0 {
        1
    } else {
        10 * power_of_ten((m - 1) as nat)
    }
}

/// A number below a power of ten has at most so many digits.
pub proof fn lemma_digit_count(n: nat, m: nat)
    requires
        m > 0,
        n < power_of_ten(m),
    ensures
        decimal(n).len() <= m,
    decreases m,
{
    if n >= 10 {
        if m == 1 {
            assert(power_of_ten(0) == 1);
            assert(power_of_ten(1) == 10);
        } else {
            lemma_digit_count(n / 10, (m - 1) as nat);
        }
    }
}

} // verus!
