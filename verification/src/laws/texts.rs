//! Texts, numbers and paths: what is read and written, character by character.
use crate::paths;
use crate::platform;
use crate::schedule;
use crate::text;
use vstd::prelude::*;

verus! {

/// The value of a decimal digit.
pub open spec fn value(c: char) -> int {
    c as int - '0' as int
}

/// A decimal digit.
pub open spec fn digit(c: char) -> bool {
    0 <= value(c) < 10
}

/// A time of day is read off five characters: two digits, a colon, two digits, in the range of the
/// clock. Nothing else is a time.
pub proof fn lemma_time_is_read_off_its_digits(s: Seq<char>, hour: u8, minute: u8)
    ensures
        schedule::daily_time(s) == Some((hour, minute)) <==> {
            &&& s.len() == 5 && s[2] == ':'
            &&& digit(s[0]) && digit(s[1]) && digit(s[3]) && digit(s[4])
            &&& hour == 10 * value(s[0]) + value(s[1]) && hour < 24
            &&& minute == 10 * value(s[3]) + value(s[4]) && minute < 60
        },
{
    let colon = text::first_at(s, ':') as int;
    lemma_first_is_first(s, ':');
    reveal_with_fuel(text::digits_value, 3);
    if s.len() == 5 && s[2] == ':' && digit(s[0]) && digit(s[1]) && digit(s[3]) && digit(s[4]) {
        text::lemma_first_at(s, ':', 2);
        let h = s.subrange(0, 2);
        let m = text::after(s, 3);
        assert(h.drop_last().drop_last() =~= Seq::empty());
        assert(m.drop_last().drop_last() =~= Seq::empty());
        assert(h.drop_last().last() == s[0] && h.last() == s[1]);
        assert(m.drop_last().last() == s[3] && m.last() == s[4]);
        assert(text::is_digit(h[0]) && text::is_digit(h[1]) && text::is_digit(m[0]) && text::is_digit(m[1]));
    } else if schedule::daily_time(s) is Some {
        let h = s.subrange(0, colon);
        let m = text::after(s, colon + 1);
        assert(text::is_digit(h[0]) && text::is_digit(h[1]) && text::is_digit(m[0]) && text::is_digit(m[1]));
        assert(h[0] == s[0] && h[1] == s[1] && m[0] == s[3] && m[1] == s[4]);
    }
}

/// The first place of a character has it, and no earlier one does.
pub proof fn lemma_first_is_first(s: Seq<char>, c: char)
    ensures
        text::first_at(s, c) <= s.len(),
        text::first_at(s, c) < s.len() ==> s[text::first_at(s, c) as int] == c,
        forall|i: int| 0 <= i < text::first_at(s, c) ==> s[i] != c,
    decreases s.len(),
{
    if s.len() > 0 && s[0] != c {
        let rest = s.drop_first();
        lemma_first_is_first(rest, c);
        assert forall|i: int| 0 <= i < text::first_at(s, c) implies s[i] != c by {
            if i > 0 {
                assert(rest[i - 1] == s[i]);
            }
        }
    }
}

/// A number is written in its decimal digits: the last one is its remainder by ten, and those before
/// it are the rest of it.
pub proof fn lemma_number_is_written_in_digits(n: nat)
    ensures
        ({
            let s = text::decimal(n);
            &&& s.len() > 0
            &&& digit(s.last()) && value(s.last()) == n % 10
            &&& n < 10 ==> s.len() == 1
            &&& n >= 10 ==> s.drop_last() == text::decimal(n / 10) && s[0] != '0'
        }),
    decreases n,
{
    if n >= 10 {
        lemma_number_is_written_in_digits(n / 10);
        let s = text::decimal(n);
        assert(s.drop_last() =~= text::decimal(n / 10));
        assert(s[0] == text::decimal(n / 10)[0]);
        if n / 10 < 10 {
            assert(value(text::decimal(n / 10)[0]) == n / 10);
        }
    }
}

/// A time of day is written as it is read: two digits, a colon, two digits.
pub proof fn lemma_time_is_written_in_digits(hour: nat, minute: nat)
    requires
        hour < 100,
        minute < 100,
    ensures
        ({
            let s = platform::clock(hour, minute);
            &&& s.len() == 5 && s[2] == ':'
            &&& digit(s[0]) && digit(s[1]) && digit(s[3]) && digit(s[4])
            &&& 10 * value(s[0]) + value(s[1]) == hour
            &&& 10 * value(s[3]) + value(s[4]) == minute
        }),
{
    lemma_two_digits(hour);
    lemma_two_digits(minute);
    reveal_strlit(":");
    let s = platform::clock(hour, minute);
    let h = text::two_digits(hour);
    let m = text::two_digits(minute);
    assert(s[0] == h[0] && s[1] == h[1] && s[3] == m[0] && s[4] == m[1]);
}

proof fn lemma_two_digits(n: nat)
    requires
        n < 100,
    ensures
        ({
            let s = text::two_digits(n);
            s.len() == 2 && digit(s[0]) && digit(s[1]) && 10 * value(s[0]) + value(s[1]) == n
        }),
{
    reveal_strlit("0");
    lemma_number_is_written_in_digits(n);
    if n >= 10 {
        lemma_number_is_written_in_digits(n / 10);
        let s = text::two_digits(n);
        assert(s[0] == s.drop_last()[0]);
    }
}

/// Digits are read as the number that they are: one more digit is ten times the number and the
/// digit.
pub proof fn lemma_number_is_read_off_its_digits(s: Seq<char>, c: char)
    requires
        digit(c),
    ensures
        text::digits_value(s.push(c)) == 10 * text::digits_value(s) + value(c),
        text::digits_value(Seq::empty()) == 0,
{
    assert(s.push(c).drop_last() =~= s);
}

/// A text is a number where it is digits, with or without a plus sign before them, and the number
/// is not too large.
pub proof fn lemma_number_texts(s: Seq<char>, max: nat, n: nat)
    ensures
        text::parse_number(s, max) == Some(n) <==> n <= max && {
            ||| s.len() > 0 && text::digits_value(s) == n && forall|i: int| 0 <= i < s.len() ==> digit(#[trigger] s[i])
            ||| s.len() > 1 && s[0] == '+' && text::digits_value(s.drop_first()) == n && forall|i: int|
                1 <= i < s.len() ==> digit(#[trigger] s[i])
        },
{
    let rest = s.drop_first();
    if s.len() > 0 && s[0] == '+' {
        assert(!digit(s[0]));
        if text::parse_number(s, max) == Some(n) {
            assert forall|i: int| 1 <= i < s.len() implies digit(#[trigger] s[i]) by {
                assert(text::is_digit(rest[i - 1]));
            }
        }
        if forall|i: int| 1 <= i < s.len() ==> digit(#[trigger] s[i]) {
            assert forall|i: int| 0 <= i < rest.len() implies text::is_digit(#[trigger] rest[i]) by {
                assert(digit(s[i + 1]));
            }
        }
    } else if s.len() > 0 {
        if text::parse_number(s, max) == Some(n) {
            assert forall|i: int| 0 <= i < s.len() implies digit(#[trigger] s[i]) by {
                assert(text::is_digit(s[i]));
            }
        }
        if forall|i: int| 0 <= i < s.len() ==> digit(#[trigger] s[i]) {
            assert forall|i: int| 0 <= i < s.len() implies text::is_digit(#[trigger] s[i]) by {
                assert(digit(s[i]));
            }
        }
    }
}

/// A written number reads back.
pub proof fn lemma_written_number_reads_back(n: nat, max: nat)
    requires
        n <= max,
    ensures
        text::parse_number(text::decimal(n), max) == Some(n),
{
    text::lemma_decimal_reads_back(n);
    assert(text::is_digit(text::decimal(n)[0]));
}

/// A text holds a part where it is something, the part, and something.
pub proof fn lemma_text_holds_its_parts(a: Seq<char>, part: Seq<char>, b: Seq<char>)
    ensures
        text::contains(a + part + b, part),
{
    let s = a + part + b;
    assert(s.subrange(a.len() as int, a.len() as int + part.len()) =~= part);
}

/// A text that holds a part is something, the part, and something.
pub proof fn lemma_held_part_splits_text(s: Seq<char>, part: Seq<char>)
    requires
        text::contains(s, part),
    ensures
        exists|a: Seq<char>, b: Seq<char>| s == #[trigger] (a + part + b),
{
    let i = choose|i: int| 0 <= i <= s.len() - part.len() && #[trigger] s.subrange(i, i + part.len()) == part;
    let a = s.subrange(0, i);
    let b = s.subrange(i + part.len(), s.len() as int);
    assert(s =~= a + part + b);
}

/// A text begins with another one where something makes it whole, and ends with one likewise.
pub proof fn lemma_beginnings_and_ends(s: Seq<char>, part: Seq<char>)
    ensures
        text::has_prefix(s, part) <==> exists|b: Seq<char>| s == #[trigger] (part + b),
        text::has_suffix(s, part) <==> exists|a: Seq<char>| s == #[trigger] (a + part),
        text::has_prefix(s, part) ==> s == part + text::after(s, part.len() as int),
{
    let n = part.len() as int;
    if text::has_prefix(s, part) {
        assert(s =~= part + text::after(s, n));
    }
    if text::has_suffix(s, part) {
        assert(s =~= s.subrange(0, s.len() - n) + part);
    }
    if exists|b: Seq<char>| s == #[trigger] (part + b) {
        assert(s.subrange(0, n) =~= part);
    }
    if exists|a: Seq<char>| s == #[trigger] (a + part) {
        assert(s.subrange(s.len() - n, s.len() as int) =~= part);
    }
}

/// White space: the blank, what moves the cursor, and the wider blanks of other scripts.
pub open spec fn white(c: char) -> bool {
    let n = c as int;
    n == 32 || 9 <= n <= 13 || n == 133 || n == 160 || n == 5760 || 8192 <= n <= 8202 || n == 8232 || n == 8233 || n
        == 8239 || n == 8287 || n == 12288
}

/// All of a text is white space.
pub open spec fn all_white(s: Seq<char>) -> bool {
    forall|i: int| 0 <= i < s.len() ==> white(#[trigger] s[i])
}

/// Trimming takes the white space at both ends and nothing else.
pub proof fn lemma_trimming_takes_white_space(before: Seq<char>, core: Seq<char>, behind: Seq<char>)
    requires
        all_white(before),
        all_white(behind),
        core.len() > 0 ==> !white(core[0]) && !white(core.last()),
    ensures
        text::trim(before + core + behind) == core,
    decreases before.len() + behind.len(),
{
    let s = before + core + behind;
    if before.len() > 0 {
        let rest = before.drop_first();
        assert(white(before[0]) && s[0] == before[0]);
        assert forall|i: int| 0 <= i < rest.len() implies white(#[trigger] rest[i]) by {
            assert(rest[i] == before[i + 1]);
        }
        assert(s.drop_first() =~= rest + core + behind);
        lemma_trimming_takes_white_space(rest, core, behind);
    } else if core.len() > 0 {
        assert(s[0] == core[0]);
        lemma_trim_end(core, behind);
        assert(s =~= core + behind);
    } else {
        assert(s =~= behind);
        lemma_all_white_goes(behind);
    }
}

proof fn lemma_trim_end(core: Seq<char>, behind: Seq<char>)
    requires
        all_white(behind),
        core.len() > 0,
        !white(core.last()),
    ensures
        text::trim_end(core + behind) == core,
    decreases behind.len(),
{
    let s = core + behind;
    if behind.len() > 0 {
        assert(s.last() == behind.last() && white(behind[behind.len() - 1]));
        assert(s.drop_last() =~= core + behind.drop_last());
        lemma_trim_end(core, behind.drop_last());
    } else {
        assert(s =~= core);
    }
}

proof fn lemma_all_white_goes(s: Seq<char>)
    requires
        all_white(s),
    ensures
        text::trim(s) == Seq::<char>::empty(),
    decreases s.len(),
{
    if s.len() > 0 {
        let rest = s.drop_first();
        assert(white(s[0]));
        assert forall|i: int| 0 <= i < rest.len() implies white(#[trigger] rest[i]) by {
            assert(rest[i] == s[i + 1]);
        }
        lemma_all_white_goes(rest);
    }
}

/// What is left of a text after trimming neither begins nor ends with white space, and what was
/// taken is white space.
pub proof fn lemma_trimmed_text_has_no_white_ends(s: Seq<char>)
    ensures
        exists|before: Seq<char>, behind: Seq<char>|
            s == #[trigger] (before + text::trim(s) + behind) && all_white(before) && all_white(behind),
        text::trim(s).len() > 0 ==> !white(text::trim(s)[0]) && !white(text::trim(s).last()),
    decreases s.len(),
{
    if s.len() == 0 {
        assert(s =~= Seq::<char>::empty() + text::trim(s) + Seq::<char>::empty());
    } else if white(s[0]) {
        let rest = s.drop_first();
        lemma_trimmed_text_has_no_white_ends(rest);
        let (a, b) = choose|a: Seq<char>, b: Seq<char>|
            rest == #[trigger] (a + text::trim(rest) + b) && all_white(a) && all_white(b);
        let before = seq![s[0]] + a;
        assert forall|i: int| 0 <= i < before.len() implies white(#[trigger] before[i]) by {
            if i > 0 {
                assert(before[i] == a[i - 1]);
            }
        }
        assert(text::trim(s) == text::trim(rest));
        assert(before + text::trim(s) + b =~= seq![s[0]] + (a + text::trim(rest) + b));
        assert(s =~= seq![s[0]] + rest);
        assert(s == before + text::trim(s) + b);
    } else {
        lemma_trimmed_end(s);
        let b = choose|b: Seq<char>| s == #[trigger] (text::trim_end(s) + b) && all_white(b);
        assert(s =~= Seq::<char>::empty() + text::trim(s) + b);
        if text::trim(s).len() > 0 {
            assert(text::trim(s)[0] == s[0]);
        }
    }
}

proof fn lemma_trimmed_end(s: Seq<char>)
    ensures
        exists|b: Seq<char>| s == #[trigger] (text::trim_end(s) + b) && all_white(b),
        text::trim_end(s).len() > 0 ==> !white(text::trim_end(s).last()),
    decreases s.len(),
{
    if s.len() > 0 && white(s.last()) {
        lemma_trimmed_end(s.drop_last());
        let b = choose|b: Seq<char>| s.drop_last() == #[trigger] (text::trim_end(s.drop_last()) + b) && all_white(b);
        let more = b.push(s.last());
        assert(text::trim_end(s) == text::trim_end(s.drop_last()));
        assert(text::trim_end(s) + more =~= (text::trim_end(s.drop_last()) + b).push(s.last()));
        assert(s =~= s.drop_last().push(s.last()));
        assert(s == text::trim_end(s) + more);
        assert(all_white(more));
    } else {
        assert(s =~= text::trim_end(s) + Seq::<char>::empty());
    }
}

/// A text is its lines: what stands before the first line feed, without a carriage return at its
/// end, and then the lines of the rest. A last line needs no line feed.
pub proof fn lemma_text_is_its_lines(line: Seq<char>, rest: Seq<char>)
    requires
        forall|i: int| 0 <= i < line.len() ==> line[i] != '\n',
    ensures
        line.len() == 0 || line.last() != '\r' ==> text::lines(line + seq!['\n'] + rest) == seq![line] + text::lines(
            rest,
        ),
        text::lines(line + seq!['\r', '\n'] + rest) == seq![line] + text::lines(rest),
        line.len() > 0 ==> text::lines(line) == seq![line],
        text::lines(Seq::empty()) == Seq::<Seq<char>>::empty(),
{
    let a = line + seq!['\n'] + rest;
    let n = line.len() as int;
    assert forall|i: int| 0 <= i < n implies a[i] != '\n' by {
        assert(a[i] == line[i]);
    }
    assert(a[n] == '\n');
    text::lemma_first_at(a, '\n', n);
    assert(a.subrange(0, n) =~= line);
    assert(text::after(a, n + 1) =~= rest);
    let b = line + seq!['\r', '\n'] + rest;
    assert forall|i: int| 0 <= i < n + 1 implies b[i] != '\n' by {
        if i < n {
            assert(b[i] == line[i]);
        }
    }
    assert(b[n + 1] == '\n');
    text::lemma_first_at(b, '\n', n + 1);
    assert(b.subrange(0, n + 1) =~= line.push('\r'));
    assert(line.push('\r').drop_last() =~= line);
    assert(text::after(b, n + 2) =~= rest);
    if n > 0 {
        text::lemma_first_at(line, '\n', n);
    }
}

/// Lines are written one after the other, each with a line feed behind it.
pub proof fn lemma_lines_are_written_in_turn(ls: Seq<Seq<char>>, line: Seq<char>)
    ensures
        text::unlines(ls.push(line)) == text::unlines(ls) + line + seq!['\n'],
        text::unlines(Seq::empty()) == Seq::<char>::empty(),
{
    reveal_strlit("\n");
    assert(ls.push(line).drop_last() =~= ls);
    assert("\n"@ =~= seq!['\n']);
}

/// The order of texts goes by the first character in which they differ, and a beginning comes
/// before the whole.
pub proof fn lemma_order_goes_by_the_first_difference(
    common: Seq<char>,
    x: char,
    y: char,
    a: Seq<char>,
    b: Seq<char>,
)
    ensures
        x != y ==> (text::precedes(common + seq![x] + a, common + seq![y] + b) <==> x < y),
        text::precedes(common, common + seq![x] + a),
        !text::precedes(common + seq![x] + a, common),
        !text::precedes(common, common),
    decreases common.len(),
{
    let p = common + seq![x] + a;
    let q = common + seq![y] + b;
    if common.len() > 0 {
        let rest = common.drop_first();
        lemma_order_goes_by_the_first_difference(rest, x, y, a, b);
        assert(p.drop_first() =~= rest + seq![x] + a);
        assert(q.drop_first() =~= rest + seq![y] + b);
        assert(p[0] == common[0] && q[0] == common[0]);
    } else {
        assert(p[0] == x && q[0] == y);
    }
}

/// Texts are the same but for case where they have the same length and each letter is that letter,
/// large or small.
pub proof fn lemma_case_does_not_count(a: Seq<char>, b: Seq<char>)
    ensures
        text::same_ignoring_case(a, b) <==> a.len() == b.len() && forall|i: int|
            0 <= i < a.len() ==> {
                let (x, y) = (#[trigger] a[i], b[i]);
                ||| x == y
                ||| 'A' <= x <= 'Z' && y as int == x as int + 32
                ||| 'A' <= y <= 'Z' && x as int == y as int + 32
            },
{
    if text::same_ignoring_case(a, b) {
        assert forall|i: int| 0 <= i < a.len() implies {
            let (x, y) = (#[trigger] a[i], b[i]);
            ||| x == y
            ||| 'A' <= x <= 'Z' && y as int == x as int + 32
            ||| 'A' <= y <= 'Z' && x as int == y as int + 32
        } by {
            assert(text::to_lower(a[i]) == text::to_lower(b[i]));
        }
    }
}

/// A path goes on behind a slash, of which there is one, and an absolute path starts anew.
pub proof fn lemma_paths_are_joined_by_a_slash(base: Seq<char>, part: Seq<char>)
    ensures
        part.len() > 0 && part[0] == '/' ==> paths::joined(base, part) == part,
        part.len() == 0 || part[0] != '/' ==> {
            &&& base.len() > 0 && base.last() != '/' ==> paths::joined(base, part) == base + seq!['/'] + part
            &&& base.len() > 0 && base.last() == '/' ==> paths::joined(base, part) == base + part
            &&& base.len() == 0 ==> paths::joined(base, part) == part
        },
{
    reveal_strlit("/");
    assert("/"@ =~= seq!['/']);
    assert(Seq::<char>::empty() + part =~= part);
    if base.len() == 0 {
        assert(base + part =~= part);
    }
}

/// Taking an ending off as often as it stands there leaves what stood before it.
pub proof fn lemma_endings_go(core: Seq<char>, ending: Seq<char>, times: nat)
    requires
        ending.len() > 0,
        !exists|a: Seq<char>| core == #[trigger] (a + ending),
    ensures
        text::without_suffixes(core + repeated(ending, times), ending) == core,
    decreases times,
{
    lemma_beginnings_and_ends(core, ending);
    if times == 0 {
        assert(core + repeated(ending, times) =~= core);
    } else {
        let fewer = core + repeated(ending, (times - 1) as nat);
        let s = core + repeated(ending, times);
        lemma_endings_go(core, ending, (times - 1) as nat);
        assert(s =~= fewer + ending);
        assert(s.subrange(s.len() - ending.len(), s.len() as int) =~= ending);
        assert(s.subrange(0, s.len() - ending.len()) =~= fewer);
    }
}

/// So many copies of a text.
pub open spec fn repeated(s: Seq<char>, times: nat) -> Seq<char>
    decreases times,
{
    if times == 0 {
        Seq::empty()
    } else {
        repeated(s, (times - 1) as nat) + s
    }
}

/// Parts are joined in their order, with the separator between them and nowhere else.
pub proof fn lemma_parts_are_joined_in_order(parts: Seq<Seq<char>>, part: Seq<char>, sep: Seq<char>)
    ensures
        text::join(Seq::empty(), sep) == Seq::<char>::empty(),
        text::join(seq![part], sep) == part,
        parts.len() > 0 ==> text::join(parts.push(part), sep) == text::join(parts, sep) + sep + part,
{
    assert(parts.push(part).drop_last() =~= parts);
}

} // verus!
