//! Built-in defaults, and the rule for the names of workspaces and schedules.
use crate::error::{Error, ErrorModel};
use crate::names;
use crate::paths;
use crate::text;
use vstd::prelude::*;

verus! {

/// The longest name, in bytes.
pub const MAX_NAME_LEN: usize = 31;

/// A lower-case letter or a digit.
pub open spec fn may_start_name(c: char) -> bool {
    'a' <= c <= 'z' || '0' <= c <= '9'
}

/// A lower-case letter, a digit, `-` or `_`.
pub open spec fn may_stand_in_name(c: char) -> bool {
    may_start_name(c) || c == '-' || c == '_'
}

/// A name of 1 to 31 allowed characters that starts with a lower-case letter or a digit.
pub open spec fn valid_name(name: Seq<char>) -> bool {
    &&& 0 < name.len() <= MAX_NAME_LEN
    &&& may_start_name(name[0])
    &&& forall|i: int| 0 <= i < name.len() ==> may_stand_in_name(#[trigger] name[i])
}

/// What is wrong with a name, in words: the first complaint that applies.
pub open spec fn name_problem(kind: Seq<char>, name: Seq<char>) -> Option<Seq<char>> {
    if name.len() == 0 {
        Some(kind + " name cannot be empty"@)
    } else if text::utf8_len(name) > MAX_NAME_LEN {
        Some(kind + " name must be 31 characters or fewer"@)
    } else if !may_start_name(name[0]) {
        Some(kind + " name must start with a lowercase letter or digit"@)
    } else if exists|i: int| 1 <= i < name.len() && !may_stand_in_name(#[trigger] name[i]) {
        Some(kind + " name may only contain lowercase letters, digits, '-' and '_'"@)
    } else {
        None
    }
}

proof fn lemma_ascii_len(s: Seq<char>)
    requires
        forall|i: int| 0 <= i < s.len() ==> (#[trigger] s[i]) <= '\u{7f}',
    ensures
        text::utf8_len(s) == s.len(),
    decreases s.len(),
{
    if s.len() > 0 {
        lemma_ascii_len(s.drop_last());
    }
}

/// A name is accepted exactly where it is valid, whatever it is the name of.
pub proof fn lemma_accepted_names(kind: Seq<char>, name: Seq<char>)
    ensures
        name_problem(kind, name) is None <==> valid_name(name),
{
    if name.len() > 0 && may_start_name(name[0]) && forall|i: int|
        1 <= i < name.len() ==> may_stand_in_name(#[trigger] name[i]) {
        assert forall|i: int| 0 <= i < name.len() implies may_stand_in_name(#[trigger] name[i]) by {}
        lemma_ascii_len(name);
    }
    if valid_name(name) {
        assert(forall|i: int| 1 <= i < name.len() ==> may_stand_in_name(#[trigger] name[i]));
    }
}

fn start_ok(c: char) -> (r: bool)
    ensures
        r == may_start_name(c),
{
    ('a' <= c && c <= 'z') || ('0' <= c && c <= '9')
}

fn inner_ok(c: char) -> (r: bool)
    ensures
        r == may_stand_in_name(c),
{
    start_ok(c) || c == '-' || c == '_'
}

proof fn lemma_utf8_len_grows(s: Seq<char>, n: int)
    requires
        0 <= n <= s.len(),
    ensures
        text::utf8_len(s.subrange(0, n)) <= text::utf8_len(s),
    decreases s.len() - n,
{
    if n < s.len() {
        lemma_utf8_len_grows(s, n + 1);
        assert(s.subrange(0, n + 1).drop_last() =~= s.subrange(0, n));
    } else {
        assert(s.subrange(0, n) =~= s);
    }
}

/// Whether a string takes more than that many bytes in UTF-8.
fn longer_than(chars: &Vec<char>, limit: usize) -> (r: bool)
    requires
        limit < 0x7fff_ffff,
    ensures
        r == (text::utf8_len(chars@) > limit),
{
    let mut total: usize = 0;
    let mut i: usize = 0;
    assert(chars@.subrange(0, 0) =~= Seq::empty());
    while i < chars.len()
        invariant
            i <= chars.len(),
            limit < 0x7fff_ffff,
            total <= limit,
            total == text::utf8_len(chars@.subrange(0, i as int)),
        decreases chars.len() - i,
    {
        let c = chars[i];
        let width: usize = if c <= '\u{7f}' { 1 } else if c <= '\u{7ff}' { 2 } else if c <= '\u{ffff}' { 3 } else { 4 };
        proof {
            assert(chars@.subrange(0, i + 1).drop_last() =~= chars@.subrange(0, i as int));
            lemma_utf8_len_grows(chars@, i + 1);
        }
        total = total + width;
        if total > limit {
            return true;
        }
        i = i + 1;
    }
    assert(chars@.subrange(0, chars.len() as int) =~= chars@);
    false
}

fn refused(kind: &str, complaint: &str) -> (r: Error)
    ensures
        r@ == ErrorModel::plain(kind@ + complaint@),
{
    let mut text = kind.to_owned();
    text.append(complaint);
    Error::new(text)
}

/// Accepts the name of a workspace or a schedule, or says what is wrong with it.
pub fn validate_registration_name(kind: &str, name: &str) -> (r: Result<(), Error>)
    ensures
        r is Ok <==> valid_name(name@),
        r is Ok <==> name_problem(kind@, name@) is None,
        r matches Err(e) ==> name_problem(kind@, name@) matches Some(complaint) && e@ == ErrorModel::plain(complaint),
{
    let chars = text::chars_of(name);
    proof {
        lemma_accepted_names(kind@, name@);
    }
    if chars.len() == 0 {
        return Err(refused(kind, " name cannot be empty"));
    }
    if longer_than(&chars, MAX_NAME_LEN) {
        return Err(refused(kind, " name must be 31 characters or fewer"));
    }
    if !start_ok(chars[0]) {
        return Err(refused(kind, " name must start with a lowercase letter or digit"));
    }
    let mut i: usize = 1;
    while i < chars.len()
        invariant
            chars@ == name@,
            1 <= i <= chars.len(),
            text::utf8_len(name@) <= MAX_NAME_LEN,
            may_start_name(name@[0]),
            forall|j: int| 1 <= j < i ==> may_stand_in_name(#[trigger] name@[j]),
            name_problem(kind@, name@) is None <==> valid_name(name@),
        decreases chars.len() - i,
    {
        if !inner_ok(chars[i]) {
            assert(!may_stand_in_name(name@[i as int]));
            return Err(refused(kind, " name may only contain lowercase letters, digits, '-' and '_'"));
        }
        i = i + 1;
    }
    Ok(())
}

/// The directory that is scanned where none is given: the current one.
pub open spec fn usual_dir(current_dir: Option<Seq<char>>) -> Seq<char> {
    match current_dir {
        Some(dir) => dir,
        None => "."@,
    }
}

/// The directory that is scanned by default: the current one, where it is known.
pub fn default_dir(current_dir: Option<String>) -> (r: String)
    ensures
        r@ == usual_dir(current_dir.deep_view()),
{
    match current_dir {
        Some(dir) => dir,
        None => ".".to_owned(),
    }
}

/// The log file that is written by default.
pub open spec fn default_log(home: Option<Seq<char>>) -> Seq<char> {
    match home {
        Some(home) => paths::joined(home, ".local/share/worktree-gc/gc.jsonl"@),
        None => "gc.jsonl"@,
    }
}

/// The log file that is written by default: one under the home directory, where it is known.
pub fn default_log_file(home: Option<&str>) -> (r: String)
    ensures
        r@ == default_log(home.deep_view()),
{
    match home {
        Some(home) => paths::join_path(home, ".local/share/worktree-gc/gc.jsonl"),
        None => "gc.jsonl".to_owned(),
    }
}

proof fn lemma_numbered_is_valid(stem: Seq<char>, k: nat)
    requires
        0 < stem.len() <= 11,
        may_start_name(stem[0]),
        forall|i: int| 0 <= i < stem.len() ==> may_stand_in_name(#[trigger] stem[i]),
        k < 0x1_0000_0000_0000_0002,
    ensures
        valid_name(names::numbered(stem, k)),
{
    let name = names::numbered(stem, k);
    let d = text::decimal(k);
    reveal_with_fuel(text::power_of_ten, 21);
    assert(text::power_of_ten(20) == 100_000_000_000_000_000_000);
    text::lemma_digit_count(k, 20);
    text::lemma_decimal_reads_back(k);
    assert forall|i: int| 0 <= i < name.len() implies may_stand_in_name(#[trigger] name[i]) by {
        if i < stem.len() {
            assert(name[i] == stem[i]);
        } else {
            assert(name[i] == d[i - stem.len()]);
            assert(text::is_digit(d[i - stem.len()]));
        }
    }
    assert(name[0] == stem[0]);
}

/// The names that are offered for new workspaces and schedules are valid: the usual one, and the
/// numbered ones up to what a list can hold.
pub proof fn lemma_offered_names_are_valid(k: nat)
    requires
        k < 0x1_0000_0000_0000_0002,
    ensures
        valid_name("default"@),
        valid_name(names::numbered("workspace-"@, k)),
        valid_name(names::numbered("schedule-"@, k)),
{
    reveal_strlit("default");
    reveal_strlit("workspace-");
    reveal_strlit("schedule-");
    lemma_numbered_is_valid("workspace-"@, k);
    lemma_numbered_is_valid("schedule-"@, k);
}

} // verus!
