//! Property lists: the files in which launchd finds its jobs.
use crate::names;
use crate::platform;
use crate::text;
use vstd::prelude::*;

verus! {

/// A line of a plist that holds a string, set in by `pad`.
pub open spec fn string_line(pad: Seq<char>, value: Seq<char>) -> Seq<char> {
    pad + "<string>"@ + value + "</string>"@
}

/// A line of a plist that holds a number.
pub open spec fn integer_line(n: u8) -> Seq<char> {
    "        <integer>"@ + text::decimal(n as nat) + "</integer>"@
}

/// The lines of a plist above the arguments of the program.
pub open spec fn plist_top(label: Seq<char>) -> Seq<Seq<char>> {
    seq![
        "<?xml version=\"1.0\" encoding=\"UTF-8\"?>"@,
        "<!DOCTYPE plist PUBLIC \"-//Apple//DTD PLIST 1.0//EN\" \"http://www.apple.com/DTDs/PropertyList-1.0.dtd\">"@,
        "<plist version=\"1.0\">"@,
        "<dict>"@,
        "    <key>Label</key>"@,
        string_line("    "@, label),
        ""@,
        "    <key>ProgramArguments</key>"@,
        "    <array>"@,
    ]
}

/// One line for each argument.
pub open spec fn argument_lines(args: Seq<Seq<char>>) -> Seq<Seq<char>> {
    Seq::new(args.len(), |i: int| string_line("        "@, args[i]))
}

/// The lines of a plist between the arguments and the time.
pub open spec fn plist_middle(path: Seq<char>) -> Seq<Seq<char>> {
    seq![
        "    </array>"@,
        ""@,
        "    <key>EnvironmentVariables</key>"@,
        "    <dict>"@,
        "        <key>PATH</key>"@,
        string_line("        "@, path),
        "    </dict>"@,
        ""@,
        "    <key>StartCalendarInterval</key>"@,
        "    <dict>"@,
    ]
}

/// The lines of a plist from the time on.
pub open spec fn plist_end(stdout_log: Seq<char>, stderr_log: Seq<char>, hour: u8, minute: u8) -> Seq<Seq<char>> {
    seq![
        "        <key>Hour</key>"@,
        integer_line(hour),
        "        <key>Minute</key>"@,
        integer_line(minute),
        "    </dict>"@,
        ""@,
        "    <key>StandardOutPath</key>"@,
        string_line("    "@, stdout_log),
        "    <key>StandardErrorPath</key>"@,
        string_line("    "@, stderr_log),
        "</dict>"@,
        "</plist>"@,
    ]
}

/// The lines of a plist: the job `label` runs `exe` with the arguments `args` each day at that
/// time, with that search path and those files for its output.
pub open spec fn plist_lines(
    label: Seq<char>,
    exe: Seq<char>,
    args: Seq<Seq<char>>,
    path: Seq<char>,
    stdout_log: Seq<char>,
    stderr_log: Seq<char>,
    hour: u8,
    minute: u8,
) -> Seq<Seq<char>> {
    plist_top(label) + argument_lines(seq![exe] + args) + plist_middle(path) + plist_end(
        stdout_log,
        stderr_log,
        hour,
        minute,
    )
}

fn string_text(pad: &str, value: &str) -> (r: String)
    ensures
        r@ == string_line(pad@, value@),
{
    let mut line = pad.to_owned();
    line.append("<string>");
    line.append(value);
    line.append("</string>");
    line
}

fn integer_text(n: u8) -> (r: String)
    ensures
        r@ == integer_line(n),
{
    let mut line = "        <integer>".to_owned();
    line.append(text::decimal_text(n as u128).as_str());
    line.append("</integer>");
    line
}

fn put_top(ls: &mut Vec<String>, label: &str)
    ensures
        final(ls).deep_view() == old(ls).deep_view() + plist_top(label@),
{
    names::put(ls, "<?xml version=\"1.0\" encoding=\"UTF-8\"?>".to_owned());
    names::put(
        ls,
        "<!DOCTYPE plist PUBLIC \"-//Apple//DTD PLIST 1.0//EN\" \"http://www.apple.com/DTDs/PropertyList-1.0.dtd\">".to_owned(),
    );
    names::put(ls, "<plist version=\"1.0\">".to_owned());
    names::put(ls, "<dict>".to_owned());
    names::put(ls, "    <key>Label</key>".to_owned());
    names::put(ls, string_text("    ", label));
    names::put(ls, "".to_owned());
    names::put(ls, "    <key>ProgramArguments</key>".to_owned());
    names::put(ls, "    <array>".to_owned());
}

fn put_arguments(ls: &mut Vec<String>, exe: &str, args: &Vec<String>)
    ensures
        final(ls).deep_view() == old(ls).deep_view() + argument_lines(seq![exe@] + args.deep_view()),
{
    let ghost before = ls.deep_view();
    let ghost all = seq![exe@] + args.deep_view();
    names::put(ls, string_text("        ", exe));
    let mut i: usize = 0;
    assert(ls.deep_view() =~= before + argument_lines(all.subrange(0, 1)));
    while i < args.len()
        invariant
            i <= args.len(),
            all == seq![exe@] + args.deep_view(),
            ls.deep_view() == before + argument_lines(all.subrange(0, i + 1)),
        decreases args.len() - i,
    {
        names::put(ls, string_text("        ", args[i].as_str()));
        proof {
            assert(all[i + 1] == args@[i as int]@);
            assert(ls.deep_view() =~= before + argument_lines(all.subrange(0, i + 2)));
        }
        i = i + 1;
    }
    assert(all.subrange(0, args.len() + 1) =~= all);
}

fn put_middle(ls: &mut Vec<String>, path: &str)
    ensures
        final(ls).deep_view() == old(ls).deep_view() + plist_middle(path@),
{
    names::put(ls, "    </array>".to_owned());
    names::put(ls, "".to_owned());
    names::put(ls, "    <key>EnvironmentVariables</key>".to_owned());
    names::put(ls, "    <dict>".to_owned());
    names::put(ls, "        <key>PATH</key>".to_owned());
    names::put(ls, string_text("        ", path));
    names::put(ls, "    </dict>".to_owned());
    names::put(ls, "".to_owned());
    names::put(ls, "    <key>StartCalendarInterval</key>".to_owned());
    names::put(ls, "    <dict>".to_owned());
}

fn put_end(ls: &mut Vec<String>, stdout_log: &str, stderr_log: &str, hour: u8, minute: u8)
    ensures
        final(ls).deep_view() == old(ls).deep_view() + plist_end(stdout_log@, stderr_log@, hour, minute),
{
    names::put(ls, "        <key>Hour</key>".to_owned());
    names::put(ls, integer_text(hour));
    names::put(ls, "        <key>Minute</key>".to_owned());
    names::put(ls, integer_text(minute));
    names::put(ls, "    </dict>".to_owned());
    names::put(ls, "".to_owned());
    names::put(ls, "    <key>StandardOutPath</key>".to_owned());
    names::put(ls, string_text("    ", stdout_log));
    names::put(ls, "    <key>StandardErrorPath</key>".to_owned());
    names::put(ls, string_text("    ", stderr_log));
    names::put(ls, "</dict>".to_owned());
    names::put(ls, "</plist>".to_owned());
}

/// The plist of a job that runs each day.
pub fn render_launchd_plist(
    label: &str,
    exe: &str,
    run_args: &Vec<String>,
    path: &str,
    stdout_log: &str,
    stderr_log: &str,
    hour: u8,
    minute: u8,
) -> (r: String)
    ensures
        r@ == text::unlines(
            plist_lines(
                label@,
                exe@,
                run_args.deep_view(),
                path@,
                stdout_log@,
                stderr_log@,
                hour,
                minute,
            ),
        ),
{
    let mut ls: Vec<String> = Vec::new();
    put_top(&mut ls, label);
    put_arguments(&mut ls, exe, run_args);
    put_middle(&mut ls, path);
    put_end(&mut ls, stdout_log, stderr_log, hour, minute);
    assert(ls.deep_view() =~= plist_lines(
        label@,
        exe@,
        run_args.deep_view(),
        path@,
        stdout_log@,
        stderr_log@,
        hour,
        minute,
    ));
    text::unlines_text(&ls)
}

/// The number in a line of a plist, as text, if it holds one.
pub open spec fn integer_in(line: Seq<char>) -> Option<Seq<char>> {
    let open_tag = "<integer>"@;
    let close_tag = "</integer>"@;
    let inner = text::after(text::trim(line), open_tag.len() as int);
    if text::has_prefix(text::trim(line), open_tag) && text::has_suffix(inner, close_tag) {
        Some(inner.subrange(0, inner.len() - close_tag.len()))
    } else {
        None
    }
}

/// The number on the line behind the first line that is `tag`, among those that a number follows.
pub open spec fn integer_behind(ls: Seq<Seq<char>>, tag: Seq<char>) -> Option<nat>
    decreases ls.len(),
{
    if ls.len() == 0 {
        None
    } else if text::trim(ls[0]) != tag {
        integer_behind(ls.drop_first(), tag)
    } else if ls.len() == 1 {
        None
    } else {
        match integer_in(ls[1]) {
            Some(digits) => text::parse_number(digits, u32::MAX as nat),
            None => integer_behind(ls.subrange(2, ls.len() as int), tag),
        }
    }
}

/// `<key>key</key>`.
pub open spec fn key_tag(key: Seq<char>) -> Seq<char> {
    "<key>"@ + key + "</key>"@
}

/// The number that a plist has under a key.
pub fn extract_plist_integer(content: &str, key: &str) -> (r: Option<u32>)
    ensures
        r is Some <==> integer_behind(text::lines(content@), key_tag(key@)) is Some,
        r matches Some(n) ==> integer_behind(text::lines(content@), key_tag(key@)) == Some(n as nat),
{
    let mut tag = "<key>".to_owned();
    tag.append(key);
    tag.append("</key>");
    let ls = text::split_lines(content);
    let ghost all = ls.deep_view();
    let mut i: usize = 0;
    assert(all.subrange(0, all.len() as int) =~= all);
    while i < ls.len()
        invariant
            all == ls.deep_view(),
            all == text::lines(content@),
            i <= ls.len(),
            tag@ == key_tag(key@),
            integer_behind(all, tag@) == integer_behind(all.subrange(i as int, all.len() as int), tag@),
        decreases ls.len() - i,
    {
        let ghost rest = all.subrange(i as int, all.len() as int);
        proof {
            assert(rest[0] == ls@[i as int]@);
            assert(rest.drop_first() =~= all.subrange(i + 1, all.len() as int));
        }
        if text::same(text::trimmed(ls[i]), tag.as_str()) {
            if i + 1 == ls.len() {
                return None;
            }
            proof {
                assert(rest[1] == ls@[i + 1]@);
                assert(rest.subrange(2, rest.len() as int) =~= all.subrange(i + 2, all.len() as int));
            }
            if let Some(inner) = text::strip_prefix(text::trimmed(ls[i + 1]), "<integer>") {
                if let Some(digits) = text::strip_suffix(inner, "</integer>") {
                    return match text::parse_unsigned(digits, u32::MAX as u128) {
                        Some(n) => Some(n as u32),
                        None => None,
                    };
                }
            }
            i = i + 2;
        } else {
            i = i + 1;
        }
    }
    None
}

/// The time that a plist has, as `HH:MM daily`, where it has one.
pub open spec fn time_in(content: Seq<char>) -> Option<Seq<char>> {
    let ls = text::lines(content);
    match (integer_behind(ls, key_tag("Hour"@)), integer_behind(ls, key_tag("Minute"@))) {
        (Some(hour), Some(minute)) => Some(platform::daily(hour, minute)),
        _ => None,
    }
}

/// The time that a plist has, as `HH:MM daily`, where it has one.
pub fn extract_plist_time(content: &str) -> (r: Option<String>)
    ensures
        r.deep_view() == time_in(content@),
{
    match (extract_plist_integer(content, "Hour"), extract_plist_integer(content, "Minute")) {
        (Some(hour), Some(minute)) => Some(platform::daily_text(hour, minute)),
        _ => None,
    }
}

/// A text without a line feed.
pub open spec fn stays_on_line(s: Seq<char>) -> bool {
    forall|i: int| 0 <= i < s.len() ==> s[i] != '\n'
}

proof fn lemma_string_line(pad: Seq<char>, value: Seq<char>, tag: Seq<char>)
    requires
        stays_on_line(value),
        pad == "    "@ || pad == "        "@,
        tag.len() > 1,
        tag[1] == 'k',
    ensures
        text::is_line(string_line(pad, value)),
        text::trim(string_line(pad, value)) != tag,
{
    reveal_strlit("    ");
    reveal_strlit("        ");
    reveal_strlit("<string>");
    reveal_strlit("</string>");
    let core = "<string>"@ + value + "</string>"@;
    let line = string_line(pad, value);
    assert(line =~= pad + core);
    text::lemma_trim_padded(pad, core);
    assert(core[1] == 's');
    assert forall|i: int| 0 <= i < line.len() implies line[i] != '\n' by {
        if pad.len() + 8 <= i < pad.len() + 8 + value.len() {
            assert(line[i] == value[i - pad.len() - 8]);
        }
    }
}

proof fn lemma_integer_line(n: u8, tag: Seq<char>)
    requires
        tag.len() > 1,
        tag[1] == 'k',
    ensures
        text::is_line(integer_line(n)),
        text::trim(integer_line(n)) != tag,
        integer_in(integer_line(n)) == Some(text::decimal(n as nat)),
        text::parse_number(text::decimal(n as nat), u32::MAX as nat) == Some(n as nat),
{
    reveal_strlit("        ");
    reveal_strlit("        <integer>");
    reveal_strlit("<integer>");
    reveal_strlit("</integer>");
    text::lemma_decimal_reads_back(n as nat);
    let d = text::decimal(n as nat);
    let pad = "        "@;
    let core = "<integer>"@ + d + "</integer>"@;
    let line = integer_line(n);
    assert("        <integer>"@ =~= pad + "<integer>"@);
    assert(line =~= pad + core);
    text::lemma_trim_padded(pad, core);
    assert(core[1] == 'i');
    assert forall|i: int| 0 <= i < line.len() implies line[i] != '\n' by {
        if 17 <= i < 17 + d.len() {
            assert(line[i] == d[i - 17]);
            assert(text::is_digit(d[i - 17]));
        }
    }
    let inner = text::after(core, 9);
    assert(core.subrange(0, 9) =~= "<integer>"@);
    assert(inner =~= d + "</integer>"@);
    assert(inner.subrange(inner.len() - 10, inner.len() as int) =~= "</integer>"@);
    assert(inner.subrange(0, inner.len() - 10) =~= d);
    assert(text::is_digit(d[0]));
}

/// A line that is known letter by letter, without the letter `c` that `tag` has.
proof fn lemma_plain_line(line: Seq<char>, c: char, tag: Seq<char>)
    requires
        forall|i: int| 0 <= i < line.len() ==> line[i] != c,
        tag.contains(c),
    ensures
        text::trim(line) != tag,
{
    text::lemma_trim_brings_nothing(line, c);
}

/// The letter by which the tag of the hour and that of the minute differ from all others.
spec fn mark_of(key: Seq<char>) -> char {
    if key == "Hour"@ { 'H' } else { 'M' }
}

proof fn lemma_tags(key: Seq<char>)
    requires
        key == "Hour"@ || key == "Minute"@,
    ensures
        key_tag(key).len() > 6,
        key_tag(key)[1] == 'k',
        key_tag(key)[5] == mark_of(key),
        key_tag(key).contains(mark_of(key)),
        "Hour"@ != "Minute"@,
{
    reveal_strlit("<key>");
    reveal_strlit("</key>");
    reveal_strlit("Hour");
    reveal_strlit("Minute");
    assert("Hour"@.len() != "Minute"@.len());
    assert(key_tag(key)[5] == key[0]);
}

proof fn lemma_top_lines(label: Seq<char>, key: Seq<char>)
    requires
        stays_on_line(label),
        key == "Hour"@ || key == "Minute"@,
    ensures
        forall|i: int| 0 <= i < plist_top(label).len() ==> text::is_line(#[trigger] plist_top(label)[i])
            && text::trim(plist_top(label)[i]) != key_tag(key),
{
    let c = mark_of(key);
    let tag = key_tag(key);
    lemma_tags(key);
    reveal_strlit("<?xml version=\"1.0\" encoding=\"UTF-8\"?>");
    reveal_strlit("<!DOCTYPE plist PUBLIC \"-//Apple//DTD PLIST 1.0//EN\" \"http://www.apple.com/DTDs/PropertyList-1.0.dtd\">");
    reveal_strlit("<plist version=\"1.0\">");
    reveal_strlit("<dict>");
    reveal_strlit("    <key>Label</key>");
    reveal_strlit("");
    reveal_strlit("    <key>ProgramArguments</key>");
    reveal_strlit("    <array>");
    let top = plist_top(label);
    lemma_plain_line(top[0], c, tag);
    lemma_plain_line(top[1], c, tag);
    lemma_plain_line(top[2], c, tag);
    lemma_plain_line(top[3], c, tag);
    lemma_plain_line(top[4], c, tag);
    lemma_string_line("    "@, label, tag);
    lemma_plain_line(top[6], c, tag);
    lemma_plain_line(top[7], c, tag);
    lemma_plain_line(top[8], c, tag);
    assert(text::is_line(top[0]) && text::is_line(top[1]) && text::is_line(top[2]) && text::is_line(top[3]));
    assert(text::is_line(top[4]) && text::is_line(top[6]) && text::is_line(top[7]) && text::is_line(top[8]));
}

proof fn lemma_path_line(key: Seq<char>)
    requires
        key == "Hour"@ || key == "Minute"@,
    ensures
        text::is_line("        <key>PATH</key>"@),
        text::trim("        <key>PATH</key>"@) != key_tag(key),
{
    lemma_tags(key);
    reveal_strlit("        ");
    reveal_strlit("<key>PATH</key>");
    reveal_strlit("        <key>PATH</key>");
    assert("        <key>PATH</key>"@ =~= "        "@ + "<key>PATH</key>"@);
    text::lemma_trim_padded("        "@, "<key>PATH</key>"@);
}

proof fn lemma_middle_lines(path: Seq<char>, key: Seq<char>)
    requires
        stays_on_line(path),
        key == "Hour"@ || key == "Minute"@,
    ensures
        forall|i: int| 0 <= i < plist_middle(path).len() ==> text::is_line(#[trigger] plist_middle(path)[i])
            && text::trim(plist_middle(path)[i]) != key_tag(key),
{
    let c = mark_of(key);
    let tag = key_tag(key);
    lemma_tags(key);
    lemma_path_line(key);
    reveal_strlit("    </array>");
    reveal_strlit("");
    reveal_strlit("    <key>EnvironmentVariables</key>");
    reveal_strlit("    <dict>");
    reveal_strlit("    </dict>");
    reveal_strlit("    <key>StartCalendarInterval</key>");
    let ls = plist_middle(path);
    lemma_plain_line(ls[0], c, tag);
    lemma_plain_line(ls[1], c, tag);
    lemma_plain_line(ls[2], c, tag);
    lemma_plain_line(ls[3], c, tag);
    lemma_string_line("        "@, path, tag);
    lemma_plain_line(ls[6], c, tag);
    lemma_plain_line(ls[7], c, tag);
    lemma_plain_line(ls[8], c, tag);
    lemma_plain_line(ls[9], c, tag);
    assert(text::is_line(ls[0]) && text::is_line(ls[1]) && text::is_line(ls[2]) && text::is_line(ls[3]));
    assert(text::is_line(ls[6]) && text::is_line(ls[7]) && text::is_line(ls[8]) && text::is_line(ls[9]));
}

proof fn lemma_end_lines(stdout_log: Seq<char>, stderr_log: Seq<char>, hour: u8, minute: u8)
    requires
        stays_on_line(stdout_log),
        stays_on_line(stderr_log),
    ensures
        ({
            let ls = plist_end(stdout_log, stderr_log, hour, minute);
            &&& forall|i: int| 0 <= i < ls.len() ==> text::is_line(#[trigger] ls[i])
            &&& text::trim(ls[0]) == key_tag("Hour"@)
            &&& text::trim(ls[0]) != key_tag("Minute"@)
            &&& text::trim(ls[1]) != key_tag("Minute"@)
            &&& text::trim(ls[2]) == key_tag("Minute"@)
        }),
{
    let tag = key_tag("Minute"@);
    let ls = plist_end(stdout_log, stderr_log, hour, minute);
    lemma_tags("Hour"@);
    lemma_tags("Minute"@);
    reveal_strlit("<key>");
    reveal_strlit("</key>");
    reveal_strlit("Hour");
    reveal_strlit("Minute");
    reveal_strlit("        ");
    reveal_strlit("        <key>Hour</key>");
    reveal_strlit("        <key>Minute</key>");
    assert(ls[0] =~= "        "@ + key_tag("Hour"@));
    assert(ls[2] =~= "        "@ + key_tag("Minute"@));
    text::lemma_trim_padded("        "@, key_tag("Hour"@));
    text::lemma_trim_padded("        "@, key_tag("Minute"@));
    lemma_integer_line(hour, tag);
    lemma_integer_line(minute, tag);
    reveal_strlit("    </dict>");
    reveal_strlit("");
    reveal_strlit("    <key>StandardOutPath</key>");
    reveal_strlit("    <key>StandardErrorPath</key>");
    reveal_strlit("</dict>");
    reveal_strlit("</plist>");
    lemma_string_line("    "@, stdout_log, tag);
    lemma_string_line("    "@, stderr_log, tag);
    assert(text::is_line(ls[0]) && text::is_line(ls[2]) && text::is_line(ls[4]) && text::is_line(ls[5]));
    assert(text::is_line(ls[6]) && text::is_line(ls[8]) && text::is_line(ls[10]) && text::is_line(ls[11]));
}

proof fn lemma_integer_behind_skips(ls: Seq<Seq<char>>, tag: Seq<char>, n: int)
    requires
        0 <= n <= ls.len(),
        forall|i: int| 0 <= i < n ==> text::trim(#[trigger] ls[i]) != tag,
    ensures
        integer_behind(ls, tag) == integer_behind(ls.subrange(n, ls.len() as int), tag),
    decreases n,
{
    if n > 0 {
        let rest = ls.drop_first();
        assert forall|i: int| 0 <= i < n - 1 implies text::trim(#[trigger] rest[i]) != tag by {
            assert(rest[i] == ls[i + 1]);
        }
        lemma_integer_behind_skips(rest, tag, n - 1);
        assert(rest.subrange(n - 1, rest.len() as int) =~= ls.subrange(n, ls.len() as int));
    } else {
        assert(ls.subrange(0, ls.len() as int) =~= ls);
    }
}

/// The lines of a plist are lines, and those above the time are not the keys of the time.
proof fn lemma_plist_lines(
    label: Seq<char>,
    exe: Seq<char>,
    args: Seq<Seq<char>>,
    path: Seq<char>,
    stdout_log: Seq<char>,
    stderr_log: Seq<char>,
    hour: u8,
    minute: u8,
)
    requires
        stays_on_line(label),
        stays_on_line(exe),
        forall|i: int| 0 <= i < args.len() ==> stays_on_line(#[trigger] args[i]),
        stays_on_line(path),
        stays_on_line(stdout_log),
        stays_on_line(stderr_log),
    ensures
        ({
            let ls = plist_lines(label, exe, args, path, stdout_log, stderr_log, hour, minute);
            let n = ls.len() - plist_end(stdout_log, stderr_log, hour, minute).len();
            forall|i: int|
                0 <= i < ls.len() ==> text::is_line(#[trigger] ls[i]) && (i < n ==> text::trim(ls[i]) != key_tag("Hour"@)
                    && text::trim(ls[i]) != key_tag("Minute"@))
        }),
{
    let top = plist_top(label);
    let all_args = seq![exe] + args;
    let arguments = argument_lines(all_args);
    let middle = plist_middle(path);
    let end = plist_end(stdout_log, stderr_log, hour, minute);
    let ls = plist_lines(label, exe, args, path, stdout_log, stderr_log, hour, minute);
    let n = (top.len() + arguments.len() + middle.len()) as int;
    let h = key_tag("Hour"@);
    let m = key_tag("Minute"@);
    lemma_tags("Hour"@);
    lemma_tags("Minute"@);
    lemma_top_lines(label, "Hour"@);
    lemma_top_lines(label, "Minute"@);
    lemma_middle_lines(path, "Hour"@);
    lemma_middle_lines(path, "Minute"@);
    lemma_end_lines(stdout_log, stderr_log, hour, minute);
    assert forall|i: int| 0 <= i < ls.len() implies text::is_line(#[trigger] ls[i]) && (i < n ==> text::trim(ls[i]) != h
        && text::trim(ls[i]) != m) by {
        if i < top.len() {
            assert(ls[i] == top[i]);
        } else if i < top.len() + arguments.len() {
            let k = i - top.len();
            assert(ls[i] == arguments[k]);
            if k > 0 {
                assert(all_args[k] == args[k - 1]);
            }
            lemma_string_line("        "@, all_args[k], h);
            lemma_string_line("        "@, all_args[k], m);
        } else if i < n {
            assert(ls[i] == middle[i - top.len() - arguments.len()]);
        } else {
            assert(ls[i] == end[i - n]);
        }
    }
}

/// The time that is written into a plist is read back from it, where none of the values in it
/// holds a line feed.
pub proof fn lemma_plist_tells_its_time(
    label: Seq<char>,
    exe: Seq<char>,
    args: Seq<Seq<char>>,
    path: Seq<char>,
    stdout_log: Seq<char>,
    stderr_log: Seq<char>,
    hour: u8,
    minute: u8,
)
    requires
        stays_on_line(label),
        stays_on_line(exe),
        forall|i: int| 0 <= i < args.len() ==> stays_on_line(#[trigger] args[i]),
        stays_on_line(path),
        stays_on_line(stdout_log),
        stays_on_line(stderr_log),
    ensures
        ({
            let content = text::unlines(plist_lines(label, exe, args, path, stdout_log, stderr_log, hour, minute));
            &&& integer_behind(text::lines(content), key_tag("Hour"@)) == Some(hour as nat)
            &&& integer_behind(text::lines(content), key_tag("Minute"@)) == Some(minute as nat)
        }),
{
    let end = plist_end(stdout_log, stderr_log, hour, minute);
    let ls = plist_lines(label, exe, args, path, stdout_log, stderr_log, hour, minute);
    let n = ls.len() - end.len();
    let h = key_tag("Hour"@);
    let m = key_tag("Minute"@);
    lemma_tags("Hour"@);
    lemma_tags("Minute"@);
    lemma_plist_lines(label, exe, args, path, stdout_log, stderr_log, hour, minute);
    lemma_end_lines(stdout_log, stderr_log, hour, minute);
    text::lemma_lines_of_unlines(ls);
    assert(ls[n] == end[0] && ls[n + 1] == end[1] && ls[n + 2] == end[2] && ls[n + 3] == end[3]);
    lemma_integer_line(hour, h);
    lemma_integer_line(minute, m);
    lemma_integer_behind_skips(ls, h, n);
    lemma_integer_behind_skips(ls, m, n + 2);
    let a = ls.subrange(n, ls.len() as int);
    let b = ls.subrange(n + 2, ls.len() as int);
    assert(a[0] == ls[n] && a[1] == ls[n + 1]);
    assert(b[0] == ls[n + 2] && b[1] == ls[n + 3]);
}

/// A key that no number follows has no number: not where the key stands nowhere, and not where
/// something else stands behind it each time.
pub proof fn lemma_key_without_number(ls: Seq<Seq<char>>, key: Seq<char>)
    requires
        forall|i: int|
            0 <= i && i + 1 < ls.len() && text::trim(#[trigger] ls[i]) == key_tag(key) ==> integer_in(ls[i + 1]) is None,
    ensures
        integer_behind(ls, key_tag(key)) is None,
    decreases ls.len(),
{
    let tag = key_tag(key);
    if ls.len() > 0 {
        let one = ls.drop_first();
        assert forall|i: int| 0 <= i && i + 1 < one.len() && text::trim(#[trigger] one[i]) == tag implies integer_in(
            one[i + 1],
        ) is None by {
            assert(one[i] == ls[i + 1] && one[i + 1] == ls[i + 2]);
        }
        lemma_key_without_number(one, key);
        if ls.len() > 1 {
            let two = ls.subrange(2, ls.len() as int);
            assert forall|i: int| 0 <= i && i + 1 < two.len() && text::trim(#[trigger] two[i]) == tag implies integer_in(
                two[i + 1],
            ) is None by {
                assert(two[i] == ls[i + 2] && two[i + 1] == ls[i + 3]);
            }
            lemma_key_without_number(two, key);
        }
    }
}

/// A line that begins with something else than a number, behind `k` spaces, holds none.
proof fn lemma_no_integer_in(line: Seq<char>, k: int)
    requires
        0 <= k && k + 1 < line.len(),
        forall|j: int| 0 <= j < k ==> line[j] == ' ',
        line[k] == '<',
        line[k + 1] != 'i',
        line.last() == '>',
    ensures
        integer_in(line) is None,
{
    let pad = line.subrange(0, k);
    let core = line.subrange(k, line.len() as int);
    reveal_strlit("<integer>");
    assert(line =~= pad + core);
    text::lemma_trim_padded(pad, core);
    if text::has_prefix(core, "<integer>"@) {
        assert(core.subrange(0, 9)[1] == core[1]);
    }
}

proof fn lemma_empty_line_has_no_integer()
    ensures
        integer_in(""@) is None,
{
    reveal_strlit("");
    reveal_strlit("<integer>");
    text::lemma_trim_brings_nothing(""@, '<');
    if text::has_prefix(text::trim(""@), "<integer>"@) {
        assert(text::trim(""@).subrange(0, 9)[0] == text::trim(""@)[0]);
        assert(text::trim(""@).contains('<'));
    }
}

proof fn lemma_string_has_no_integer(pad: Seq<char>, value: Seq<char>)
    requires
        pad == "    "@ || pad == "        "@,
    ensures
        integer_in(string_line(pad, value)) is None,
{
    reveal_strlit("    ");
    reveal_strlit("        ");
    reveal_strlit("<string>");
    reveal_strlit("</string>");
    lemma_no_integer_in(string_line(pad, value), pad.len() as int);
}

proof fn lemma_top_has_no_integers(label: Seq<char>)
    ensures
        forall|i: int| 0 <= i < plist_top(label).len() ==> integer_in(#[trigger] plist_top(label)[i]) is None,
{
    reveal_strlit("<?xml version=\"1.0\" encoding=\"UTF-8\"?>");
    reveal_strlit("<!DOCTYPE plist PUBLIC \"-//Apple//DTD PLIST 1.0//EN\" \"http://www.apple.com/DTDs/PropertyList-1.0.dtd\">");
    reveal_strlit("<plist version=\"1.0\">");
    reveal_strlit("<dict>");
    reveal_strlit("    <key>Label</key>");
    reveal_strlit("");
    reveal_strlit("    <key>ProgramArguments</key>");
    reveal_strlit("    <array>");
    let ls = plist_top(label);
    lemma_no_integer_in(ls[0], 0);
    lemma_no_integer_in(ls[1], 0);
    lemma_no_integer_in(ls[2], 0);
    lemma_no_integer_in(ls[3], 0);
    lemma_no_integer_in(ls[4], 4);
    lemma_string_has_no_integer("    "@, label);
    lemma_empty_line_has_no_integer();
    lemma_no_integer_in(ls[7], 4);
    lemma_no_integer_in(ls[8], 4);
}

proof fn lemma_middle_has_no_integers(path: Seq<char>)
    ensures
        forall|i: int| 0 <= i < plist_middle(path).len() ==> integer_in(#[trigger] plist_middle(path)[i]) is None,
{
    reveal_strlit("    </array>");
    reveal_strlit("");
    reveal_strlit("    <key>EnvironmentVariables</key>");
    reveal_strlit("    <dict>");
    reveal_strlit("        <key>PATH</key>");
    reveal_strlit("    </dict>");
    reveal_strlit("    <key>StartCalendarInterval</key>");
    let ls = plist_middle(path);
    lemma_no_integer_in(ls[0], 4);
    lemma_empty_line_has_no_integer();
    lemma_no_integer_in(ls[2], 4);
    lemma_no_integer_in(ls[3], 4);
    lemma_no_integer_in(ls[4], 8);
    lemma_string_has_no_integer("        "@, path);
    lemma_no_integer_in(ls[6], 4);
    lemma_no_integer_in(ls[8], 4);
    lemma_no_integer_in(ls[9], 4);
}

proof fn lemma_end_has_two_integers(stdout_log: Seq<char>, stderr_log: Seq<char>, hour: u8, minute: u8)
    ensures
        ({
            let ls = plist_end(stdout_log, stderr_log, hour, minute);
            forall|i: int| 0 <= i < ls.len() && i != 1 && i != 3 ==> integer_in(#[trigger] ls[i]) is None
        }),
{
    reveal_strlit("        <key>Hour</key>");
    reveal_strlit("        <key>Minute</key>");
    reveal_strlit("    </dict>");
    reveal_strlit("");
    reveal_strlit("    <key>StandardOutPath</key>");
    reveal_strlit("    <key>StandardErrorPath</key>");
    reveal_strlit("</dict>");
    reveal_strlit("</plist>");
    let ls = plist_end(stdout_log, stderr_log, hour, minute);
    lemma_no_integer_in(ls[0], 8);
    lemma_no_integer_in(ls[2], 8);
    lemma_no_integer_in(ls[4], 4);
    lemma_empty_line_has_no_integer();
    lemma_no_integer_in(ls[6], 4);
    lemma_string_has_no_integer("    "@, stdout_log);
    lemma_no_integer_in(ls[8], 4);
    lemma_string_has_no_integer("    "@, stderr_log);
    lemma_no_integer_in(ls[10], 0);
    lemma_no_integer_in(ls[11], 0);
}

proof fn lemma_tag_tells_key(a: Seq<char>, b: Seq<char>)
    requires
        key_tag(a) == key_tag(b),
    ensures
        a == b,
{
    reveal_strlit("<key>");
    reveal_strlit("</key>");
    let n = key_tag(a).len() as int;
    assert(key_tag(a).subrange(5, n - 6) =~= a);
    assert(key_tag(b).subrange(5, n - 6) =~= b);
}

/// A written plist has numbers under the keys of its time only: any other key, such as that of the
/// label, gives none, where none of the values in the plist holds a line feed.
pub proof fn lemma_plist_has_no_other_numbers(
    label: Seq<char>,
    exe: Seq<char>,
    args: Seq<Seq<char>>,
    path: Seq<char>,
    stdout_log: Seq<char>,
    stderr_log: Seq<char>,
    hour: u8,
    minute: u8,
    key: Seq<char>,
)
    requires
        stays_on_line(label),
        stays_on_line(exe),
        forall|i: int| 0 <= i < args.len() ==> stays_on_line(#[trigger] args[i]),
        stays_on_line(path),
        stays_on_line(stdout_log),
        stays_on_line(stderr_log),
        key != "Hour"@,
        key != "Minute"@,
    ensures
        ({
            let content = text::unlines(plist_lines(label, exe, args, path, stdout_log, stderr_log, hour, minute));
            integer_behind(text::lines(content), key_tag(key)) is None
        }),
{
    let top = plist_top(label);
    let all_args = seq![exe] + args;
    let arguments = argument_lines(all_args);
    let middle = plist_middle(path);
    let end = plist_end(stdout_log, stderr_log, hour, minute);
    let ls = plist_lines(label, exe, args, path, stdout_log, stderr_log, hour, minute);
    let n = (top.len() + arguments.len() + middle.len()) as int;
    lemma_plist_lines(label, exe, args, path, stdout_log, stderr_log, hour, minute);
    lemma_end_lines(stdout_log, stderr_log, hour, minute);
    lemma_top_has_no_integers(label);
    lemma_middle_has_no_integers(path);
    lemma_end_has_two_integers(stdout_log, stderr_log, hour, minute);
    assert forall|i: int| 0 <= i < ls.len() && i != n + 1 && i != n + 3 implies integer_in(#[trigger] ls[i]) is None by {
        if i < top.len() {
            assert(ls[i] == top[i]);
        } else if i < top.len() + arguments.len() {
            assert(ls[i] == arguments[i - top.len()]);
            lemma_string_has_no_integer("        "@, all_args[i - top.len()]);
        } else if i < n {
            assert(ls[i] == middle[i - top.len() - arguments.len()]);
        } else {
            assert(ls[i] == end[i - n]);
        }
    }
    assert forall|i: int| 0 <= i && i + 1 < ls.len() && text::trim(#[trigger] ls[i]) == key_tag(key) implies integer_in(
        ls[i + 1],
    ) is None by {
        if i == n {
            assert(ls[i] == end[0]);
            lemma_tag_tells_key(key, "Hour"@);
        } else if i == n + 2 {
            assert(ls[i] == end[2]);
            lemma_tag_tells_key(key, "Minute"@);
        }
    }
    text::lemma_lines_of_unlines(ls);
    lemma_key_without_number(ls, key);
}

} // verus!
