//! Schedules: which names are taken, when and what a written schedule runs, and what its plans do.
use crate::defaults;
use crate::launchd;
use crate::laws::texts;
use crate::platform;
use crate::schedule;
use crate::schedule_names;
use crate::systemd;
use crate::text;
use vstd::prelude::*;

verus! {

/// A small letter or a digit.
pub open spec fn letter(c: char) -> bool {
    97 <= c as int <= 122 || 48 <= c as int <= 57
}

/// A name of one to thirty-one characters: small letters, digits, and behind the first one dashes
/// and underscores.
pub open spec fn good_name(name: Seq<char>) -> bool {
    &&& 1 <= name.len() <= 31
    &&& letter(name[0])
    &&& forall|i: int| 1 <= i < name.len() ==> letter(#[trigger] name[i]) || name[i] == '-' || name[i] == '_'
}

/// Names are taken where they are good, whatever they are for, and a schedule may not be called as
/// the older one was.
pub proof fn lemma_good_names_are_taken(kind: Seq<char>, name: Seq<char>)
    ensures
        defaults::name_problem(kind, name) is None <==> good_name(name),
        schedule_names::problem(name) is None <==> good_name(name) && name != "daily"@,
{
    defaults::lemma_accepted_names(kind, name);
    defaults::lemma_accepted_names("schedule"@, name);
    if good_name(name) {
        assert(defaults::valid_name(name)) by {
            assert forall|i: int| 0 <= i < name.len() implies defaults::may_stand_in_name(#[trigger] name[i]) by {
                if i > 0 {
                    assert(letter(name[i]) || name[i] == '-' || name[i] == '_');
                }
            }
        }
    }
    if defaults::valid_name(name) {
        assert forall|i: int| 1 <= i < name.len() implies letter(#[trigger] name[i]) || name[i] == '-' || name[i]
            == '_' by {
            assert(defaults::may_stand_in_name(name[i]));
        }
    }
}

/// A refused name is refused for what is wrong with it: that it is empty, too long, begins badly or
/// holds something else; and the words say what the name is for.
pub proof fn lemma_bad_names_are_told(kind: Seq<char>, name: Seq<char>)
    ensures
        name.len() == 0 ==> defaults::name_problem(kind, name) == Some(kind + " name cannot be empty"@),
        name.len() > 31 ==> defaults::name_problem(kind, name) == Some(kind + " name must be 31 characters or fewer"@),
        0 < name.len() <= 31 && (forall|i: int| 0 <= i < name.len() ==> (#[trigger] name[i]) as int <= 127) && !letter(
            name[0],
        ) ==> defaults::name_problem(kind, name) == Some(kind + " name must start with a lowercase letter or digit"@),
        0 < name.len() <= 31 && (forall|i: int| 0 <= i < name.len() ==> (#[trigger] name[i]) as int <= 127) && letter(
            name[0],
        ) && !good_name(name) ==> defaults::name_problem(kind, name) == Some(
            kind + " name may only contain lowercase letters, digits, '-' and '_'"@,
        ),
{
    lemma_bytes(name);
    lemma_good_names_are_taken(kind, name);
}

proof fn lemma_bytes(s: Seq<char>)
    ensures
        text::utf8_len(s) >= s.len(),
        (forall|i: int| 0 <= i < s.len() ==> (#[trigger] s[i]) as int <= 127) ==> text::utf8_len(s) == s.len(),
    decreases s.len(),
{
    if s.len() > 0 {
        let rest = s.drop_last();
        lemma_bytes(rest);
        if forall|i: int| 0 <= i < s.len() ==> (#[trigger] s[i]) as int <= 127 {
            assert forall|i: int| 0 <= i < rest.len() implies (#[trigger] rest[i]) as int <= 127 by {
                assert(rest[i] == s[i]);
            }
            assert(s[s.len() - 1] as int <= 127);
        }
    }
}

/// The text tells a time of day behind `*-*-* ` and with `:00` behind it.
pub open spec fn calendar_tells(when: Seq<char>, hour: u8, minute: u8) -> bool {
    &&& when.len() == 14
    &&& when.subrange(0, 6) == "*-*-* "@
    &&& when.subrange(11, 14) == ":00"@
    &&& schedule::daily_time(when.subrange(6, 11)) == Some((hour, minute))
}

/// A timer runs at the time that was asked for: what is read off it between the date and the seconds
/// is that hour and that minute.
pub proof fn lemma_timer_runs_at_its_time(name: Seq<char>, hour: u8, minute: u8)
    requires
        good_name(name),
        name != "daily"@,
        hour < 24,
        minute < 60,
    ensures
        systemd::calendar_in(
            text::lines(text::unlines(systemd::timer_lines(systemd::timer_description(name), hour, minute))),
        ) matches Some(when) && calendar_tells(when, hour, minute),
{
    lemma_good_names_are_taken("schedule"@, name);
    systemd::lemma_schedule_timer_tells_its_time(name, hour, minute);
    lemma_calendar(hour, minute);
}

/// Schedules of different times have different timers.
pub proof fn lemma_different_times_give_different_timers(
    name: Seq<char>,
    hour: u8,
    minute: u8,
    other_hour: u8,
    other_minute: u8,
)
    requires
        good_name(name),
        name != "daily"@,
        hour < 24,
        minute < 60,
        other_hour < 24,
        other_minute < 60,
        hour != other_hour || minute != other_minute,
    ensures
        text::unlines(systemd::timer_lines(systemd::timer_description(name), hour, minute)) != text::unlines(
            systemd::timer_lines(systemd::timer_description(name), other_hour, other_minute),
        ),
{
    lemma_timer_runs_at_its_time(name, hour, minute);
    lemma_timer_runs_at_its_time(name, other_hour, other_minute);
}

/// The calendar of a timer tells its time.
pub proof fn lemma_calendar(hour: u8, minute: u8)
    requires
        hour < 24,
        minute < 60,
    ensures
        calendar_tells(systemd::calendar(hour, minute), hour, minute),
{
    let when = systemd::calendar(hour, minute);
    let t = platform::clock(hour as nat, minute as nat);
    reveal_strlit("*-*-* ");
    reveal_strlit(":00");
    texts::lemma_time_is_written_in_digits(hour as nat, minute as nat);
    texts::lemma_time_is_read_off_its_digits(t, hour, minute);
    assert(when.subrange(0, 6) =~= "*-*-* "@);
    assert(when.subrange(6, 11) =~= t);
    assert(when.subrange(11, 14) =~= ":00"@);
}

/// The line of a timer or a service that is not about its name, its time or its command is the same
/// for all of them; those that are say what was given.
pub proof fn lemma_units_say_what_was_given(
    name: Seq<char>,
    other: Seq<char>,
    hour: u8,
    minute: u8,
    command: Seq<char>,
    another: Seq<char>,
)
    ensures
        ({
            let a = systemd::timer_lines(systemd::timer_description(name), hour, minute);
            let b = systemd::timer_lines(systemd::timer_description(other), 9, 0);
            &&& a.len() == 9 && b.len() == 9
            &&& a[1] == "Description=Daily cleanup of merged git worktrees ("@ + name + ")"@
            &&& forall|i: int| 0 <= i < 9 && i != 1 && i != 4 ==> #[trigger] a[i] == b[i]
        }),
        ({
            let a = systemd::service_lines(systemd::service_description(name), command);
            let b = systemd::service_lines(systemd::service_description(other), another);
            &&& a.len() == 9 && b.len() == 9
            &&& a[1] == "Description=Clean up merged git worktrees ("@ + name + ")"@
            &&& a[5] == "ExecStart="@ + command
            &&& forall|i: int| 0 <= i < 9 && i != 1 && i != 5 ==> #[trigger] a[i] == b[i]
        }),
{
    reveal_strlit("Description=Daily cleanup of merged git worktrees (");
    reveal_strlit("Description=");
    reveal_strlit("Daily cleanup of merged git worktrees (");
    reveal_strlit("Description=Clean up merged git worktrees (");
    reveal_strlit("Clean up merged git worktrees (");
    assert("Description=Daily cleanup of merged git worktrees ("@ + name + ")"@ =~= "Description="@
        + systemd::timer_description(name));
    assert("Description=Clean up merged git worktrees ("@ + name + ")"@ =~= "Description="@
        + systemd::service_description(name));
}

/// A character that needs no quotes in a unit file.
pub open spec fn bare(c: char) -> bool {
    ||| 97 <= c as int <= 122
    ||| 65 <= c as int <= 90
    ||| 48 <= c as int <= 57
    ||| c == '-' || c == '_' || c == '.' || c == '/' || c == ':' || c == '='
}

/// What stands between quotes is read with each backslash taken off and the character behind it as
/// it is.
pub open spec fn unescaped(s: Seq<char>) -> Seq<char>
    decreases s.len(),
{
    if s.len() == 0 {
        Seq::empty()
    } else if s[0] == '\\' && s.len() > 1 {
        seq![s[1]] + unescaped(s.subrange(2, s.len() as int))
    } else {
        seq![s[0]] + unescaped(s.drop_first())
    }
}

/// An argument of bare characters stands as it is; any other one stands between quotes, and what is
/// read between them is the argument.
pub proof fn lemma_quoted_argument_is_read(arg: Seq<char>)
    ensures
        (forall|i: int| 0 <= i < arg.len() ==> bare(#[trigger] arg[i])) ==> systemd::quoted(arg) == arg,
        (exists|i: int| 0 <= i < arg.len() && !bare(#[trigger] arg[i])) ==> {
            let q = systemd::quoted(arg);
            &&& q.len() >= 2 && q[0] == '\'' && q.last() == '\''
            &&& unescaped(q.subrange(1, q.len() - 1)) == arg
        },
{
    reveal_strlit("'");
    if forall|i: int| 0 <= i < arg.len() ==> bare(#[trigger] arg[i]) {
        assert forall|i: int| 0 <= i < arg.len() implies systemd::is_safe(#[trigger] arg[i]) by {
            assert(bare(arg[i]));
        }
    }
    if exists|i: int| 0 <= i < arg.len() && !bare(#[trigger] arg[i]) {
        let i = choose|i: int| 0 <= i < arg.len() && !bare(#[trigger] arg[i]);
        assert(!systemd::is_safe(arg[i]));
        let q = systemd::quoted(arg);
        assert(q.subrange(1, q.len() - 1) =~= systemd::escaped(arg));
        lemma_unescaped(arg, Seq::empty());
        assert(systemd::escaped(arg) + Seq::<char>::empty() =~= systemd::escaped(arg));
        assert(arg + Seq::<char>::empty() =~= arg);
    }
}

proof fn lemma_unescaped(s: Seq<char>, rest: Seq<char>)
    ensures
        unescaped(systemd::escaped(s) + rest) == s + unescaped(rest),
    decreases s.len(),
{
    if s.len() == 0 {
        assert(systemd::escaped(s) + rest =~= rest);
        assert(s + unescaped(rest) =~= unescaped(rest));
    } else {
        let c = s.last();
        let more = systemd::escape(c) + rest;
        lemma_unescaped(s.drop_last(), more);
        assert(systemd::escaped(s) + rest =~= systemd::escaped(s.drop_last()) + more);
        if c == '\\' || c == '\'' {
            assert(more[0] == '\\' && more[1] == c);
            assert(more.subrange(2, more.len() as int) =~= rest);
        } else {
            assert(more[0] == c);
            assert(more.drop_first() =~= rest);
        }
        assert(unescaped(more) =~= seq![c] + unescaped(rest));
        assert(s + unescaped(rest) =~= s.drop_last() + (seq![c] + unescaped(rest)));
    }
}

/// A home directory as a machine has it.
pub open spec fn is_home(home: Seq<char>) -> bool {
    home.len() > 0 && home.last() != '/'
}

/// The file of a schedule under launchd.
pub open spec fn plist_file(home: Seq<char>, name: Seq<char>) -> Seq<char> {
    home + "/Library/LaunchAgents/com.worktree-gc."@ + name + ".plist"@
}

/// The service of a schedule under systemd.
pub open spec fn service_file(home: Seq<char>, name: Seq<char>) -> Seq<char> {
    home + "/.config/systemd/user/worktree-gc-"@ + name + ".service"@
}

/// The timer of a schedule under systemd.
pub open spec fn timer_file(home: Seq<char>, name: Seq<char>) -> Seq<char> {
    home + "/.config/systemd/user/worktree-gc-"@ + name + ".timer"@
}

/// Where the files of a schedule, those of the older schedule and the logs lie.
pub proof fn lemma_files_lie_in_the_home_directory(home: Seq<char>, name: Seq<char>)
    requires
        is_home(home),
        name.len() == 0 || name[0] != '/',
    ensures
        launchd::plist_of(home, launchd::label_for(name)) == plist_file(home, name),
        launchd::plist_of(home, launchd::legacy_label()) == plist_file(home, "daily"@),
        systemd::service_of(home, systemd::stem_for(name)) == service_file(home, name),
        systemd::timer_of(home, systemd::stem_for(name)) == timer_file(home, name),
        systemd::service_of(home, systemd::legacy_stem()) == home + "/.config/systemd/user/worktree-gc.service"@,
        systemd::timer_of(home, systemd::legacy_stem()) == home + "/.config/systemd/user/worktree-gc.timer"@,
        launchd::agents_dir(home) == home + "/Library/LaunchAgents"@,
        systemd::units_dir(home) == home + "/.config/systemd/user"@,
        platform::log_dir_of(home) == home + "/.local/share/worktree-gc"@,
        launchd::output_log(home, name, "-launchd-stdout.log"@) == home + "/.local/share/worktree-gc/"@ + name
            + "-launchd-stdout.log"@,
        launchd::output_log(home, name, "-launchd-stderr.log"@) == home + "/.local/share/worktree-gc/"@ + name
            + "-launchd-stderr.log"@,
        defaults::default_log(Some(home)) == home + "/.local/share/worktree-gc/gc.jsonl"@,
{
    lemma_launchd_files(home, name);
    lemma_systemd_files(home, name);
    lemma_log_files(home, name);
}

#[verifier::rlimit(40)]
proof fn lemma_launchd_files(home: Seq<char>, name: Seq<char>)
    requires
        is_home(home),
    ensures
        launchd::plist_of(home, launchd::label_for(name)) == plist_file(home, name),
        launchd::plist_of(home, launchd::legacy_label()) == plist_file(home, "daily"@),
        launchd::agents_dir(home) == home + "/Library/LaunchAgents"@,
{
    reveal_strlit("/");
    reveal_strlit("Library/LaunchAgents");
    reveal_strlit("/Library/LaunchAgents");
    reveal_strlit("/Library/LaunchAgents/com.worktree-gc.");
    reveal_strlit("com.worktree-gc.");
    reveal_strlit("com.worktree-gc.daily");
    reveal_strlit("daily");
    reveal_strlit(".plist");
    let dir = launchd::agents_dir(home);
    assert(dir =~= home + "/Library/LaunchAgents"@);
    assert(dir.last() == 's');
    let file = launchd::label_for(name) + ".plist"@;
    assert(file[0] == 'c');
    assert(launchd::plist_of(home, launchd::label_for(name)) =~= plist_file(home, name));
    let older = launchd::legacy_label() + ".plist"@;
    assert(older[0] == 'c');
    assert(launchd::plist_of(home, launchd::legacy_label()) =~= plist_file(home, "daily"@));
}

#[verifier::rlimit(40)]
proof fn lemma_systemd_files(home: Seq<char>, name: Seq<char>)
    requires
        is_home(home),
    ensures
        systemd::service_of(home, systemd::stem_for(name)) == service_file(home, name),
        systemd::timer_of(home, systemd::stem_for(name)) == timer_file(home, name),
        systemd::service_of(home, systemd::legacy_stem()) == home + "/.config/systemd/user/worktree-gc.service"@,
        systemd::timer_of(home, systemd::legacy_stem()) == home + "/.config/systemd/user/worktree-gc.timer"@,
        systemd::units_dir(home) == home + "/.config/systemd/user"@,
{
    reveal_strlit("/");
    reveal_strlit(".config/systemd/user");
    reveal_strlit("/.config/systemd/user");
    reveal_strlit("/.config/systemd/user/worktree-gc-");
    reveal_strlit("/.config/systemd/user/worktree-gc.service");
    reveal_strlit("/.config/systemd/user/worktree-gc.timer");
    reveal_strlit("worktree-gc-");
    reveal_strlit("worktree-gc");
    reveal_strlit(".service");
    reveal_strlit(".timer");
    let dir = systemd::units_dir(home);
    assert(dir =~= home + "/.config/systemd/user"@);
    assert(dir.last() == 'r');
    assert((systemd::stem_for(name) + ".service"@)[0] == 'w');
    assert((systemd::stem_for(name) + ".timer"@)[0] == 'w');
    assert((systemd::legacy_stem() + ".service"@)[0] == 'w');
    assert((systemd::legacy_stem() + ".timer"@)[0] == 'w');
    assert(systemd::service_of(home, systemd::stem_for(name)) =~= service_file(home, name));
    assert(systemd::timer_of(home, systemd::stem_for(name)) =~= timer_file(home, name));
    assert(systemd::service_of(home, systemd::legacy_stem()) =~= home + "/.config/systemd/user/worktree-gc.service"@);
    assert(systemd::timer_of(home, systemd::legacy_stem()) =~= home + "/.config/systemd/user/worktree-gc.timer"@);
}

#[verifier::rlimit(40)]
proof fn lemma_log_files(home: Seq<char>, name: Seq<char>)
    requires
        is_home(home),
        name.len() == 0 || name[0] != '/',
    ensures
        platform::log_dir_of(home) == home + "/.local/share/worktree-gc"@,
        launchd::output_log(home, name, "-launchd-stdout.log"@) == home
            + "/.local/share/worktree-gc/"@ + name + "-launchd-stdout.log"@,
        launchd::output_log(home, name, "-launchd-stderr.log"@) == home
            + "/.local/share/worktree-gc/"@ + name + "-launchd-stderr.log"@,
        defaults::default_log(Some(home)) == home + "/.local/share/worktree-gc/gc.jsonl"@,
{
    reveal_strlit("/");
    reveal_strlit(".local/share/worktree-gc");
    reveal_strlit("/.local/share/worktree-gc");
    reveal_strlit("/.local/share/worktree-gc/");
    reveal_strlit("/.local/share/worktree-gc/gc.jsonl");
    reveal_strlit(".local/share/worktree-gc/gc.jsonl");
    reveal_strlit("-launchd-stdout.log");
    reveal_strlit("-launchd-stderr.log");
    let dir = platform::log_dir_of(home);
    assert(dir =~= home + "/.local/share/worktree-gc"@);
    assert(dir.last() == 'c');
    assert((name + "-launchd-stdout.log"@)[0] != '/');
    assert((name + "-launchd-stderr.log"@)[0] != '/');
    assert(launchd::output_log(home, name, "-launchd-stdout.log"@) =~= home + "/.local/share/worktree-gc/"@ + name
        + "-launchd-stdout.log"@);
    assert(launchd::output_log(home, name, "-launchd-stderr.log"@) =~= home + "/.local/share/worktree-gc/"@ + name
        + "-launchd-stderr.log"@);
    assert(defaults::default_log(Some(home)) =~= home + "/.local/share/worktree-gc/gc.jsonl"@);
}

} // verus!
