//! What is known of the machine that a schedule is set up on.
use crate::command::{Outcome, OutcomeModel};
use crate::error::{Error, ErrorModel};
use crate::names;
use crate::names::Named;
use crate::paths;
use crate::text;
use crate::ui::{Line, SpanModel};
use vstd::prelude::*;

verus! {

/// The scheduler that the machine has.
#[derive(Debug, Clone, Copy, PartialEq, Eq, Structural)]
pub enum Platform {
    /// launchd, on macOS.
    Launchd,
    /// systemd, on Linux.
    Systemd,
    Unsupported,
}

/// The machine: its scheduler, the home directory, the running binary and the search path.
#[derive(Debug)]
pub struct Host {
    pub platform: Platform,
    pub home: Option<String>,
    /// The running binary, or the reason why it is not known.
    pub exe: Result<String, String>,
    pub search_path: String,
}

/// What a [`Host`] says.
pub struct HostModel {
    pub platform: Platform,
    pub home: Option<Seq<char>>,
    pub exe: Result<Seq<char>, Seq<char>>,
    pub search_path: Seq<char>,
}

impl View for Host {
    type V = HostModel;

    open spec fn view(&self) -> HostModel {
        HostModel {
            platform: self.platform,
            home: self.home.deep_view(),
            exe: match self.exe {
                Ok(exe) => Ok(exe@),
                Err(cause) => Err(cause@),
            },
            search_path: self.search_path@,
        }
    }
}

/// The complaint where the home directory is not known.
pub open spec fn no_home() -> Seq<char> {
    "Cannot determine home directory"@
}

/// The complaint where the running binary is not known.
pub open spec fn no_exe() -> Seq<char> {
    "Cannot determine binary path"@
}

impl Host {
    pub fn home_dir(&self) -> (r: Result<&str, Error>)
        ensures
            match r {
                Ok(home) => self@.home == Some(home@),
                Err(e) => self@.home is None && e@ == ErrorModel::plain(no_home()),
            },
    {
        match &self.home {
            Some(home) => Ok(home.as_str()),
            None => Err(Error::new("Cannot determine home directory".to_owned())),
        }
    }

    pub fn binary_path(&self) -> (r: Result<&str, Error>)
        ensures
            match r {
                Ok(exe) => self@.exe matches Ok(known) && exe@ == known,
                Err(e) => self@.exe matches Err(cause) && e@ == ErrorModel::caused(no_exe(), cause),
            },
    {
        match &self.exe {
            Ok(exe) => Ok(exe.as_str()),
            Err(cause) => Err(Error::caused_by("Cannot determine binary path".to_owned(), cause.clone())),
        }
    }
}

/// The name of the scheduler.
pub open spec fn scheduler_word(platform: Platform) -> Seq<char> {
    match platform {
        Platform::Launchd => "launchd"@,
        Platform::Systemd => "systemd"@,
        Platform::Unsupported => "unsupported"@,
    }
}

/// The name of the scheduler.
pub fn scheduler_name(platform: Platform) -> (r: &'static str)
    ensures
        r@ == scheduler_word(platform),
{
    match platform {
        Platform::Launchd => "launchd",
        Platform::Systemd => "systemd",
        Platform::Unsupported => "unsupported",
    }
}

/// Where the logs go.
pub open spec fn log_dir_of(home: Seq<char>) -> Seq<char> {
    paths::joined(home, ".local/share/worktree-gc"@)
}

/// Where the logs go.
pub fn log_dir(home: &str) -> (r: String)
    ensures
        r@ == log_dir_of(home@),
{
    paths::join_path(home, ".local/share/worktree-gc")
}

/// A time of day as `HH:MM`.
pub open spec fn clock(hour: nat, minute: nat) -> Seq<char> {
    text::two_digits(hour) + ":"@ + text::two_digits(minute)
}

/// A time of day as `HH:MM daily`.
pub open spec fn daily(hour: nat, minute: nat) -> Seq<char> {
    clock(hour, minute) + " daily"@
}

/// A time of day as `HH:MM`.
pub fn clock_text(hour: u32, minute: u32) -> (r: String)
    ensures
        r@ == clock(hour as nat, minute as nat),
{
    let mut time = text::two_digit_text(hour as u128);
    time.append(":");
    time.append(text::two_digit_text(minute as u128).as_str());
    time
}

/// A time of day as `HH:MM daily`.
pub fn daily_text(hour: u32, minute: u32) -> (r: String)
    ensures
        r@ == daily(hour as nat, minute as nat),
{
    let mut time = clock_text(hour, minute);
    time.append(" daily");
    time
}

/// What was found where a file may lie.
#[derive(Debug)]
pub enum FileState {
    Absent,
    /// It is there, but reading it failed with these words.
    Unreadable(String),
    Content(String),
}

/// What a [`FileState`] says.
pub enum FileModel {
    Absent,
    Unreadable(Seq<char>),
    Content(Seq<char>),
}

impl View for FileState {
    type V = FileModel;

    open spec fn view(&self) -> FileModel {
        match self {
            FileState::Absent => FileModel::Absent,
            FileState::Unreadable(e) => FileModel::Unreadable(e@),
            FileState::Content(text) => FileModel::Content(text@),
        }
    }
}

/// What was found about one schedule: its plist or timer file and, under systemd, the answers to
/// the two questions about the timer.
#[derive(Debug)]
pub struct UnitWatch {
    pub name: String,
    pub file: FileState,
    pub active: Outcome,
    pub timers: Outcome,
}

/// What a [`UnitWatch`] says.
pub struct UnitModel {
    pub name: Seq<char>,
    pub file: FileModel,
    pub active: OutcomeModel,
    pub timers: OutcomeModel,
}

impl View for UnitWatch {
    type V = UnitModel;

    open spec fn view(&self) -> UnitModel {
        UnitModel { name: self.name@, file: self.file@, active: self.active@, timers: self.timers@ }
    }
}

impl DeepView for UnitWatch {
    type V = UnitModel;

    open spec fn deep_view(&self) -> UnitModel {
        self@
    }
}

impl Named for UnitWatch {
    open spec fn name_in(model: UnitModel) -> Seq<char> {
        model.name
    }

    fn own_name(&self) -> (r: &str) {
        self.name.as_str()
    }
}

/// What was found about the schedule of that name, if it was looked for.
pub open spec fn watched(units: Seq<UnitModel>, name: Seq<char>) -> Option<UnitModel>
    decreases units.len(),
{
    if units.len() == 0 {
        None
    } else if units[0].name == name {
        Some(units[0])
    } else {
        watched(units.drop_first(), name)
    }
}

proof fn lemma_watched(units: Seq<UnitModel>, name: Seq<char>, n: int)
    requires
        0 <= n <= units.len(),
        forall|i: int| 0 <= i < n ==> (#[trigger] units[i]).name != name,
        n < units.len() ==> units[n].name == name,
    ensures
        watched(units, name) == (if n < units.len() { Some(units[n]) } else { None }),
    decreases n,
{
    if n > 0 {
        lemma_watched(units.drop_first(), name, n - 1);
    }
}

/// What was found about the schedule of that name, if it was looked for.
pub fn find_watch<'a>(units: &'a Vec<UnitWatch>, name: &str) -> (r: Option<&'a UnitWatch>)
    ensures
        match r {
            Some(u) => watched(units.deep_view(), name@) == Some(u@),
            None => watched(units.deep_view(), name@) is None,
        },
{
    let ghost models = units.deep_view();
    match names::position(units, name) {
        Some(i) => {
            proof {
                let front = models.subrange(0, i as int);
                assert forall|j: int| 0 <= j < i implies (#[trigger] models[j]).name != name@ by {
                    assert(UnitWatch::name_in(front[j]) == models[j].name);
                }
                lemma_watched(models, name@, i as int);
            }
            Some(&units[i])
        },
        None => {
            proof {
                assert forall|j: int| 0 <= j < models.len() implies (#[trigger] models[j]).name != name@ by {
                    assert(UnitWatch::name_in(models[j]) == models[j].name);
                }
                lemma_watched(models, name@, models.len() as int);
            }
            None
        },
    }
}

/// What was found about the schedules of a machine.
#[derive(Debug)]
pub struct SchedulerWatch {
    /// The answer of launchd to the question which jobs are loaded.
    pub listing: Outcome,
    pub units: Vec<UnitWatch>,
    /// The plist or the timer of the older, unnamed schedule is there.
    pub legacy_installed: bool,
}

/// What a [`SchedulerWatch`] says.
pub struct WatchModel {
    pub listing: OutcomeModel,
    pub units: Seq<UnitModel>,
    pub legacy_installed: bool,
}

impl View for SchedulerWatch {
    type V = WatchModel;

    open spec fn view(&self) -> WatchModel {
        WatchModel {
            listing: self.listing@,
            units: self.units.deep_view(),
            legacy_installed: self.legacy_installed,
        }
    }
}

/// Lines to print, and the error that comes after them, if there is one.
#[derive(Debug)]
pub struct Report {
    pub lines: Vec<Line>,
    pub error: Option<Error>,
}

/// What a [`Report`] says.
#[verifier::ext_equal]
pub struct ReportModel {
    pub lines: Seq<Seq<SpanModel>>,
    pub error: Option<ErrorModel>,
}

impl View for Report {
    type V = ReportModel;

    open spec fn view(&self) -> ReportModel {
        ReportModel {
            lines: self.lines.deep_view(),
            error: match self.error {
                Some(e) => Some(e@),
                None => None,
            },
        }
    }
}

impl ReportModel {
    pub open spec fn fine(lines: Seq<Seq<SpanModel>>) -> ReportModel {
        ReportModel { lines, error: None }
    }

    pub open spec fn failed(lines: Seq<Seq<SpanModel>>, error: ErrorModel) -> ReportModel {
        ReportModel { lines, error: Some(error) }
    }

    /// This report and, where it has no error, the next one behind it.
    pub open spec fn followed_by(self, next: ReportModel) -> ReportModel {
        if self.error is Some {
            self
        } else {
            ReportModel { lines: self.lines + next.lines, error: next.error }
        }
    }

    /// A report with these lines before its own.
    pub open spec fn under(self, lines: Seq<Seq<SpanModel>>) -> ReportModel {
        ReportModel { lines: lines + self.lines, error: self.error }
    }
}

} // verus!
