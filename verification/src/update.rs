//! Updates of the program from its releases.
use crate::error::{Error, ErrorModel};
use crate::names;
use crate::text;
use vstd::prelude::*;

verus! {

/// What `self_update::version::bump_is_greater` answers for two versions: whether the second one is
/// greater, or the words of its error where one of them is no version.
pub uninterp spec fn version_bump(current: Seq<char>, latest: Seq<char>) -> Result<bool, Seq<char>>;

/// The text of a comparison of versions and of its error.
pub open spec fn comparison_model(r: Result<bool, String>) -> Result<bool, Seq<char>> {
    match r {
        Ok(newer) => Ok(newer),
        Err(e) => Err(e@),
    }
}

/// Calls `self_update::version::bump_is_greater`, which reads both texts as semantic versions and
/// tells whether the second is greater than the first; its error is handed on as text. The answer
/// depends on the two texts alone, and no version is greater than itself.
#[verifier::external_body]
fn bump_is_greater(current: &str, latest: &str) -> (r: Result<bool, String>)
    ensures
        comparison_model(r) == version_bump(current@, latest@),
        r matches Ok(newer) && newer ==> current@ != latest@,
{
    self_update::version::bump_is_greater(current, latest).map_err(|e| e.to_string())
}

/// What follows the lines that are printed.
#[derive(Debug)]
pub enum UpdateAction {
    /// Nothing.
    Stop,
    /// The latest release is installed.
    Install,
    Fail(Error),
}

/// What an [`UpdateAction`] says.
pub enum UpdateModel {
    Stop,
    Install,
    Fail(ErrorModel),
}

impl View for UpdateAction {
    type V = UpdateModel;

    open spec fn view(&self) -> UpdateModel {
        match self {
            UpdateAction::Stop => UpdateModel::Stop,
            UpdateAction::Install => UpdateModel::Install,
            UpdateAction::Fail(e) => UpdateModel::Fail(e@),
        }
    }
}

/// What is printed first.
pub open spec fn opening(current: Seq<char>) -> Seq<Seq<char>> {
    seq![
        "Current version: v"@ + current,
        "Checking for updates from github.com/yuto-ts/worktree-gc..."@,
    ]
}

/// What is printed first.
pub fn opening_lines(current: &str) -> (r: Vec<String>)
    ensures
        r.deep_view() == opening(current@),
{
    let mut lines: Vec<String> = Vec::new();
    let mut line = "Current version: v".to_owned();
    line.append(current);
    names::put(&mut lines, line);
    names::put(&mut lines, "Checking for updates from github.com/yuto-ts/worktree-gc...".to_owned());
    assert(lines.deep_view() =~= opening(current@));
    lines
}

/// The version that a release is tagged with.
pub open spec fn version_of(tag: Seq<char>) -> Seq<char> {
    text::without_leading(tag, 'v')
}

/// What is printed and done once the latest version is compared with the running one.
pub open spec fn reaction(latest: Seq<char>, comparison: Result<bool, Seq<char>>, check_only: bool) -> (
    Seq<Seq<char>>,
    UpdateModel,
) {
    let found = "Latest version:  v"@ + latest;
    match comparison {
        Err(e) => (seq![found], UpdateModel::Fail(ErrorModel::plain("Failed to compare versions: "@ + e))),
        Ok(false) => (seq![found, "Already up to date."@], UpdateModel::Stop),
        Ok(true) => if check_only {
            (seq![found, "Run `worktree-gc update` to upgrade."@], UpdateModel::Stop)
        } else {
            (seq![found, "Updating to v"@ + latest + "..."@], UpdateModel::Install)
        },
    }
}

/// What is printed and done once the latest version is compared with the running one.
pub fn react(latest: &str, comparison: Result<bool, String>, check_only: bool) -> (r: (Vec<String>, UpdateAction))
    ensures
        (r.0.deep_view(), r.1@) == reaction(latest@, comparison_model(comparison), check_only),
{
    let mut lines: Vec<String> = Vec::new();
    let mut line = "Latest version:  v".to_owned();
    line.append(latest);
    names::put(&mut lines, line);
    let ghost found = "Latest version:  v"@ + latest@;
    assert(lines.deep_view() =~= seq![found]);
    match comparison {
        Err(e) => {
            let mut words = "Failed to compare versions: ".to_owned();
            words.append(e.as_str());
            (lines, UpdateAction::Fail(Error::new(words)))
        },
        Ok(false) => {
            names::put(&mut lines, "Already up to date.".to_owned());
            assert(lines.deep_view() =~= seq![found, "Already up to date."@]);
            (lines, UpdateAction::Stop)
        },
        Ok(true) => {
            if check_only {
                names::put(&mut lines, "Run `worktree-gc update` to upgrade.".to_owned());
                assert(lines.deep_view() =~= seq![found, "Run `worktree-gc update` to upgrade."@]);
                (lines, UpdateAction::Stop)
            } else {
                let mut line = "Updating to v".to_owned();
                line.append(latest);
                line.append("...");
                names::put(&mut lines, line);
                assert(lines.deep_view() =~= seq![found, "Updating to v"@ + latest@ + "..."@]);
                (lines, UpdateAction::Install)
            }
        },
    }
}

/// What is printed and done about an update, where the newest release has that tag.
pub open spec fn update(current: Seq<char>, tag: Option<Seq<char>>, check_only: bool) -> (Seq<Seq<char>>, UpdateModel) {
    match tag {
        None => (seq!["No releases found on GitHub."@], UpdateModel::Stop),
        Some(tag) => reaction(version_of(tag), version_bump(current, version_of(tag)), check_only),
    }
}

/// What is printed and done about an update. `tag` is that of the newest release, where there is one.
pub fn run(current: &str, tag: Option<&str>, check_only: bool) -> (r: (Vec<String>, UpdateAction))
    ensures
        (r.0.deep_view(), r.1@) == update(current@, tag.deep_view(), check_only),
        check_only ==> !(r.1 is Install),
        tag is Some && version_of(tag->0@) == current@ ==> !(r.1 is Install),
{
    match tag {
        None => {
            let mut lines: Vec<String> = Vec::new();
            names::put(&mut lines, "No releases found on GitHub.".to_owned());
            assert(lines.deep_view() =~= seq!["No releases found on GitHub."@]);
            (lines, UpdateAction::Stop)
        },
        Some(tag) => {
            let latest = text::trim_leading(tag, 'v');
            react(latest, bump_is_greater(current, latest), check_only)
        },
    }
}

/// What is printed after an update.
pub open spec fn closing(tag: Seq<char>) -> Seq<char> {
    "Updated successfully to v"@ + version_of(tag) + "!"@
}

/// What is printed once an update is installed.
pub fn updated_line(tag: &str) -> (r: String)
    ensures
        r@ == closing(tag@),
{
    let mut line = "Updated successfully to v".to_owned();
    line.append(text::trim_leading(tag, 'v'));
    line.append("!");
    line
}

} // verus!
