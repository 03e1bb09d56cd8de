//! The saved runtime configuration: defaults, named workspaces and schedules.
use crate::error::{Error, ErrorModel};
use crate::names;
use crate::names::Named;
use crate::paths;
use vstd::prelude::*;

verus! {

/// A directory to scan, under a name.
#[derive(Debug, Clone, PartialEq, Eq)]
pub struct WorkspaceConfig {
    pub name: String,
    pub dir: String,
    pub log_file: Option<String>,
}

/// What a [`WorkspaceConfig`] says.
#[verifier::ext_equal]
pub struct WorkspaceModel {
    pub name: Seq<char>,
    pub dir: Seq<char>,
    pub log_file: Option<Seq<char>>,
}

/// A daily run of a workspace, under a name.
#[derive(Debug, Clone, PartialEq, Eq)]
pub struct ScheduleConfig {
    pub name: String,
    pub workspace: String,
    pub hour: u8,
    pub minute: u8,
}

/// What a [`ScheduleConfig`] says.
#[verifier::ext_equal]
pub struct ScheduleModel {
    pub name: Seq<char>,
    pub workspace: Seq<char>,
    pub hour: u8,
    pub minute: u8,
}

/// The saved configuration.
#[derive(Debug, Clone)]
pub struct RuntimeConfigFile {
    pub dir: Option<String>,
    pub log_file: Option<String>,
    pub workspaces: Vec<WorkspaceConfig>,
    pub schedules: Vec<ScheduleConfig>,
}

/// What a [`RuntimeConfigFile`] says.
#[verifier::ext_equal]
pub struct ConfigModel {
    pub dir: Option<Seq<char>>,
    pub log_file: Option<Seq<char>>,
    pub workspaces: Seq<WorkspaceModel>,
    pub schedules: Seq<ScheduleModel>,
}

impl View for WorkspaceConfig {
    type V = WorkspaceModel;

    open spec fn view(&self) -> WorkspaceModel {
        WorkspaceModel { name: self.name@, dir: self.dir@, log_file: self.log_file.deep_view() }
    }
}

impl DeepView for WorkspaceConfig {
    type V = WorkspaceModel;

    open spec fn deep_view(&self) -> WorkspaceModel {
        self@
    }
}

impl View for ScheduleConfig {
    type V = ScheduleModel;

    open spec fn view(&self) -> ScheduleModel {
        ScheduleModel {
            name: self.name@,
            workspace: self.workspace@,
            hour: self.hour,
            minute: self.minute,
        }
    }
}

impl DeepView for ScheduleConfig {
    type V = ScheduleModel;

    open spec fn deep_view(&self) -> ScheduleModel {
        self@
    }
}

impl View for RuntimeConfigFile {
    type V = ConfigModel;

    open spec fn view(&self) -> ConfigModel {
        ConfigModel {
            dir: self.dir.deep_view(),
            log_file: self.log_file.deep_view(),
            workspaces: self.workspaces.deep_view(),
            schedules: self.schedules.deep_view(),
        }
    }
}

impl Named for WorkspaceConfig {
    open spec fn name_in(model: WorkspaceModel) -> Seq<char> {
        model.name
    }

    fn own_name(&self) -> (r: &str) {
        self.name.as_str()
    }
}

impl Named for ScheduleConfig {
    open spec fn name_in(model: ScheduleModel) -> Seq<char> {
        model.name
    }

    fn own_name(&self) -> (r: &str) {
        self.name.as_str()
    }
}

impl ConfigModel {
    /// Nothing is configured.
    pub open spec fn empty() -> ConfigModel {
        ConfigModel {
            dir: None,
            log_file: None,
            workspaces: Seq::empty(),
            schedules: Seq::empty(),
        }
    }

    pub open spec fn has_workspace(self, name: Seq<char>) -> bool {
        names::has_name::<WorkspaceConfig>(self.workspaces, name)
    }

    pub open spec fn has_schedule(self, name: Seq<char>) -> bool {
        names::has_name::<ScheduleConfig>(self.schedules, name)
    }

    /// `w` is the first workspace of that name.
    pub open spec fn finds(self, name: Seq<char>, w: WorkspaceModel) -> bool {
        exists|i: int|
            #[trigger] names::first_named::<WorkspaceConfig>(self.workspaces, name, i) && self.workspaces[i] == w
    }

    /// Workspaces and schedules stand in the order of their names, and no name occurs twice.
    pub open spec fn in_order(self) -> bool {
        &&& names::sorted::<WorkspaceConfig>(self.workspaces)
        &&& names::unique::<WorkspaceConfig>(self.workspaces)
        &&& names::sorted::<ScheduleConfig>(self.schedules)
        &&& names::unique::<ScheduleConfig>(self.schedules)
    }

    /// `next` is this configuration with the workspace `w` in it.
    pub open spec fn with_workspace(self, w: WorkspaceModel, next: ConfigModel) -> bool {
        &&& names::upserted::<WorkspaceConfig>(self.workspaces, w, next.workspaces)
        &&& next == (ConfigModel { workspaces: next.workspaces, ..self })
    }

    /// `next` is this configuration with the schedule `s` in it.
    pub open spec fn with_schedule(self, s: ScheduleModel, next: ConfigModel) -> bool {
        &&& names::upserted::<ScheduleConfig>(self.schedules, s, next.schedules)
        &&& next == (ConfigModel { schedules: next.schedules, ..self })
    }

    /// This configuration without the workspaces of that name.
    pub open spec fn without_workspace(self, name: Seq<char>) -> ConfigModel {
        ConfigModel {
            workspaces: names::without_name::<WorkspaceConfig>(self.workspaces, name),
            ..self
        }
    }

    /// This configuration without the schedules of that name.
    pub open spec fn without_schedule(self, name: Seq<char>) -> ConfigModel {
        ConfigModel {
            schedules: names::without_name::<ScheduleConfig>(self.schedules, name),
            ..self
        }
    }
}

impl Default for RuntimeConfigFile {
    fn default() -> (r: RuntimeConfigFile)
        ensures
            r@ == ConfigModel::empty(),
    {
        let r = RuntimeConfigFile {
            dir: None,
            log_file: None,
            workspaces: Vec::new(),
            schedules: Vec::new(),
        };
        assert(r@.workspaces =~= Seq::empty());
        assert(r@.schedules =~= Seq::empty());
        r
    }
}

impl RuntimeConfigFile {
    /// The first workspace of that name.
    pub fn find_workspace(&self, name: &str) -> (r: Option<&WorkspaceConfig>)
        ensures
            r is Some <==> self@.has_workspace(name@),
            r matches Some(w) ==> self@.finds(name@, w@),
    {
        match names::position(&self.workspaces, name) {
            Some(i) => {
                assert(names::first_named::<WorkspaceConfig>(self@.workspaces, name@, i as int));
                Some(&self.workspaces[i])
            },
            None => None,
        }
    }

    /// Saves a workspace under its name.
    pub fn upsert_workspace(&mut self, workspace: WorkspaceConfig)
        ensures
            old(self)@.with_workspace(workspace@, final(self)@),
    {
        names::upsert(&mut self.workspaces, workspace);
    }

    /// Drops the workspaces of that name and says whether there was one.
    pub fn remove_workspace(&mut self, name: &str) -> (r: bool)
        ensures
            final(self)@ == old(self)@.without_workspace(name@),
            r == old(self)@.has_workspace(name@),
    {
        names::remove_named(&mut self.workspaces, name)
    }

    /// Saves a schedule under its name.
    pub fn upsert_schedule(&mut self, schedule: ScheduleConfig)
        ensures
            old(self)@.with_schedule(schedule@, final(self)@),
    {
        names::upsert(&mut self.schedules, schedule);
    }

    /// Drops the schedules of that name and says whether there was one.
    pub fn remove_schedule(&mut self, name: &str) -> (r: bool)
        ensures
            final(self)@ == old(self)@.without_schedule(name@),
            r == old(self)@.has_schedule(name@),
    {
        names::remove_named(&mut self.schedules, name)
    }
}

/// The directory of the configuration file.
pub open spec fn config_home(config_dir: Seq<char>) -> Seq<char> {
    paths::joined(config_dir, "worktree-gc"@)
}

/// The configuration file.
pub open spec fn config_file(config_dir: Seq<char>) -> Seq<char> {
    paths::joined(config_home(config_dir), "config.json"@)
}

/// The complaint where the place of configuration files is not known.
pub open spec fn no_config_dir() -> Seq<char> {
    "Cannot determine config directory"@
}

/// The configuration file.
pub fn runtime_config_path(config_dir: Option<&str>) -> (r: Result<String, Error>)
    ensures
        match r {
            Ok(path) => config_dir is Some && path@ == config_file(config_dir->0@),
            Err(e) => config_dir is None && e@ == ErrorModel::plain(no_config_dir()),
        },
{
    match config_dir {
        Some(dir) => Ok(paths::join_path(paths::join_path(dir, "worktree-gc").as_str(), "config.json")),
        None => Err(Error::new("Cannot determine config directory".to_owned())),
    }
}

/// What was found where the configuration file may lie.
#[derive(Debug)]
pub enum SavedConfig {
    Absent,
    /// It cannot be read, for that reason.
    Unreadable(String),
    /// It is not a configuration, for that reason.
    Unparsable(String),
    Parsed(RuntimeConfigFile),
}

/// What a [`SavedConfig`] says.
pub enum SavedModel {
    Absent,
    Unreadable(Seq<char>),
    Unparsable(Seq<char>),
    Parsed(ConfigModel),
}

impl View for SavedConfig {
    type V = SavedModel;

    open spec fn view(&self) -> SavedModel {
        match self {
            SavedConfig::Absent => SavedModel::Absent,
            SavedConfig::Unreadable(cause) => SavedModel::Unreadable(cause@),
            SavedConfig::Unparsable(cause) => SavedModel::Unparsable(cause@),
            SavedConfig::Parsed(config) => SavedModel::Parsed(config@),
        }
    }
}

/// The configuration and the error of a load, as their models.
pub open spec fn config_model(r: Result<RuntimeConfigFile, Error>) -> Result<ConfigModel, ErrorModel> {
    match r {
        Ok(config) => Ok(config@),
        Err(e) => Err(e@),
    }
}

/// The configuration that applies: nothing is configured where there is no file.
pub open spec fn loaded(path: Seq<char>, found: SavedModel) -> Result<ConfigModel, ErrorModel> {
    match found {
        SavedModel::Absent => Ok(ConfigModel::empty()),
        SavedModel::Unreadable(cause) => Err(ErrorModel::caused("Cannot read "@ + path, cause)),
        SavedModel::Unparsable(cause) => Err(ErrorModel::caused("Cannot parse "@ + path, cause)),
        SavedModel::Parsed(config) => Ok(config),
    }
}

/// The configuration that applies. An error has what the system or the parser said as its cause.
pub fn load_runtime_config(path: &str, found: SavedConfig) -> (r: Result<RuntimeConfigFile, Error>)
    ensures
        config_model(r) == loaded(path@, found@),
{
    match found {
        SavedConfig::Absent => Ok(RuntimeConfigFile::default()),
        SavedConfig::Unreadable(cause) => Err(Error::caused_by(complaint("Cannot read ", path), cause)),
        SavedConfig::Unparsable(cause) => Err(Error::caused_by(complaint("Cannot parse ", path), cause)),
        SavedConfig::Parsed(config) => Ok(config),
    }
}

/// How a configuration is saved, with the error for each thing that may fail.
#[derive(Debug)]
pub enum Save {
    /// Remove the file, if it is there.
    Remove { path: String, failure: String },
    /// Make the directory and write the file.
    Write { dir: String, dir_failure: String, path: String, failure: String },
}

/// What a [`Save`] says.
pub enum SaveModel {
    Remove { path: Seq<char>, failure: Seq<char> },
    Write { dir: Seq<char>, dir_failure: Seq<char>, path: Seq<char>, failure: Seq<char> },
}

impl View for Save {
    type V = SaveModel;

    open spec fn view(&self) -> SaveModel {
        match self {
            Save::Remove { path, failure } => SaveModel::Remove { path: path@, failure: failure@ },
            Save::Write { dir, dir_failure, path, failure } => SaveModel::Write {
                dir: dir@,
                dir_failure: dir_failure@,
                path: path@,
                failure: failure@,
            },
        }
    }
}

/// A configuration in which nothing is set has no file; any other one is written.
pub open spec fn saving(config_dir: Option<Seq<char>>, config: ConfigModel) -> Result<SaveModel, ErrorModel> {
    match config_dir {
        None => Err(ErrorModel::plain(no_config_dir())),
        Some(dir) => Ok(
            if config == ConfigModel::empty() {
                SaveModel::Remove { path: config_file(dir), failure: "Cannot remove "@ + config_file(dir) }
            } else {
                SaveModel::Write {
                    dir: config_home(dir),
                    dir_failure: "Cannot create "@ + config_home(dir),
                    path: config_file(dir),
                    failure: "Cannot write "@ + config_file(dir),
                }
            },
        ),
    }
}

fn complaint(words: &str, path: &str) -> (r: String)
    ensures
        r@ == words@ + path@,
{
    let mut text = words.to_owned();
    text.append(path);
    text
}

/// How a configuration is saved.
pub fn save_runtime_config(config_dir: Option<&str>, config: &RuntimeConfigFile) -> (r: Result<Save, Error>)
    ensures
        (match r {
            Ok(save) => Ok(save@),
            Err(e) => Err(e@),
        }) == saving(config_dir.deep_view(), config@),
{
    let path = match runtime_config_path(config_dir) {
        Ok(path) => path,
        Err(e) => return Err(e),
    };
    let dir = match config_dir {
        Some(dir) => paths::join_path(dir, "worktree-gc"),
        None => return Err(Error::new("Cannot determine config directory".to_owned())),
    };
    if config.dir.is_none() && config.log_file.is_none() && config.workspaces.len() == 0 && config.schedules.len() == 0 {
        assert(config@ =~= ConfigModel::empty());
        let failure = complaint("Cannot remove ", path.as_str());
        return Ok(Save::Remove { path, failure });
    }
    proof {
        if config@ == ConfigModel::empty() {
            assert(config@.workspaces.len() == 0 && config@.schedules.len() == 0);
        }
    }
    let dir_failure = complaint("Cannot create ", dir.as_str());
    let failure = complaint("Cannot write ", path.as_str());
    Ok(Save::Write { dir, dir_failure, path, failure })
}

/// The configuration in which nothing is set is in order.
pub proof fn lemma_empty_is_in_order()
    ensures
        ConfigModel::empty().in_order(),
{
}

/// What a save that succeeded leaves where the configuration file lies: no file, or one that holds
/// the configuration.
pub open spec fn left_behind(save: SaveModel, config: ConfigModel) -> SavedModel {
    match save {
        SaveModel::Remove { .. } => SavedModel::Absent,
        SaveModel::Write { .. } => SavedModel::Parsed(config),
    }
}

/// What is saved is loaded again: the same defaults, workspaces and schedules in the same order, and
/// an empty configuration also, which has no file. The save goes to the file that the load reads.
pub proof fn lemma_saved_configuration_is_loaded(config_dir: Seq<char>, config: ConfigModel)
    ensures
        saving(Some(config_dir), config) matches Ok(save) && {
            &&& loaded(config_file(config_dir), left_behind(save, config)) == Ok::<_, ErrorModel>(config)
            &&& match save {
                SaveModel::Remove { path, .. } => path == config_file(config_dir),
                SaveModel::Write { path, .. } => path == config_file(config_dir),
            }
        },
{
}

/// A workspace that is saved is the one found under its name. All else stays: the workspaces of
/// other names, the schedules and the defaults; and the lists stay in order.
pub proof fn lemma_saved_workspace_is_found(config: ConfigModel, w: WorkspaceModel, next: ConfigModel, other: Seq<char>)
    requires
        config.with_workspace(w, next),
    ensures
        next.has_workspace(w.name),
        next.finds(w.name, w),
        next.dir == config.dir,
        next.log_file == config.log_file,
        next.schedules == config.schedules,
        other != w.name ==> names::with_name::<WorkspaceConfig>(next.workspaces, other) == names::with_name::<
            WorkspaceConfig,
        >(config.workspaces, other),
        config.in_order() ==> next.in_order(),
{
    names::lemma_upsert_then_first::<WorkspaceConfig>(config.workspaces, w, next.workspaces);
    let i = choose|i: int|
        #[trigger] names::first_named::<WorkspaceConfig>(next.workspaces, w.name, i) && next.workspaces[i] == w;
    assert(WorkspaceConfig::name_in(next.workspaces[i]) == w.name);
    if other != w.name {
        names::lemma_upsert_keeps_others::<WorkspaceConfig>(config.workspaces, w, next.workspaces, other);
    }
    if config.in_order() {
        names::lemma_upsert_keeps_order::<WorkspaceConfig>(config.workspaces, w, next.workspaces);
    }
}

/// A schedule that is saved is the first one of its name. All else stays, and the lists stay in
/// order.
pub proof fn lemma_saved_schedule_is_found(config: ConfigModel, s: ScheduleModel, next: ConfigModel, other: Seq<char>)
    requires
        config.with_schedule(s, next),
    ensures
        next.has_schedule(s.name),
        exists|i: int|
            #[trigger] names::first_named::<ScheduleConfig>(next.schedules, s.name, i) && next.schedules[i] == s,
        next.dir == config.dir,
        next.log_file == config.log_file,
        next.workspaces == config.workspaces,
        other != s.name ==> names::with_name::<ScheduleConfig>(next.schedules, other) == names::with_name::<
            ScheduleConfig,
        >(config.schedules, other),
        config.in_order() ==> next.in_order(),
{
    names::lemma_upsert_then_first::<ScheduleConfig>(config.schedules, s, next.schedules);
    let i = choose|i: int|
        #[trigger] names::first_named::<ScheduleConfig>(next.schedules, s.name, i) && next.schedules[i] == s;
    assert(ScheduleConfig::name_in(next.schedules[i]) == s.name);
    if other != s.name {
        names::lemma_upsert_keeps_others::<ScheduleConfig>(config.schedules, s, next.schedules, other);
    }
    if config.in_order() {
        names::lemma_upsert_keeps_order::<ScheduleConfig>(config.schedules, s, next.schedules);
    }
}

/// A workspace that is removed is gone. All else stays, and the lists stay in order.
pub proof fn lemma_removed_workspace_is_gone(config: ConfigModel, name: Seq<char>, other: Seq<char>)
    ensures
        ({
            let next = config.without_workspace(name);
            &&& !next.has_workspace(name)
            &&& next == (ConfigModel { workspaces: next.workspaces, ..config })
            &&& other != name ==> names::with_name::<WorkspaceConfig>(next.workspaces, other) == names::with_name::<
                WorkspaceConfig,
            >(config.workspaces, other)
            &&& config.in_order() ==> next.in_order()
        }),
{
    names::lemma_removed_name_is_absent::<WorkspaceConfig>(config.workspaces, name);
    if other != name {
        names::lemma_removal_keeps_others::<WorkspaceConfig>(config.workspaces, name, other);
    }
    if config.in_order() {
        names::lemma_removal_keeps_order::<WorkspaceConfig>(config.workspaces, name);
    }
}

/// A schedule that is removed is gone. All else stays, and the lists stay in order.
pub proof fn lemma_removed_schedule_is_gone(config: ConfigModel, name: Seq<char>, other: Seq<char>)
    ensures
        ({
            let next = config.without_schedule(name);
            &&& !next.has_schedule(name)
            &&& next == (ConfigModel { schedules: next.schedules, ..config })
            &&& other != name ==> names::with_name::<ScheduleConfig>(next.schedules, other) == names::with_name::<
                ScheduleConfig,
            >(config.schedules, other)
            &&& config.in_order() ==> next.in_order()
        }),
{
    names::lemma_removed_name_is_absent::<ScheduleConfig>(config.schedules, name);
    if other != name {
        names::lemma_removal_keeps_others::<ScheduleConfig>(config.schedules, name, other);
    }
    if config.in_order() {
        names::lemma_removal_keeps_order::<ScheduleConfig>(config.schedules, name);
    }
}

/// A name leads to one workspace only.
pub proof fn lemma_name_leads_to_one_workspace(config: ConfigModel, name: Seq<char>, v: WorkspaceModel, w: WorkspaceModel)
    requires
        config.finds(name, v),
        config.finds(name, w),
    ensures
        v == w,
{
    let i = choose|i: int|
        #[trigger] names::first_named::<WorkspaceConfig>(config.workspaces, name, i) && config.workspaces[i] == v;
    let j = choose|j: int|
        #[trigger] names::first_named::<WorkspaceConfig>(config.workspaces, name, j) && config.workspaces[j] == w;
    names::lemma_first_is_one_place::<WorkspaceConfig>(config.workspaces, name, i, j);
}

} // verus!
