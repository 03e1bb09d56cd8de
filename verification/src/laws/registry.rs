//! Workspaces and schedules: what the lists hold after a change, which names are offered, and what
//! may not be removed.
use crate::cli::CliModel;
use crate::config::{ConfigModel, ScheduleConfig, ScheduleModel, WorkspaceConfig, WorkspaceModel};
use crate::error::ErrorModel;
use crate::laws::schedules;
use crate::laws::texts;
use crate::names;
use crate::schedule;
use crate::schedule_names;
use crate::text;
use crate::ui;
use crate::ui::{MenuAction, SpanModel, Style};
use crate::workspace;
use vstd::prelude::*;

verus! {

/// No name stands twice, and they stand in the order of their characters.
pub open spec fn names_in_order(list: Seq<Seq<char>>) -> bool {
    forall|i: int, j: int| 0 <= i < j < list.len() ==> text::precedes(#[trigger] list[i], #[trigger] list[j])
}

/// The names of the workspaces.
pub open spec fn names_of_workspaces(config: ConfigModel) -> Seq<Seq<char>> {
    Seq::new(config.workspaces.len(), |i: int| config.workspaces[i].name)
}

/// The names of the schedules.
pub open spec fn names_of_schedules(config: ConfigModel) -> Seq<Seq<char>> {
    Seq::new(config.schedules.len(), |i: int| config.schedules[i].name)
}

/// A configuration is in order where its names are.
pub proof fn lemma_names_are_in_order(config: ConfigModel)
    ensures
        config.in_order() <==> names_in_order(names_of_workspaces(config)) && names_in_order(names_of_schedules(config)),
{
    lemma_workspaces_in_order(config);
    lemma_schedules_in_order(config);
}

proof fn lemma_workspaces_in_order(config: ConfigModel)
    ensures
        names::sorted::<WorkspaceConfig>(config.workspaces) && names::unique::<WorkspaceConfig>(config.workspaces)
            <==> names_in_order(names_of_workspaces(config)),
{
    let all = names_of_workspaces(config);
    let list = config.workspaces;
    if names::sorted::<WorkspaceConfig>(list) && names::unique::<WorkspaceConfig>(list) {
        assert forall|i: int, j: int| 0 <= i < j < all.len() implies text::precedes(
            #[trigger] all[i],
            #[trigger] all[j],
        ) by {
            assert(!text::precedes(list[j].name, list[i].name));
            assert(list[i].name != list[j].name);
            if !text::precedes(list[i].name, list[j].name) {
                text::lemma_precedes_total(list[i].name, list[j].name);
            }
        }
    }
    if names_in_order(all) {
        assert forall|i: int, j: int| 0 <= i < j < list.len() implies !text::precedes(
            (#[trigger] list[j]).name,
            (#[trigger] list[i]).name,
        ) && list[i].name != list[j].name by {
            assert(text::precedes(all[i], all[j]));
            if text::precedes(all[j], all[i]) {
                text::lemma_precedes_transitive(all[i], all[j], all[i]);
            }
            text::lemma_precedes_irreflexive(all[i]);
        }
    }
}

proof fn lemma_schedules_in_order(config: ConfigModel)
    ensures
        names::sorted::<ScheduleConfig>(config.schedules) && names::unique::<ScheduleConfig>(config.schedules)
            <==> names_in_order(names_of_schedules(config)),
{
    let all = names_of_schedules(config);
    let list = config.schedules;
    if names::sorted::<ScheduleConfig>(list) && names::unique::<ScheduleConfig>(list) {
        assert forall|i: int, j: int| 0 <= i < j < all.len() implies text::precedes(
            #[trigger] all[i],
            #[trigger] all[j],
        ) by {
            assert(!text::precedes(list[j].name, list[i].name));
            assert(list[i].name != list[j].name);
            if !text::precedes(list[i].name, list[j].name) {
                text::lemma_precedes_total(list[i].name, list[j].name);
            }
        }
    }
    if names_in_order(all) {
        assert forall|i: int, j: int| 0 <= i < j < list.len() implies !text::precedes(
            (#[trigger] list[j]).name,
            (#[trigger] list[i]).name,
        ) && list[i].name != list[j].name by {
            assert(text::precedes(all[i], all[j]));
            if text::precedes(all[j], all[i]) {
                text::lemma_precedes_transitive(all[i], all[j], all[i]);
            }
            text::lemma_precedes_irreflexive(all[i]);
        }
    }
}

proof fn lemma_upserted<T: names::Named>(a: Seq<T::V>, item: T::V, b: Seq<T::V>, x: T::V)
    requires
        names::upserted::<T>(a, item, b),
        names::unique::<T>(a),
    ensures
        b.contains(x) <==> x == item || a.contains(x) && T::name_in(x) != T::name_in(item),
{
    let name = T::name_in(item);
    if names::has_name::<T>(a, name) {
        let i = choose|i: int| #[trigger] names::first_named::<T>(a, name, i) && b == a.update(i, item);
        if b.contains(x) {
            let k = b.index_of(x);
            if k != i {
                assert(a[k] == x);
                if k < i {
                    assert(T::name_in(a[k]) != T::name_in(a[i]));
                } else {
                    assert(T::name_in(a[i]) != T::name_in(a[k]));
                }
            }
        }
        if x == item {
            assert(b[i] == x);
        }
        if a.contains(x) && T::name_in(x) != name {
            let k = a.index_of(x);
            assert(b[k] == x);
        }
    } else {
        names::lemma_sorted_from_contains::<T>(a.push(item), b, x);
        if a.push(item).contains(x) && x != item {
            let k = a.push(item).index_of(x);
            assert(a[k] == x);
        }
        if x == item {
            assert(a.push(item)[a.len() as int] == x);
        }
        if a.contains(x) {
            let k = a.index_of(x);
            assert(a.push(item)[k] == x);
            assert(T::name_in(a[k]) != name);
        }
    }
}

/// A saved workspace is there, in place of the one of its name; all others stay as they are and no
/// other one comes; and the names stay in order.
pub proof fn lemma_saved_workspace_joins_the_others(
    config: ConfigModel,
    w: WorkspaceModel,
    next: ConfigModel,
    x: WorkspaceModel,
)
    requires
        names_in_order(names_of_workspaces(config)),
        config.with_workspace(w, next),
    ensures
        next.workspaces.contains(x) <==> x == w || config.workspaces.contains(x) && x.name != w.name,
        names_in_order(names_of_workspaces(next)),
        next.dir == config.dir,
        next.log_file == config.log_file,
        next.schedules == config.schedules,
{
    lemma_workspaces_in_order(config);
    lemma_upserted::<WorkspaceConfig>(config.workspaces, w, next.workspaces, x);
    names::lemma_upsert_keeps_order::<WorkspaceConfig>(config.workspaces, w, next.workspaces);
    lemma_workspaces_in_order(next);
}

/// A saved schedule is there, in place of the one of its name; all others stay as they are and no
/// other one comes; and the names stay in order.
pub proof fn lemma_saved_schedule_joins_the_others(
    config: ConfigModel,
    s: ScheduleModel,
    next: ConfigModel,
    x: ScheduleModel,
)
    requires
        names_in_order(names_of_schedules(config)),
        config.with_schedule(s, next),
    ensures
        next.schedules.contains(x) <==> x == s || config.schedules.contains(x) && x.name != s.name,
        names_in_order(names_of_schedules(next)),
        next.dir == config.dir,
        next.log_file == config.log_file,
        next.workspaces == config.workspaces,
{
    lemma_schedules_in_order(config);
    lemma_upserted::<ScheduleConfig>(config.schedules, s, next.schedules, x);
    names::lemma_upsert_keeps_order::<ScheduleConfig>(config.schedules, s, next.schedules);
    lemma_schedules_in_order(next);
}

proof fn lemma_filtered<A>(list: Seq<A>, p: spec_fn(A) -> bool, x: A)
    ensures
        list.filter(p).contains(x) <==> list.contains(x) && p(x),
{
    if list.filter(p).contains(x) {
        names::lemma_filter_from(list, p, x);
    }
    if list.contains(x) && p(x) {
        let i = list.index_of(x);
        assert(list[i] == x);
        broadcast use vstd::seq_lib::group_filter_ensures;

        assert(list.filter(p).contains(list[i]));
    }
}

/// Where a workspace or a schedule is removed, those of that name go and all others stay, and
/// nothing else changes.
pub proof fn lemma_removed_names_go(config: ConfigModel, name: Seq<char>, w: WorkspaceModel, s: ScheduleModel)
    ensures
        ({
            let next = config.without_workspace(name);
            &&& next.workspaces.contains(w) <==> config.workspaces.contains(w) && w.name != name
            &&& next.dir == config.dir && next.log_file == config.log_file && next.schedules == config.schedules
        }),
        ({
            let next = config.without_schedule(name);
            &&& next.schedules.contains(s) <==> config.schedules.contains(s) && s.name != name
            &&& next.dir == config.dir && next.log_file == config.log_file && next.workspaces == config.workspaces
        }),
{
    lemma_filtered(config.workspaces, names::is_not_named::<WorkspaceConfig>(name), w);
    lemma_filtered(config.schedules, names::is_not_named::<ScheduleConfig>(name), s);
}

/// A workspace is found by its name where one of that name is there, and the first one is found.
pub proof fn lemma_first_workspace_of_the_name_is_found(config: ConfigModel, name: Seq<char>, w: WorkspaceModel)
    ensures
        config.has_workspace(name) <==> names_of_workspaces(config).contains(name),
        config.has_schedule(name) <==> names_of_schedules(config).contains(name),
        config.finds(name, w) <==> exists|i: int|
            {
                &&& 0 <= i < config.workspaces.len() && #[trigger] config.workspaces[i] == w && w.name == name
                &&& forall|j: int| 0 <= j < i ==> (#[trigger] config.workspaces[j]).name != name
            },
{
    let list = config.workspaces;
    if config.has_workspace(name) {
        let i = choose|i: int| 0 <= i < list.len() && (#[trigger] list[i]).name == name;
        assert(names_of_workspaces(config)[i] == name);
    }
    if names_of_workspaces(config).contains(name) {
        let i = names_of_workspaces(config).index_of(name);
        assert(list[i].name == name);
    }
    if config.has_schedule(name) {
        let i = choose|i: int|
            0 <= i < config.schedules.len() && (#[trigger] config.schedules[i]).name == name;
        assert(names_of_schedules(config)[i] == name);
    }
    if names_of_schedules(config).contains(name) {
        let i = names_of_schedules(config).index_of(name);
        assert(config.schedules[i].name == name);
    }
    if config.finds(name, w) {
        let i = choose|i: int| #[trigger] names::first_named::<WorkspaceConfig>(list, name, i) && list[i] == w;
        assert forall|j: int| 0 <= j < i implies (#[trigger] list[j]).name != name by {
            assert(list.subrange(0, i)[j] == list[j]);
        }
        assert(list[i] == w);
    }
    if exists|i: int|
        {
            &&& 0 <= i < list.len() && #[trigger] list[i] == w && w.name == name
            &&& forall|j: int| 0 <= j < i ==> (#[trigger] list[j]).name != name
        } {
        let i = choose|i: int|
            {
                &&& 0 <= i < list.len() && #[trigger] list[i] == w && w.name == name
                &&& forall|j: int| 0 <= j < i ==> (#[trigger] list[j]).name != name
            };
        assert(names::first_named::<WorkspaceConfig>(list, name, i));
    }
}

/// The name that is offered for a new workspace or schedule is `default` where that is free, and
/// otherwise the first free one of those that are numbered from two on.
pub proof fn lemma_first_free_name_is_offered(config: ConfigModel, name: Seq<char>)
    ensures
        workspace::new_name(config, name) ==> !names_of_workspaces(config).contains(name),
        !names_of_workspaces(config).contains("default"@) ==> (workspace::new_name(config, name) <==> name == "default"@),
        names_of_workspaces(config).contains("default"@) && !names_of_workspaces(config).contains("workspace-2"@) ==> (
        workspace::new_name(config, name) <==> name == "workspace-2"@),
        names_of_workspaces(config).contains("default"@) && workspace::new_name(config, name) ==> exists|k: nat|
            {
                &&& k >= 2 && name == #[trigger] ("workspace-"@ + text::decimal(k))
                &&& forall|m: nat|
                    2 <= m < k ==> names_of_workspaces(config).contains(#[trigger] ("workspace-"@ + text::decimal(m)))
            },
        schedule::new_name(config, name) ==> !names_of_schedules(config).contains(name),
        !names_of_schedules(config).contains("default"@) ==> (schedule::new_name(config, name) <==> name == "default"@),
        names_of_schedules(config).contains("default"@) && !names_of_schedules(config).contains("schedule-2"@) ==> (
        schedule::new_name(config, name) <==> name == "schedule-2"@),
        names_of_schedules(config).contains("default"@) && schedule::new_name(config, name) ==> exists|k: nat|
            {
                &&& k >= 2 && name == #[trigger] ("schedule-"@ + text::decimal(k))
                &&& forall|m: nat|
                    2 <= m < k ==> names_of_schedules(config).contains(#[trigger] ("schedule-"@ + text::decimal(m)))
            },
{
    let any = WorkspaceModel { name, dir: name, log_file: None };
    lemma_first_workspace_of_the_name_is_found(config, name, any);
    lemma_first_workspace_of_the_name_is_found(config, "default"@, any);
    lemma_first_workspace_of_the_name_is_found(config, "workspace-2"@, any);
    lemma_first_workspace_of_the_name_is_found(config, "schedule-2"@, any);
    lemma_second_names();
    assert(names::numbered("workspace-"@, 2) == "workspace-2"@);
    assert(names::numbered("schedule-"@, 2) == "schedule-2"@);
    if names_of_workspaces(config).contains("default"@) && !names_of_workspaces(config).contains("workspace-2"@) {
        assert(names::first_free::<WorkspaceConfig>(config.workspaces, "workspace-"@, 2));
    }
    if names_of_schedules(config).contains("default"@) && !names_of_schedules(config).contains("schedule-2"@) {
        assert(names::first_free::<ScheduleConfig>(config.schedules, "schedule-"@, 2));
    }
    if names_of_workspaces(config).contains("default"@) && workspace::new_name(config, name) {
        let k = choose|k: nat|
            name == names::numbered("workspace-"@, k) && #[trigger] names::first_free::<WorkspaceConfig>(
                config.workspaces,
                "workspace-"@,
                k,
            );
        assert forall|m: nat| 2 <= m < k implies names_of_workspaces(config).contains(
            #[trigger] ("workspace-"@ + text::decimal(m)),
        ) by {
            assert(names::has_name::<WorkspaceConfig>(config.workspaces, names::numbered("workspace-"@, m)));
            lemma_first_workspace_of_the_name_is_found(config, names::numbered("workspace-"@, m), any);
        }
        assert(name == "workspace-"@ + text::decimal(k));
    }
    if names_of_schedules(config).contains("default"@) && schedule::new_name(config, name) {
        let k = choose|k: nat|
            name == names::numbered("schedule-"@, k) && #[trigger] names::first_free::<ScheduleConfig>(
                config.schedules,
                "schedule-"@,
                k,
            );
        assert forall|m: nat| 2 <= m < k implies names_of_schedules(config).contains(
            #[trigger] ("schedule-"@ + text::decimal(m)),
        ) by {
            assert(names::has_name::<ScheduleConfig>(config.schedules, names::numbered("schedule-"@, m)));
            lemma_first_workspace_of_the_name_is_found(config, names::numbered("schedule-"@, m), any);
        }
        assert(name == "schedule-"@ + text::decimal(k));
    }
}

proof fn lemma_second_names()
    ensures
        "workspace-"@ + text::decimal(2) == "workspace-2"@,
        "schedule-"@ + text::decimal(2) == "schedule-2"@,
{
    reveal_strlit("workspace-");
    reveal_strlit("workspace-2");
    reveal_strlit("schedule-");
    reveal_strlit("schedule-2");
    assert(text::decimal(2) =~= seq!['2']);
    assert("workspace-"@ + text::decimal(2) =~= "workspace-2"@);
    assert("schedule-"@ + text::decimal(2) =~= "schedule-2"@);
}

/// The schedules that use a workspace are those of that workspace, in their order.
pub proof fn lemma_users_are_the_schedules_of_the_workspace(
    a: Seq<ScheduleModel>,
    b: Seq<ScheduleModel>,
    s: ScheduleModel,
    workspace: Seq<char>,
)
    ensures
        workspace::users(Seq::empty(), workspace) == Seq::<Seq<char>>::empty(),
        s.workspace == workspace ==> workspace::users(seq![s], workspace) == seq![s.name],
        s.workspace != workspace ==> workspace::users(seq![s], workspace) == Seq::<Seq<char>>::empty(),
        workspace::users(a + b, workspace) == workspace::users(a, workspace) + workspace::users(b, workspace),
    decreases b.len(),
{
    reveal_with_fuel(workspace::users, 2);
    assert(seq![s].drop_last() =~= Seq::<ScheduleModel>::empty());
    if s.workspace == workspace {
        assert(workspace::users(seq![s], workspace) =~= seq![s.name]);
    }
    if b.len() == 0 {
        assert(a + b =~= a);
        assert(workspace::users(a, workspace) + workspace::users(b, workspace) =~= workspace::users(a, workspace));
    } else {
        lemma_users_are_the_schedules_of_the_workspace(a, b.drop_last(), s, workspace);
        assert((a + b).drop_last() =~= a + b.drop_last());
        assert((a + b).last() == b.last());
        assert(workspace::users(a + b, workspace) =~= workspace::users(a, workspace) + workspace::users(b, workspace));
    }
}

proof fn lemma_no_users(schedules: Seq<ScheduleModel>, workspace: Seq<char>)
    ensures
        workspace::users(schedules, workspace).len() == 0 <==> forall|i: int|
            0 <= i < schedules.len() ==> (#[trigger] schedules[i]).workspace != workspace,
    decreases schedules.len(),
{
    if schedules.len() > 0 {
        let rest = schedules.drop_last();
        lemma_no_users(rest, workspace);
        if forall|i: int| 0 <= i < schedules.len() ==> (#[trigger] schedules[i]).workspace != workspace {
            assert forall|i: int| 0 <= i < rest.len() implies (#[trigger] rest[i]).workspace != workspace by {
                assert(rest[i] == schedules[i]);
            }
            assert(schedules[schedules.len() - 1].workspace != workspace);
        }
        if workspace::users(schedules, workspace).len() == 0 {
            assert forall|i: int| 0 <= i < schedules.len() implies (#[trigger] schedules[i]).workspace != workspace by {
                if i < rest.len() {
                    assert(rest[i] == schedules[i]);
                }
            }
        }
    }
}

/// A workspace can be removed where its name is good, it is there and no schedule uses it; where one
/// does, the words name those that do, and where it is not there they say so.
pub proof fn lemma_unused_workspaces_can_be_removed(config: ConfigModel, name: Seq<char>)
    ensures
        workspace::removal_complaint(config, name) is None <==> {
            &&& schedules::good_name(name)
            &&& names_of_workspaces(config).contains(name)
            &&& forall|i: int| 0 <= i < config.schedules.len() ==> (#[trigger] config.schedules[i]).workspace != name
        },
        schedules::good_name(name) && (exists|i: int|
            0 <= i < config.schedules.len() && (#[trigger] config.schedules[i]).workspace == name)
            ==> workspace::removal_complaint(config, name) == Some(
            "Workspace '"@ + name + "' is used by schedule(s): "@ + text::join(
                workspace::users(config.schedules, name),
                ", "@,
            ) + ". Remove those schedules first."@,
        ),
        schedules::good_name(name) && (forall|i: int|
            0 <= i < config.schedules.len() ==> (#[trigger] config.schedules[i]).workspace != name)
            && !names_of_workspaces(config).contains(name) ==> workspace::removal_complaint(config, name) == Some(
            "Workspace not found: "@ + name,
        ),
{
    schedules::lemma_good_names_are_taken("workspace"@, name);
    lemma_no_users(config.schedules, name);
    lemma_first_workspace_of_the_name_is_found(config, name, WorkspaceModel { name, dir: name, log_file: None });
}

/// A new workspace needs a good name and a directory that is there.
pub proof fn lemma_new_workspaces_have_their_directory(name: Seq<char>, dir: Seq<char>, dir_exists: bool)
    ensures
        workspace::new_workspace_complaint(name, dir, dir_exists) is None <==> schedules::good_name(name) && dir_exists,
        schedules::good_name(name) && !dir_exists ==> workspace::new_workspace_complaint(name, dir, dir_exists) == Some(
            "Workspace directory does not exist: "@ + dir,
        ),
{
    schedules::lemma_good_names_are_taken("workspace"@, name);
}

/// A cleanup in a workspace goes over its directory and writes its log, or the general one where it
/// has none; and that log is the one that is shown.
pub proof fn lemma_workspace_brings_its_directory_and_log(
    settings: CliModel,
    config: ConfigModel,
    w: WorkspaceModel,
    built_in: Seq<char>,
)
    ensures
        ({
            let next = workspace::in_workspace(settings, config, w);
            &&& next.workspace == Some(w.name) && next.dir == w.dir
            &&& next.dry_run == settings.dry_run && next.verbose == settings.verbose
            &&& w.log_file is Some ==> next.log_file == w.log_file->0
            &&& w.log_file is None && config.log_file is Some ==> next.log_file == config.log_file->0
            &&& w.log_file is None && config.log_file is None ==> next.log_file == settings.log_file
        }),
        w.log_file is Some ==> workspace::log_display(w, config, built_in) == w.log_file->0,
        w.log_file is None && config.log_file is Some ==> workspace::log_display(w, config, built_in)
            == "(global default: "@ + config.log_file->0 + ")"@,
        w.log_file is None && config.log_file is None ==> workspace::log_display(w, config, built_in)
            == "(global default: "@ + built_in + ")"@,
        ({
            let current = workspace::current_workspace(settings);
            current.name == "default"@ && current.dir == settings.dir && current.log_file == Some(settings.log_file)
        }),
{
}

/// The word `default` in any case.
pub open spec fn says_default(s: Seq<char>) -> bool {
    s.len() == 7 && forall|i: int|
        0 <= i < 7 ==> (#[trigger] s[i] == "default"@[i] || s[i] as int == "default"@[i] as int - 32)
}

/// White space, and the word `default` with white space around it, mean the general log; every other
/// text that does not begin or end with white space means a log of its own.
pub proof fn lemma_general_log_is_meant(before: Seq<char>, core: Seq<char>, behind: Seq<char>)
    requires
        texts::all_white(before),
        texts::all_white(behind),
    ensures
        core.len() == 0 ==> workspace::means_general_log(before + core + behind),
        core.len() > 0 && !texts::white(core[0]) && !texts::white(core.last()) ==> (workspace::means_general_log(
            before + core + behind,
        ) <==> says_default(core)),
{
    reveal_strlit("default");
    if core.len() == 0 || !texts::white(core[0]) && !texts::white(core.last()) {
        texts::lemma_trimming_takes_white_space(before, core, behind);
        texts::lemma_case_does_not_count(core, "default"@);
        let word = "default"@;
        assert(word.len() == 7);
        assert forall|i: int| 0 <= i < 7 implies 'a' <= #[trigger] word[i] <= 'z' by {}
        if text::same_ignoring_case(core, word) {
            assert forall|i: int| 0 <= i < 7 implies (#[trigger] core[i] == word[i] || core[i] as int == word[i] as int
                - 32) by {
                assert('a' <= word[i] <= 'z');
            }
        }
        if says_default(core) {
            assert forall|i: int| 0 <= i < core.len() implies {
                let (x, y) = (#[trigger] core[i], word[i]);
                ||| x == y
                ||| 'A' <= x <= 'Z' && y as int == x as int + 32
                ||| 'A' <= y <= 'Z' && x as int == y as int + 32
            } by {
                assert('a' <= word[i] <= 'z');
            }
        }
    }
}

/// A schedule can be asked for where its time is one of a day, its name is good, and it does not ask
/// both for a workspace and for settings of its own.
pub proof fn lemma_schedules_can_be_asked_for(
    settings: CliModel,
    args: Seq<Seq<char>>,
    name: Seq<char>,
    hour: u8,
    minute: u8,
)
    ensures
        schedule::request_complaint(settings, args, name, hour, minute) is None <==> {
            &&& hour <= 23 && minute <= 59
            &&& schedules::good_name(name) && name != "daily"@
            &&& settings.workspace is Some ==> forall|i: int|
                1 <= i < args.len() ==> !crate::laws::settings::spells_dir(#[trigger] args[i])
                    && !crate::laws::settings::spells_log(args[i])
        },
        hour > 23 ==> schedule::request_complaint(settings, args, name, hour, minute) == Some(
            "Hour must be between 0 and 23"@,
        ),
        hour <= 23 && minute > 59 ==> schedule::request_complaint(settings, args, name, hour, minute) == Some(
            "Minute must be between 0 and 59"@,
        ),
{
    schedules::lemma_good_names_are_taken("schedule"@, name);
    crate::laws::settings::lemma_directory_is_given_in_its_spellings(args);
    crate::laws::settings::lemma_log_file_is_given_in_its_spellings(args);
    if forall|i: int|
        1 <= i < args.len() ==> !crate::laws::settings::spells_dir(#[trigger] args[i])
            && !crate::laws::settings::spells_log(args[i]) {
        assert(!crate::cli::dir_given(args) && !crate::cli::log_given(args));
    }
}

/// The names of schedules that are shown are those that were given, each once and in order; without
/// any it is the name `default`.
pub proof fn lemma_shown_names_are_those_given(given: Seq<Seq<char>>, shown: Seq<Seq<char>>, name: Seq<char>)
    requires
        schedule_names::printable(given, shown),
    ensures
        names_in_order(shown),
        given.len() > 0 ==> (shown.contains(name) <==> given.contains(name)),
        given.len() == 0 ==> (shown.contains(name) <==> name == "default"@),
{
    if given.len() == 0 && name == "default"@ {
        assert(shown[0] == name);
    }
}

/// A workspace that is added is there, in place of the one of its name, and all others stay; one that
/// is refused changes nothing, and the answer is why.
pub proof fn lemma_added_workspace_is_there(
    config: ConfigModel,
    w: WorkspaceModel,
    dir_exists: bool,
    next: ConfigModel,
    x: WorkspaceModel,
    path: Seq<char>,
    built_in: Seq<char>,
)
    requires
        names_in_order(names_of_workspaces(config)),
        workspace::added(config, w, dir_exists, next),
    ensures
        schedules::good_name(w.name) && dir_exists ==> {
            &&& next.workspaces.contains(x) <==> x == w || config.workspaces.contains(x) && x.name != w.name
            &&& workspace::adding_answer(config, w, dir_exists, path, built_in) is Ok
        },
        !schedules::good_name(w.name) || !dir_exists ==> next == config && workspace::adding_answer(
            config,
            w,
            dir_exists,
            path,
            built_in,
        ) is Err,
        next.dir == config.dir,
        next.log_file == config.log_file,
        next.schedules == config.schedules,
{
    lemma_new_workspaces_have_their_directory(w.name, w.dir, dir_exists);
    if schedules::good_name(w.name) && dir_exists {
        lemma_saved_workspace_joins_the_others(config, w, next, x);
    }
}

/// What is told of a saved workspace is its name, its directory, its log and where it was saved.
pub proof fn lemma_added_workspace_is_told(
    config: ConfigModel,
    w: WorkspaceModel,
    path: Seq<char>,
    built_in: Seq<char>,
)
    requires
        schedules::good_name(w.name),
    ensures
        workspace::adding_answer(config, w, true, path, built_in) matches Ok(told) && {
            let line = |label: Seq<char>, span: SpanModel| ui::two("  "@, ui::label_of(label), span);
            &&& told.len() == 5
            &&& told[1] == line("Name"@, ui::span(w.name, Style::Name))
            &&& told[2] == line("Dir"@, ui::span(w.dir, Style::Path))
            &&& told[3] == line("Log"@, ui::span(workspace::log_display(w, config, built_in), Style::Value))
            &&& told[4] == line("Config"@, ui::span(path, Style::Path))
        },
{
    lemma_new_workspaces_have_their_directory(w.name, w.dir, true);
}

/// A workspace that can be removed is gone and all others stay; one that cannot changes nothing, and
/// the answer is why.
pub proof fn lemma_removed_workspace_is_not_there(config: ConfigModel, name: Seq<char>, x: WorkspaceModel)
    ensures
        ({
            let next = workspace::after_removing(config, name);
            let unused = forall|i: int|
                0 <= i < config.schedules.len() ==> (#[trigger] config.schedules[i]).workspace != name;
            let goes = schedules::good_name(name) && names_of_workspaces(config).contains(name) && unused;
            &&& goes ==> (next.workspaces.contains(x) <==> config.workspaces.contains(x) && x.name != name)
            &&& !goes ==> next == config
            &&& workspace::removing_answer(config, name) is Ok <==> goes
            &&& next.dir == config.dir && next.log_file == config.log_file && next.schedules == config.schedules
        }),
{
    lemma_unused_workspaces_can_be_removed(config, name);
    lemma_filtered(config.workspaces, names::is_not_named::<WorkspaceConfig>(name), x);
}

/// A cleanup runs in the workspace that was chosen, and with the settings that it had where none was.
pub proof fn lemma_cleanup_runs_in_the_chosen_workspace(settings: CliModel, config: ConfigModel, i: usize)
    requires
        i < config.workspaces.len(),
    ensures
        workspace::after_choice(settings, config, MenuAction::Back) == settings,
        ({
            let next = workspace::after_choice(settings, config, MenuAction::Selected(i));
            let w = config.workspaces[i as int];
            &&& next.workspace == Some(w.name) && next.dir == w.dir
            &&& next.dry_run == settings.dry_run && next.verbose == settings.verbose
            &&& w.log_file is Some ==> next.log_file == w.log_file->0
        }),
{
}

/// A choice of a workspace is the workspace of that name, and the last choice is the current
/// directory, which is saved as the workspace `default`; going back chooses and saves nothing.
pub proof fn lemma_last_choice_is_the_current_directory(
    config: ConfigModel,
    settings: CliModel,
    shown: Seq<Seq<char>>,
    words: Seq<char>,
    i: usize,
    next: ConfigModel,
)
    requires
        names_in_order(names_of_workspaces(config)),
        i <= shown.len(),
        workspace::config_after_choice(config, settings, shown.push(words), MenuAction::Selected(i), next),
    ensures
        workspace::choice_taken(shown.push(words), MenuAction::Back) is None,
        i < shown.len() ==> workspace::choice_taken(shown.push(words), MenuAction::Selected(i)) == Some(shown[i as int])
            && next == config,
        i == shown.len() ==> {
            let w = WorkspaceModel { name: "default"@, dir: settings.dir, log_file: Some(settings.log_file) };
            &&& workspace::choice_taken(shown.push(words), MenuAction::Selected(i)) == Some("default"@)
            &&& next.workspaces.contains(w)
            &&& next.dir == config.dir && next.log_file == config.log_file && next.schedules == config.schedules
        },
{
    if i == shown.len() {
        let w = WorkspaceModel { name: "default"@, dir: settings.dir, log_file: Some(settings.log_file) };
        lemma_saved_workspace_joins_the_others(config, w, next, w);
    }
}

/// The workspaces that are offered are those that are saved and the current one, each once and in
/// order, and the one that is marked is the current one.
pub proof fn lemma_offered_workspaces_are_the_saved_ones(
    config: ConfigModel,
    current: Option<Seq<char>>,
    shown: Seq<Seq<char>>,
    name: Seq<char>,
    i: int,
)
    requires
        workspace::offered(config, current, shown),
        workspace::place_of(shown, current, i),
    ensures
        names_in_order(shown),
        shown.contains(name) <==> names_of_workspaces(config).contains(name) || current == Some(name),
        current is Some ==> 0 <= i < shown.len() && shown[i] == current->0,
        current is None ==> i == 0,
{
    let saved = workspace::workspace_names(config.workspaces);
    let more = match current {
        Some(name) => seq![name],
        None => Seq::empty(),
    };
    assert(saved =~= names_of_workspaces(config));
    assert((saved + more).contains(name) <==> saved.contains(name) || current == Some(name)) by {
        if (saved + more).contains(name) {
            let k = (saved + more).index_of(name);
            if k < saved.len() {
                assert(saved[k] == name);
            } else {
                assert(more[k - saved.len()] == name);
            }
        }
        if saved.contains(name) {
            let k = saved.index_of(name);
            assert((saved + more)[k] == name);
        }
        if current == Some(name) {
            assert((saved + more)[saved.len() as int] == name);
        }
    }
    if let Some(own) = current {
        assert((saved + more)[saved.len() as int] == own);
        assert(shown.contains(own));
    }
}

/// A schedule runs in the workspace that was asked for, if it can be asked for, and otherwise in the
/// current directory, which is then saved as the workspace `default`.
pub proof fn lemma_schedule_runs_in_its_workspace(settings: CliModel, config: ConfigModel, next: ConfigModel)
    requires
        names_in_order(names_of_workspaces(config)),
        schedule::config_with_used(settings, config, next),
    ensures
        settings.workspace matches Some(name) ==> {
            let can = schedules::good_name(name) && names_of_workspaces(config).contains(name);
            &&& next == config
            &&& can ==> schedule::workspace_used(settings, config) == Ok::<_, ErrorModel>(name)
            &&& !can ==> schedule::workspace_used(settings, config) is Err
        },
        settings.workspace is None ==> {
            &&& schedule::workspace_used(settings, config) == Ok::<_, ErrorModel>("default"@)
            &&& next.workspaces.contains(
                WorkspaceModel { name: "default"@, dir: settings.dir, log_file: Some(settings.log_file) },
            )
            &&& next.dir == config.dir && next.log_file == config.log_file && next.schedules == config.schedules
        },
{
    match settings.workspace {
        Some(name) => {
            schedules::lemma_good_names_are_taken("workspace"@, name);
            lemma_first_workspace_of_the_name_is_found(
                config,
                name,
                WorkspaceModel { name, dir: name, log_file: None },
            );
        },
        None => {
            let w = WorkspaceModel { name: "default"@, dir: settings.dir, log_file: Some(settings.log_file) };
            lemma_saved_workspace_joins_the_others(config, w, next, w);
        },
    }
}

/// A new schedule may have every name but one that is taken, and a time is taken where it reads as
/// two digits up to 23, a colon and two digits up to 59.
pub proof fn lemma_new_schedules_have_new_names(config: ConfigModel, name: Seq<char>, input: Seq<char>)
    ensures
        schedule::new_schedule_answer(config, name) is Ok <==> !names_of_schedules(config).contains(name),
        names_of_schedules(config).contains(name) ==> schedule::new_schedule_answer(config, name)->Err_0.text
            == "Schedule already exists: "@ + name,
        schedule::time_input_answer(input) is Ok <==> {
            &&& input.len() == 5 && input[2] == ':'
            &&& texts::digit(input[0]) && texts::digit(input[1]) && texts::digit(input[3]) && texts::digit(input[4])
            &&& 10 * texts::value(input[0]) + texts::value(input[1]) < 24
            &&& 10 * texts::value(input[3]) + texts::value(input[4]) < 60
        },
        schedule::time_input_answer(input) matches Err(e) ==> e.text
            == "Must be in HH:MM format, for example 09:00 or 18:30"@,
{
    lemma_first_workspace_of_the_name_is_found(config, name, WorkspaceModel { name, dir: name, log_file: None });
    if let Some((hour, minute)) = schedule::daily_time(input) {
        texts::lemma_time_is_read_off_its_digits(input, hour, minute);
    }
    if input.len() == 5 && input[2] == ':' && texts::digit(input[0]) && texts::digit(input[1]) && texts::digit(input[3])
        && texts::digit(input[4]) && 10 * texts::value(input[0]) + texts::value(input[1]) < 24 && 10 * texts::value(
        input[3],
    ) + texts::value(input[4]) < 60 {
        texts::lemma_time_is_read_off_its_digits(
            input,
            (10 * texts::value(input[0]) + texts::value(input[1])) as u8,
            (10 * texts::value(input[3]) + texts::value(input[4])) as u8,
        );
    }
}

/// The names of all schedules are those that are saved and `default`, each once and in order; and
/// where all schedules are forgotten nothing else is.
pub proof fn lemma_all_schedules_are_named(config: ConfigModel, shown: Seq<Seq<char>>, name: Seq<char>)
    requires
        schedule::all_names(config, shown),
    ensures
        names_in_order(shown),
        shown.contains(name) <==> names_of_schedules(config).contains(name) || name == "default"@,
        ({
            let next = schedule::without_schedules(config);
            &&& next.schedules.len() == 0
            &&& next.dir == config.dir && next.log_file == config.log_file && next.workspaces == config.workspaces
        }),
{
    let saved = schedule::names_of(config.schedules);
    let all = saved.push("default"@);
    assert(saved =~= names_of_schedules(config));
    if saved.contains(name) {
        let k = saved.index_of(name);
        assert(all[k] == name);
    }
    if name == "default"@ {
        assert(all[saved.len() as int] == name);
    }
    if all.contains(name) && name != "default"@ {
        let k = all.index_of(name);
        assert(saved[k] == name);
    }
}

} // verus!
