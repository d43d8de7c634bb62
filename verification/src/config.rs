//! Static configuration: the task list and the limits the controller runs with.

use crate::env::{
    get_profile_value, get_var, lookup, parse_post_up_tasks, parsed_tasks, profile_value, Vars,
    VarsView,
};
use crate::json::{Json, json_of, JsonView, parse_json};
use crate::order::{sort_order, sorted_indices};
use crate::text::{
    chars_of, join2, join3, parse_unsigned, parsed_unsigned, push_line, str_eq, trim, trimmed,
};
use vstd::prelude::*;
use vstd::string::*;

verus! {

/// One configured background task: a display name and a shell command.
#[derive(Debug, PartialEq, Eq)]
pub struct TaskSpec {
    pub name: String,
    pub cmd: String,
}

/// The mathematical content of a [`TaskSpec`].
pub struct TaskSpecView {
    pub name: Seq<char>,
    pub cmd: Seq<char>,
}

impl DeepView for TaskSpec {
    type V = TaskSpecView;

    open spec fn deep_view(&self) -> TaskSpecView {
        TaskSpecView { name: self.name@, cmd: self.cmd@ }
    }
}

impl Clone for TaskSpec {
    fn clone(&self) -> (r: Self)
        ensures
            r == *self,
    {
        TaskSpec { name: self.name.clone(), cmd: self.cmd.clone() }
    }
}

/// Everything the dashboard is configured with, fixed at start-up.
#[derive(Debug, PartialEq, Eq)]
pub struct Config {
    /// The project root; commands run from here.
    pub cwd: String,
    pub profile: String,
    pub docker_bin: String,
    pub auto_compose_up: bool,
    pub compose_profile: String,
    pub db_container: String,
    pub storage_container: String,
    pub post_up_tasks: Vec<TaskSpec>,
    /// The capacity of every log buffer.
    pub max_log_lines: usize,
    /// The period of the snapshot refresh, in milliseconds.
    pub refresh_ms: u64,
}

/// The mathematical content of a [`Config`].
pub struct ConfigView {
    pub cwd: Seq<char>,
    pub profile: Seq<char>,
    pub docker_bin: Seq<char>,
    pub auto_compose_up: bool,
    pub compose_profile: Seq<char>,
    pub db_container: Seq<char>,
    pub storage_container: Seq<char>,
    pub post_up_tasks: Seq<TaskSpecView>,
    pub max_log_lines: nat,
    pub refresh_ms: u64,
}

impl DeepView for Config {
    type V = ConfigView;

    open spec fn deep_view(&self) -> ConfigView {
        ConfigView {
            cwd: self.cwd@,
            profile: self.profile@,
            docker_bin: self.docker_bin@,
            auto_compose_up: self.auto_compose_up,
            compose_profile: self.compose_profile@,
            db_container: self.db_container@,
            storage_container: self.storage_container@,
            post_up_tasks: self.post_up_tasks.deep_view(),
            max_log_lines: self.max_log_lines as nat,
            refresh_ms: self.refresh_ms,
        }
    }
}

impl Clone for Config {
    fn clone(&self) -> (r: Self)
        ensures
            r.deep_view() == self.deep_view(),
    {
        let tasks = self.post_up_tasks.clone();
        assert(tasks.deep_view() =~= self.post_up_tasks.deep_view());
        Config {
            cwd: self.cwd.clone(),
            profile: self.profile.clone(),
            docker_bin: self.docker_bin.clone(),
            auto_compose_up: self.auto_compose_up,
            compose_profile: self.compose_profile.clone(),
            db_container: self.db_container.clone(),
            storage_container: self.storage_container.clone(),
            post_up_tasks: tasks,
            max_log_lines: self.max_log_lines,
            refresh_ms: self.refresh_ms,
        }
    }
}

/// What was found in one directory on the way up from the start directory.
#[derive(Debug, Clone, Copy, PartialEq, Eq, Structural)]
pub struct DirProbe {
    /// The directory holds a `docker-compose.yml`.
    pub has_compose: bool,
    /// The directory holds a `package.json`.
    pub has_package: bool,
}

/// The number of directories the search for the project root looks at.
pub open spec fn search_depth() -> int {
    12
}

/// The first of the first `limit` probes that holds a compose file, or,
/// with `package` set, a package file.
pub open spec fn first_probe(probes: Seq<DirProbe>, limit: int, package: bool) -> Option<int>
    decreases probes.len(),
{
    if probes.len() == 0 || limit <= 0 {
        None
    } else if (if package {
        probes[0].has_package
    } else {
        probes[0].has_compose
    }) {
        Some(0)
    } else {
        match first_probe(probes.drop_first(), limit - 1, package) {
            Some(i) => Some(i + 1),
            None => None,
        }
    }
}

/// The project root among the start directory and its ancestors, nearest
/// first: the nearest one with a compose file, else the nearest one with a
/// package file, else the start directory. Only the first twelve are looked
/// at.
pub open spec fn project_root(probes: Seq<DirProbe>) -> int {
    match first_probe(probes, search_depth(), false) {
        Some(i) => i,
        None => match first_probe(probes, search_depth(), true) {
            Some(i) => i,
            None => 0,
        },
    }
}

fn scan_probes(probes: &Vec<DirProbe>, package: bool) -> (r: Option<usize>)
    ensures
        match r {
            Some(i) => first_probe(probes@, search_depth(), package) == Some(i as int) && i
                < probes.len(),
            None => first_probe(probes@, search_depth(), package) is None,
        },
{
    let mut i: usize = 0;
    proof {
        assert(probes@.skip(0) =~= probes@);
    }
    while i < probes.len() && i < 12
        invariant
            i <= probes.len(),
            i <= 12,
            first_probe(probes@, search_depth(), package) == (match first_probe(
                probes@.skip(i as int),
                search_depth() - i,
                package,
            ) {
                Some(k) => Some(k + i),
                None => None,
            }),
        decreases probes.len() - i,
    {
        proof {
            assert(probes@.skip(i as int)[0] == probes@[i as int]);
            assert(probes@.skip(i as int).drop_first() =~= probes@.skip(i as int + 1));
        }
        let hit = if package {
            probes[i].has_package
        } else {
            probes[i].has_compose
        };
        if hit {
            return Some(i);
        }
        i += 1;
    }
    None
}

/// Picks the project root. `probes` describes the start directory and its
/// ancestors, nearest first; the result is the position of the root among
/// them, 0 standing for the start directory.
pub fn find_project_root(probes: &Vec<DirProbe>) -> (r: usize)
    ensures
        r == project_root(probes@),
        r == 0 || r < probes.len(),
{
    match scan_probes(probes, false) {
        Some(i) => i,
        None => match scan_probes(probes, true) {
            Some(i) => i,
            None => 0,
        },
    }
}

/// The engine's command: the value of `DOCKER_BIN`, or `docker`.
pub open spec fn docker_binary(vars: VarsView) -> Seq<char> {
    match lookup(vars, "DOCKER_BIN"@) {
        Some(v) => v,
        None => "docker"@,
    }
}

/// The engine's command, as `vars` set it.
pub fn resolve_docker_binary(vars: &Vars) -> (r: String)
    ensures
        r@ == docker_binary(vars.deep_view()),
{
    match get_var(vars, "DOCKER_BIN") {
        Some(v) => v,
        None => "docker".to_owned(),
    }
}

/// The names of `tasks`, in order.
pub open spec fn names_of(tasks: Seq<TaskSpecView>) -> Seq<Seq<char>> {
    Seq::new(tasks.len(), |i: int| tasks[i].name)
}

/// `tasks` in ascending order of their names; tasks with one name keep
/// their order.
pub open spec fn sorted_by_name(tasks: Seq<TaskSpecView>) -> Seq<TaskSpecView> {
    let order = sort_order(names_of(tasks), tasks.len() as int);
    Seq::new(tasks.len(), |i: int| tasks[order[i]])
}

/// Sorts tasks by name.
#[verifier::rlimit(50)]
pub fn sort_tasks(tasks: &Vec<TaskSpec>) -> (r: Vec<TaskSpec>)
    ensures
        r.deep_view() == sorted_by_name(tasks.deep_view()),
{
    let ghost tv = tasks.deep_view();
    let mut keys: Vec<Vec<char>> = Vec::new();
    let mut i: usize = 0;
    while i < tasks.len()
        invariant
            i <= tasks.len(),
            keys.len() == i,
            forall|k: int| 0 <= k < i ==> (#[trigger] keys[k])@ == tasks[k].name@,
        decreases tasks.len() - i,
    {
        keys.push(chars_of(tasks[i].name.as_str()));
        i += 1;
    }
    proof {
        assert forall|k: int| 0 <= k < keys.len() implies (#[trigger] keys.deep_view()[k])
            == names_of(tv)[k] by {
            assert(keys[k].deep_view() =~= keys[k]@);
            assert(tv[k] == tasks[k].deep_view());
        }
        assert(keys.deep_view() =~= names_of(tv));
    }
    let order = sorted_indices(&keys);
    let ghost ov = sort_order(names_of(tv), tv.len() as int);
    let mut out: Vec<TaskSpec> = Vec::new();
    let mut j: usize = 0;
    while j < order.len()
        invariant
            j <= order.len(),
            order.len() == tasks.len(),
            tv == tasks.deep_view(),
            ov == order@.map_values(|x: usize| x as int),
            forall|k: int| 0 <= k < order.len() ==> (#[trigger] order[k]) < tasks.len(),
            out.deep_view() =~= Seq::new(j as nat, |k: int| tv[ov[k]]),
        decreases order.len() - j,
    {
        let t = tasks[order[j]].clone();
        let ghost before = out.deep_view();
        out.push(t);
        proof {
            assert(ov[j as int] == order[j as int] as int);
            assert(tv[ov[j as int]] == tasks[order[j as int] as int].deep_view());
            assert(out.deep_view() =~= before.push(tv[ov[j as int]]));
        }
        j += 1;
    }
    out
}

/// The tasks the members of a `scripts` object stand for: one per member
/// whose value is a string, named after the member.
pub open spec fn script_tasks(fields: Seq<(Seq<char>, JsonView)>) -> Seq<TaskSpecView>
    decreases fields.len(),
{
    if fields.len() == 0 {
        Seq::empty()
    } else {
        match fields.last().1 {
            JsonView::Str(cmd) => script_tasks(fields.drop_last()).push(
                TaskSpecView { name: fields.last().0, cmd },
            ),
            _ => script_tasks(fields.drop_last()),
        }
    }
}

/// The tasks a package description offers: its scripts, sorted by name.
/// None when the description is no JSON document or has no `scripts` object.
pub open spec fn package_tasks(doc: Option<JsonView>) -> Seq<TaskSpecView> {
    match doc {
        Some(j) => match j.field("scripts"@) {
            Some(JsonView::Object(fields)) => sorted_by_name(script_tasks(fields)),
            _ => Seq::empty(),
        },
        None => Seq::empty(),
    }
}

/// The tasks the package description `doc` offers.
pub fn tasks_from_package(doc: &Option<Json>) -> (r: Vec<TaskSpec>)
    ensures
        r.deep_view() == package_tasks(doc.deep_view()),
{
    let mut tasks: Vec<TaskSpec> = Vec::new();
    assert(tasks.deep_view() =~= Seq::<TaskSpecView>::empty());
    let scripts = match doc {
        Some(j) => j.get("scripts"),
        None => None,
    };
    let fields = match scripts {
        Some(s) => s.members(),
        None => None,
    };
    match fields {
        Some(fields) => {
            let ghost fv = fields.deep_view();
            let mut i: usize = 0;
            assert(fv.take(0) =~= Seq::<(Seq<char>, JsonView)>::empty());
            while i < fields.len()
                invariant
                    i <= fields.len(),
                    fv == fields.deep_view(),
                    tasks.deep_view() == script_tasks(fv.take(i as int)),
                decreases fields.len() - i,
            {
                proof {
                    assert(fv.take(i as int + 1).drop_last() =~= fv.take(i as int));
                    assert(fv.take(i as int + 1).last() == fields[i as int].deep_view());
                }
                match fields[i].1.as_str() {
                    Some(cmd) => {
                        let ghost before = tasks.deep_view();
                        let t = TaskSpec { name: fields[i].0.clone(), cmd: cmd.clone() };
                        let ghost shown = t.deep_view();
                        tasks.push(t);
                        assert(tasks.deep_view() =~= before.push(shown));
                    },
                    None => {},
                }
                i += 1;
            }
            assert(fv.take(fields.len() as int) =~= fv);
            sort_tasks(&tasks)
        },
        None => tasks,
    }
}

/// Reads the tasks a package description offers from its text; none when
/// there is no description.
pub fn load_tasks_from_package_json(package_json: Option<&str>) -> (r: Vec<TaskSpec>)
    ensures
        r.deep_view() == match package_json {
            Some(text) => package_tasks(json_of(text@)),
            None => Seq::empty(),
        },
{
    match package_json {
        Some(text) => {
            let doc = parse_json(text);
            tasks_from_package(&doc)
        },
        None => {
            let tasks: Vec<TaskSpec> = Vec::new();
            assert(tasks.deep_view() =~= Seq::<TaskSpecView>::empty());
            tasks
        },
    }
}

/// Whether one of `tasks` is called `name`.
pub open spec fn has_name(tasks: Seq<TaskSpecView>, name: Seq<char>) -> bool {
    exists|i: int| 0 <= i < tasks.len() && (#[trigger] tasks[i]).name == name
}

/// `own` followed by those of `extra` whose name is not taken yet.
pub open spec fn merged(own: Seq<TaskSpecView>, extra: Seq<TaskSpecView>) -> Seq<TaskSpecView>
    decreases extra.len(),
{
    if extra.len() == 0 {
        own
    } else {
        let m = merged(own, extra.drop_last());
        if has_name(m, extra.last().name) {
            m
        } else {
            m.push(extra.last())
        }
    }
}

fn name_taken(tasks: &Vec<TaskSpec>, name: &str) -> (r: bool)
    ensures
        r == has_name(tasks.deep_view(), name@),
{
    let ghost tv = tasks.deep_view();
    let mut i: usize = 0;
    while i < tasks.len()
        invariant
            i <= tasks.len(),
            tv == tasks.deep_view(),
            forall|k: int| 0 <= k < i ==> (#[trigger] tv[k]).name != name@,
        decreases tasks.len() - i,
    {
        proof {
            assert(tv[i as int] == tasks[i as int].deep_view());
        }
        if str_eq(tasks[i].name.as_str(), name) {
            return true;
        }
        i += 1;
    }
    false
}

/// The profile in use: the given one trimmed, or `local` when that is blank.
pub open spec fn effective_profile(profile: Seq<char>) -> Seq<char> {
    if trimmed(profile).len() == 0 {
        "local"@
    } else {
        trimmed(profile)
    }
}

/// The tasks the profile configures by itself: its task list, or, when that
/// gives none, its single command as a task called `postup`.
pub open spec fn own_tasks(prof: Seq<char>, vars: VarsView) -> Seq<TaskSpecView> {
    let tasks = parsed_tasks(profile_value("POST_UP_TASKS"@, prof, vars));
    let single = profile_value("POST_UP_CMD"@, prof, vars);
    if tasks.len() > 0 {
        tasks
    } else if trimmed(single).len() > 0 {
        seq![TaskSpecView { name: "postup"@, cmd: single }]
    } else {
        Seq::empty()
    }
}

/// The number in the variable `name`, or `fallback` when the variable is not
/// set or holds no number of at most `max`.
pub open spec fn number_setting(vars: VarsView, name: Seq<char>, max: int, fallback: int) -> int {
    match lookup(vars, name) {
        Some(v) => match parsed_unsigned(v, max) {
            Some(n) => n,
            None => fallback,
        },
        None => fallback,
    }
}

/// The value of the variable `name`, or `fallback` when it is not set.
pub open spec fn text_setting(vars: VarsView, name: Seq<char>, fallback: Seq<char>) -> Seq<char> {
    match lookup(vars, name) {
        Some(v) => v,
        None => fallback,
    }
}

/// The configuration for `profile`, given the variables, the project root
/// and the tasks the package description offers.
pub open spec fn config_for(
    profile: Seq<char>,
    vars: VarsView,
    cwd: Seq<char>,
    package: Seq<TaskSpecView>,
) -> ConfigView {
    let prof = effective_profile(profile);
    ConfigView {
        cwd,
        profile: prof,
        docker_bin: docker_binary(vars),
        auto_compose_up: true,
        compose_profile: prof,
        db_container: text_setting(vars, "DB_CONTAINER"@, "supabase-db"@),
        storage_container: text_setting(vars, "STORAGE_CONTAINER"@, "supabase-storage"@),
        post_up_tasks: sorted_by_name(merged(own_tasks(prof, vars), package)),
        max_log_lines: number_setting(vars, "MAX_LOG_LINES"@, usize::MAX as int, 1200) as nat,
        refresh_ms: number_setting(vars, "REFRESH_MS"@, u64::MAX as int, 1000) as u64,
    }
}

fn number_from(vars: &Vars, name: &str, max: u64, fallback: u64) -> (r: u64)
    requires
        fallback <= max,
    ensures
        r == number_setting(vars.deep_view(), name@, max as int, fallback as int),
        r <= max,
{
    match get_var(vars, name) {
        Some(v) => match parse_unsigned(v.as_str(), max) {
            Some(n) => n,
            None => fallback,
        },
        None => fallback,
    }
}

fn text_from(vars: &Vars, name: &str, fallback: &str) -> (r: String)
    ensures
        r@ == text_setting(vars.deep_view(), name@, fallback@),
{
    match get_var(vars, name) {
        Some(v) => v,
        None => fallback.to_owned(),
    }
}

/// Builds the configuration for `profile` from the variables `vars`, the
/// project root `cwd` and the text of the root's package description, if
/// it has one.
#[verifier::rlimit(50)]
pub fn get_config(profile: &str, vars: &Vars, cwd: String, package_json: Option<&str>) -> (r:
    Config)
    ensures
        r.deep_view() == config_for(
            profile@,
            vars.deep_view(),
            cwd@,
            match package_json {
                Some(text) => package_tasks(json_of(text@)),
                None => Seq::empty(),
            },
        ),
{
    let trimmed_profile = trim(profile);
    let prof = if trimmed_profile.as_str().unicode_len() == 0 {
        "local".to_owned()
    } else {
        trimmed_profile
    };
    let tasks_raw = get_profile_value("POST_UP_TASKS", prof.as_str(), vars);
    let tasks = parse_post_up_tasks(tasks_raw.as_str());
    let single = get_profile_value("POST_UP_CMD", prof.as_str(), vars);
    let mut post_up_tasks = if tasks.len() > 0 {
        tasks
    } else if trim(single.as_str()).as_str().unicode_len() > 0 {
        let mut one: Vec<TaskSpec> = Vec::new();
        let t = TaskSpec { name: "postup".to_owned(), cmd: single };
        let ghost shown = t.deep_view();
        one.push(t);
        assert(one.deep_view() =~= seq![shown]);
        one
    } else {
        let none: Vec<TaskSpec> = Vec::new();
        assert(none.deep_view() =~= Seq::<TaskSpecView>::empty());
        none
    };
    let ghost own = post_up_tasks.deep_view();
    let pkg_tasks = load_tasks_from_package_json(package_json);
    let ghost pv = pkg_tasks.deep_view();
    let mut i: usize = 0;
    assert(pv.take(0) =~= Seq::<TaskSpecView>::empty());
    while i < pkg_tasks.len()
        invariant
            i <= pkg_tasks.len(),
            pv == pkg_tasks.deep_view(),
            post_up_tasks.deep_view() == merged(own, pv.take(i as int)),
        decreases pkg_tasks.len() - i,
    {
        proof {
            assert(pv.take(i as int + 1).drop_last() =~= pv.take(i as int));
            assert(pv.take(i as int + 1).last() == pkg_tasks[i as int].deep_view());
        }
        if !name_taken(&post_up_tasks, pkg_tasks[i].name.as_str()) {
            let ghost before = post_up_tasks.deep_view();
            let t = pkg_tasks[i].clone();
            post_up_tasks.push(t);
            assert(post_up_tasks.deep_view() =~= before.push(pkg_tasks[i as int].deep_view()));
        }
        i += 1;
    }
    assert(pv.take(pkg_tasks.len() as int) =~= pv);
    let sorted = sort_tasks(&post_up_tasks);
    let max_log_lines = number_from(vars, "MAX_LOG_LINES", usize::MAX as u64, 1200) as usize;
    let refresh_ms = number_from(vars, "REFRESH_MS", u64::MAX, 1000);
    Config {
        cwd,
        profile: prof.clone(),
        docker_bin: resolve_docker_binary(vars),
        auto_compose_up: true,
        compose_profile: prof,
        db_container: text_from(vars, "DB_CONTAINER", "supabase-db"),
        storage_container: text_from(vars, "STORAGE_CONTAINER", "supabase-storage"),
        post_up_tasks: sorted,
        max_log_lines,
        refresh_ms,
    }
}

/// `base` and `rel` as one path: `rel` alone under an empty `base`, else
/// both with one `/` between them.
pub open spec fn joined_path(base: Seq<char>, rel: Seq<char>) -> Seq<char> {
    if base.len() == 0 {
        rel
    } else if base.last() == '/' {
        base + rel
    } else {
        base + "/"@ + rel
    }
}

/// Puts `rel` under the directory `base`.
pub fn join_path(base: &str, rel: &str) -> (r: String)
    ensures
        r@ == joined_path(base@, rel@),
{
    let v = chars_of(base);
    if v.len() == 0 {
        rel.to_owned()
    } else if v[v.len() - 1] == '/' {
        join2(base, rel)
    } else {
        join3(base, "/", rel)
    }
}

/// The compose files of a profile: the project's own, and the profile's
/// under `docker/<profile>/` if it has one.
pub open spec fn compose_files(cwd: Seq<char>, profile: Seq<char>, has_own: bool) -> Seq<
    Seq<char>,
> {
    let first = joined_path(cwd, "docker-compose.yml"@);
    if has_own {
        seq![
            first,
            joined_path(
                cwd,
                "docker/"@ + effective_profile(profile) + "/docker-compose.yml"@,
            ),
        ]
    } else {
        seq![first]
    }
}

/// The relative path of the compose file a profile may bring.
pub fn profile_compose_file(profile: &str) -> (r: String)
    ensures
        r@ == "docker/"@ + effective_profile(profile@) + "/docker-compose.yml"@,
{
    let trimmed_profile = trim(profile);
    if trimmed_profile.as_str().unicode_len() == 0 {
        join3("docker/", "local", "/docker-compose.yml")
    } else {
        join3("docker/", trimmed_profile.as_str(), "/docker-compose.yml")
    }
}

/// Lists the compose files of `profile` under `cwd`; `has_own` says whether
/// the profile's own file exists.
pub fn _compose_files_for_profile(cwd: &str, profile: &str, has_own: bool) -> (r: Vec<String>)
    ensures
        r.deep_view() == compose_files(cwd@, profile@, has_own),
{
    let mut files: Vec<String> = Vec::new();
    assert(files.deep_view() =~= Seq::<Seq<char>>::empty());
    push_line(&mut files, join_path(cwd, "docker-compose.yml"));
    if has_own {
        let candidate = profile_compose_file(profile);
        push_line(&mut files, join_path(cwd, candidate.as_str()));
    }
    assert(files.deep_view() =~= compose_files(cwd@, profile@, has_own));
    files
}

} // verus!
