//! The controller itself: the state it keeps and the steps it takes.
//!
//! Every step is pure with respect to the outside world. It changes the
//! state and hands back the commands for the host; what the state becomes
//! and which commands come out is stated, for each step, by the function of
//! the same name on [`AppView`].

use crate::config::{Config, TaskSpec};
use crate::docker::{container_name, ContainerSummary, DockerMeta, pick_best_public_port, Port};
use crate::inspect::{format_container_info, inspect_volumes};
use crate::json::parse_json;
use crate::laws::{
    lemma_action_wf, lemma_after_fetch_wf, lemma_answer_task_wf, lemma_handle_event_wf,
    lemma_initial_wf, lemma_mouse_wf, lemma_navigate_wf, lemma_popup_key_wf, lemma_pump_wf,
    lemma_rebuild_wf, lemma_run_task_wf, lemma_select_wf, lemma_signal_wf, lemma_stop_task_wf,
    lemma_task_step_wf,
};
use crate::logbuf::{keep_last, lemma_keep_last_push, LogBuffer};
use crate::model::{
    Area, Command, CommandView, ComposeStage, Event, KeyCode, Kind, MouseKind, Pending, Popup,
    Reply, Snapshot, TargetId, TaskSignal, TaskSignalView, UiItem,
};
use crate::rows::make_rows;
use crate::state::{AppView, banner, initial, opening_lines, quiet, runtimes, StepView, task_names};
use crate::tasks::{find_task, position, TaskRuntime, TaskStep};
use crate::text::{i64_to_string, join2, join3, join_lines, push_line, str_eq, u64_to_string};
use vstd::prelude::*;
use vstd::string::*;

verus! {

/// What the dashboard is started with.
#[derive(Debug, PartialEq, Eq)]
pub struct RunOpts {
    /// The project root.
    pub root: String,
    pub docker_bin: String,
    pub docker_meta: DockerMeta,
}

/// What a step hands to the host: the commands to carry out, in order, and
/// whether the operator asked to quit.
#[derive(Debug, PartialEq, Eq)]
pub struct Outcome {
    pub commands: Vec<Command>,
    pub quit: bool,
}

/// The controller.
pub struct App {
    cfg: Config,
    docker: DockerMeta,
    items: Vec<UiItem>,
    selected: usize,
    focus_on_list: bool,
    current_target: Option<TargetId>,
    log_lines: LogBuffer,
    log_scroll: u16,
    stick_to_bottom: bool,
    last_log_height: u16,
    follower: Option<String>,
    tasks: Vec<TaskRuntime>,
    containers: Vec<(ContainerSummary, Vec<Port>)>,
    refreshing: bool,
    list_selected: Option<usize>,
    list_offset: usize,
    list_area: Area,
    popup: Option<Popup>,
    pending: Pending,
}

impl DeepView for App {
    type V = AppView;

    closed spec fn deep_view(&self) -> AppView {
        AppView {
            cfg: self.cfg.deep_view(),
            docker: self.docker.deep_view(),
            items: self.items.deep_view(),
            selected: self.selected as int,
            focus_on_list: self.focus_on_list,
            current_target: self.current_target.deep_view(),
            log: self.log_lines@,
            log_cap: self.log_lines.capacity(),
            log_scroll: self.log_scroll,
            stick_to_bottom: self.stick_to_bottom,
            last_log_height: self.last_log_height,
            follower: self.follower.deep_view(),
            tasks: self.tasks.deep_view(),
            containers: self.containers.deep_view(),
            refreshing: self.refreshing,
            list_selected: match self.list_selected {
                Some(i) => Some(i as int),
                None => None,
            },
            list_offset: self.list_offset as int,
            list_area: self.list_area,
            popup: self.popup.deep_view(),
            pending: self.pending.deep_view(),
        }
    }
}

/// The step that leads to state `app` with outcome `out`.
pub open spec fn step_of(app: &App, out: &Outcome) -> StepView {
    StepView { app: app.deep_view(), commands: out.commands.deep_view(), quit: out.quit }
}

fn no_commands() -> (r: Vec<Command>)
    ensures
        r.deep_view() == Seq::<CommandView>::empty(),
{
    let r: Vec<Command> = Vec::new();
    assert(r.deep_view() =~= Seq::<CommandView>::empty());
    r
}

fn push_command(out: &mut Vec<Command>, c: Command)
    ensures
        final(out).deep_view() == old(out).deep_view().push(c.deep_view()),
{
    let ghost shown = c.deep_view();
    out.push(c);
    assert(final(out).deep_view() =~= old(out).deep_view().push(shown));
}

fn build_runtimes(specs: &Vec<TaskSpec>, max_lines: usize) -> (r: Vec<TaskRuntime>)
    ensures
        r.deep_view() == runtimes(specs.deep_view(), max_lines as nat),
{
    let ghost sv = specs.deep_view();
    let mut tasks: Vec<TaskRuntime> = Vec::new();
    let mut i: usize = 0;
    assert(sv.take(0) =~= Seq::empty());
    assert(tasks.deep_view() =~= runtimes(sv.take(0), max_lines as nat));
    while i < specs.len()
        invariant
            i <= specs.len(),
            sv == specs.deep_view(),
            tasks.deep_view() == runtimes(sv.take(i as int), max_lines as nat),
        decreases specs.len() - i,
    {
        proof {
            assert(sv.take(i as int + 1).drop_last() =~= sv.take(i as int));
            assert(sv.take(i as int + 1).last() == specs[i as int].deep_view());
        }
        let ghost before = tasks.deep_view();
        let fresh = TaskRuntime::new(specs[i].clone(), max_lines);
        let ghost shown = fresh.deep_view();
        match find_task(&tasks, specs[i].name.as_str()) {
            Some(k) => {
                tasks[k] = fresh;
                assert(tasks.deep_view() =~= before.update(k as int, shown));
            },
            None => {
                tasks.push(fresh);
                assert(tasks.deep_view() =~= before.push(shown));
            },
        }
        i += 1;
    }
    assert(sv.take(specs.len() as int) =~= sv);
    tasks
}

fn names_of(specs: &Vec<TaskSpec>) -> (r: String)
    ensures
        r@ == task_names(specs.deep_view()),
{
    if specs.len() == 0 {
        return "(none)".to_owned();
    }
    let ghost sv = specs.deep_view();
    let mut names: Vec<String> = Vec::new();
    let mut i: usize = 0;
    while i < specs.len()
        invariant
            i <= specs.len(),
            sv == specs.deep_view(),
            names.deep_view() =~= Seq::new(i as nat, |k: int| sv[k].name),
        decreases specs.len() - i,
    {
        let ghost before = names.deep_view();
        push_line(&mut names, specs[i].name.clone());
        assert(sv[i as int] == specs[i as int].deep_view());
        i += 1;
    }
    join_lines(&names, ", ")
}

impl App {
    /// The controller obeys its invariant.
    pub open spec fn wf(&self) -> bool {
        self.deep_view().wf()
    }

    /// The controller in its first state: every task pending, nothing
    /// selected, and the configuration summarised in the visible log.
    pub fn new(cfg: Config, docker: DockerMeta) -> (r: Self)
        ensures
            r.deep_view() == initial(cfg.deep_view(), docker.deep_view()),
            r.wf(),
    {
        let tasks = build_runtimes(&cfg.post_up_tasks, cfg.max_log_lines);
        let mut lines: Vec<String> = Vec::new();
        assert(lines.deep_view() =~= Seq::<Seq<char>>::empty());
        push_line(&mut lines, join2("Profile: ", cfg.profile.as_str()));
        let mut second = join3("Docker backend: ", docker.backend.as_str(), " | Context: ");
        second.append(docker.context_name.as_str());
        push_line(&mut lines, second);
        let names = names_of(&cfg.post_up_tasks);
        push_line(&mut lines, join2("Post-up tasks: ", names.as_str()));
        assert(lines.deep_view() =~= opening_lines(cfg.deep_view(), docker.deep_view()));
        let mut log_lines = LogBuffer::new(cfg.max_log_lines);
        log_lines.replace(lines);
        let items: Vec<UiItem> = Vec::new();
        let containers: Vec<(ContainerSummary, Vec<Port>)> = Vec::new();
        assert(items.deep_view() =~= Seq::empty());
        assert(containers.deep_view() =~= Seq::empty());
        proof {
            lemma_initial_wf(cfg.deep_view(), docker.deep_view());
        }
        App {
            cfg,
            docker,
            items,
            selected: 0,
            focus_on_list: true,
            current_target: None,
            log_lines,
            log_scroll: 0,
            stick_to_bottom: true,
            last_log_height: 0,
            follower: None,
            tasks,
            containers,
            refreshing: false,
            list_selected: None,
            list_offset: 0,
            list_area: Area { x: 0, y: 0, width: 0, height: 0 },
            popup: None,
            pending: Pending::Idle,
        }
    }

    /// Whether the snapshot holds the database or the storage container.
    pub fn infra_already_up(&self) -> (r: bool)
        ensures
            r == self.deep_view().infra_up(),
    {
        let ghost cv = self.containers.deep_view();
        let mut i: usize = 0;
        while i < self.containers.len()
            invariant
                i <= self.containers.len(),
                cv == self.containers.deep_view(),
                forall|k: int|
                    0 <= k < i ==> !(crate::docker::display_name((#[trigger] cv[k]).0.names)
                        == self.cfg.db_container@ || crate::docker::display_name(cv[k].0.names)
                        == self.cfg.storage_container@),
            decreases self.containers.len() - i,
        {
            let name = container_name(self.containers[i].0.names.as_str());
            proof {
                assert(cv[i as int] == self.containers[i as int].deep_view());
            }
            if str_eq(name.as_str(), self.cfg.db_container.as_str()) || str_eq(
                name.as_str(),
                self.cfg.storage_container.as_str(),
            ) {
                proof {
                    let k = i as int;
                    assert(self.deep_view().containers[k] == cv[k]);
                }
                return true;
            }
            i += 1;
        }
        false
    }

    /// Builds the rows anew from the tasks and the last snapshot, and pulls
    /// the cursor back into them.
    pub fn rebuild_items(&mut self)
        ensures
            final(self).deep_view() == old(self).deep_view().rebuild(),
            old(self).wf() ==> final(self).wf(),
    {
        proof {
            if self.wf() {
                lemma_rebuild_wf(self.deep_view());
            }
        }
        self.items = make_rows(&self.cfg.post_up_tasks, &self.tasks, &self.containers);
        if self.selected >= self.items.len() {
            self.selected = if self.items.len() == 0 {
                0
            } else {
                self.items.len() - 1
            };
        }
    }

    /// Moves the keyboard focus to the list or to the log.
    pub fn set_focus(&mut self, list: bool)
        ensures
            final(self).deep_view() == (AppView { focus_on_list: list, ..old(self).deep_view() }),
            old(self).wf() ==> final(self).wf(),
    {
        self.focus_on_list = list;
    }

    /// Appends a line to the visible log; the oldest line goes when the log
    /// is full.
    pub fn push_current_log(&mut self, line: &str)
        ensures
            final(self).deep_view() == old(self).deep_view().push_log(line@),
            old(self).wf() ==> final(self).wf(),
    {
        self.log_lines.push(line.to_owned());
    }

    /// Replaces the visible log and scrolls to its end.
    pub fn replace_current_logs(&mut self, all: Vec<String>)
        ensures
            final(self).deep_view() == old(self).deep_view().replace_logs(all.deep_view()),
            old(self).wf() ==> final(self).wf(),
    {
        self.log_lines.replace(all);
        self.stick_to_bottom = true;
    }
}

impl App {
    /// Whether the controller waits for an answer from the host.
    pub fn is_waiting(&self) -> (r: bool)
        ensures
            r == !(self.deep_view().pending is Idle),
    {
        match &self.pending {
            Pending::Idle => false,
            _ => true,
        }
    }

    /// A copy of the stored history of the task called `name`.
    fn history_of(&self, name: &str) -> (r: Vec<String>)
        ensures
            r.deep_view() == self.deep_view().history_of(name@),
    {
        match find_task(&self.tasks, name) {
            Some(i) => self.tasks[i].history(),
            None => {
                let r: Vec<String> = Vec::new();
                assert(r.deep_view() =~= Seq::<Seq<char>>::empty());
                r
            },
        }
    }

    /// Whether the task called `name` is the current target.
    fn shows_task(&self, name: &str) -> (r: bool)
        ensures
            r == self.deep_view().shows_task(name@),
    {
        match &self.current_target {
            Some(TargetId::Task { name: shown }) => str_eq(shown.as_str(), name),
            _ => false,
        }
    }

    /// Shows the stored history of task `name` if that task is the current
    /// target.
    fn sync_visible(&mut self, name: &str)
        ensures
            final(self).deep_view() == old(self).deep_view().sync_visible(name@),
    {
        if self.shows_task(name) {
            let lines = self.history_of(name);
            self.replace_current_logs(lines);
        }
    }

    /// Appends `lines` to the visible log, in order.
    fn push_logs(&mut self, lines: Vec<String>)
        requires
            old(self).deep_view().log.len() <= old(self).deep_view().log_cap,
        ensures
            final(self).deep_view() == old(self).deep_view().push_logs(lines.deep_view()),
    {
        let ghost start = self.deep_view().log;
        let ghost cap = self.deep_view().log_cap;
        let ghost target = lines.deep_view();
        assert(start + target.take(0) =~= start);
        for line in it: lines
            invariant
                it.seq().len() == target.len(),
                forall|k: int| 0 <= k < target.len() ==> (#[trigger] it.seq()[k])@ == target[k],
                self.deep_view() == (AppView {
                    log: keep_last(start + target.take(it.index() as int), cap),
                    ..old(self).deep_view()
                }),
                self.deep_view().log_cap == cap,
        {
            proof {
                let sofar = start + target.take(it.index() as int);
                lemma_keep_last_push(sofar, line@, cap);
                assert(sofar.push(line@) =~= start + target.take(it.index() + 1));
            }
            self.log_lines.push(line);
        }
        assert(target.take(target.len() as int) =~= target);
    }

    /// The switch-over to row `idx`; see [`AppView::select`].
    #[verifier::rlimit(50)]
    fn select(&mut self, idx: usize) -> (cmds: Vec<Command>)
        requires
            old(self).wf(),
            old(self).deep_view().pending is Idle,
        ensures
            final(self).deep_view() == old(self).deep_view().select(idx as int).app,
            cmds.deep_view() == old(self).deep_view().select(idx as int).commands,
            final(self).wf(),
    {
        let mut cmds = no_commands();
        if self.items.len() == 0 {
            return cmds;
        }
        let sel = if idx < self.items.len() - 1 {
            idx
        } else {
            self.items.len() - 1
        };
        proof {
            lemma_select_wf(self.deep_view(), idx as int);
            assert(self.deep_view().items[sel as int] == self.items[sel as int].deep_view());
        }
        if self.follower.is_some() {
            push_command(&mut cmds, Command::KillFollower);
        }
        self.selected = sel;
        self.list_selected = Some(sel);
        self.follower = None;
        let kind = self.items[sel].kind;
        let id = self.items[sel].id.clone();
        self.current_target = Some(
            match kind {
                Kind::Task => TargetId::Task { name: id.clone() },
                Kind::Container => TargetId::Container { id: id.clone() },
            },
        );
        match kind {
            Kind::Task => {
                let lines = self.history_of(id.as_str());
                self.replace_current_logs(lines);
            },
            Kind::Container => {
                let mut lines: Vec<String> = Vec::new();
                assert(lines.deep_view() =~= Seq::<Seq<char>>::empty());
                push_line(
                    &mut lines,
                    join3("--- streaming logs for ", self.items[sel].name.as_str(), " ---"),
                );
                assert(lines.deep_view() =~= seq![banner(self.items[sel as int].name@)]);
                self.replace_current_logs(lines);
                push_command(&mut cmds, Command::SpawnFollower { id: id.clone(), tail: 200 });
                self.pending = Pending::Follower { id };
            },
        }
        cmds
    }

    /// Restarts task `name`; see [`AppView::run_task`].
    fn run_task(&mut self, task_name: &str) -> (cmds: Vec<Command>)
        requires
            old(self).wf(),
            old(self).deep_view().pending is Idle,
        ensures
            final(self).deep_view() == old(self).deep_view().run_task(task_name@).app,
            cmds.deep_view() == old(self).deep_view().run_task(task_name@).commands,
            final(self).wf(),
    {
        let mut cmds = no_commands();
        proof {
            lemma_run_task_wf(self.deep_view(), task_name@);
        }
        match find_task(&self.tasks, task_name) {
            Some(i) => {
                let ghost before = self.tasks.deep_view();
                let cmd = self.tasks[i].cmd().clone();
                let kill = self.tasks[i].restart();
                assert(self.tasks.deep_view() =~= before.update(
                    i as int,
                    before[i as int].step(TaskStep::Restart),
                ));
                if kill {
                    push_command(&mut cmds, Command::KillTask { name: task_name.to_owned() });
                }
                push_command(&mut cmds, Command::SpawnTask { name: task_name.to_owned(), cmd });
                self.pending = Pending::Task { name: task_name.to_owned() };
            },
            None => {},
        }
        cmds
    }

    /// Applies `step` to the task at position `i`.
    fn step_task(&mut self, name: &str, started: bool, reason: &str)
        requires
            old(self).wf(),
        ensures
            final(self).deep_view() == old(self).deep_view().task_step(
                name@,
                if started {
                    TaskStep::Started
                } else {
                    TaskStep::SpawnFailed(reason@)
                },
            ),
    {
        match find_task(&self.tasks, name) {
            Some(i) => {
                let ghost before = self.tasks.deep_view();
                if started {
                    self.tasks[i].started();
                    assert(self.tasks.deep_view() =~= before.update(
                        i as int,
                        before[i as int].step(TaskStep::Started),
                    ));
                } else {
                    self.tasks[i].spawn_failed(reason);
                    assert(self.tasks.deep_view() =~= before.update(
                        i as int,
                        before[i as int].step(TaskStep::SpawnFailed(reason@)),
                    ));
                }
            },
            None => {},
        }
    }

    /// Stops task `name` on request; see [`AppView::stop_task`].
    fn stop_task(&mut self, task_name: &str) -> (cmds: Vec<Command>)
        requires
            old(self).wf(),
        ensures
            final(self).deep_view() == old(self).deep_view().stop_task(task_name@).app,
            cmds.deep_view() == old(self).deep_view().stop_task(task_name@).commands,
            final(self).wf(),
    {
        let mut cmds = no_commands();
        proof {
            lemma_stop_task_wf(self.deep_view(), task_name@);
        }
        match find_task(&self.tasks, task_name) {
            Some(i) => {
                let ghost before = self.tasks.deep_view();
                let kill = self.tasks[i].stop();
                assert(self.tasks.deep_view() =~= before.update(
                    i as int,
                    before[i as int].step(TaskStep::Stop),
                ));
                if kill {
                    push_command(&mut cmds, Command::KillTask { name: task_name.to_owned() });
                }
                self.sync_visible(task_name);
            },
            None => {},
        }
        cmds
    }

    /// Applies one report from a task's process; see [`AppView::signal`].
    #[verifier::rlimit(50)]
    fn apply_signal(&mut self, sig: &TaskSignal)
        requires
            old(self).wf(),
        ensures
            final(self).deep_view() == old(self).deep_view().signal(sig.deep_view()),
            final(self).wf(),
    {
        proof {
            lemma_signal_wf(self.deep_view(), sig.deep_view());
        }
        match sig {
            TaskSignal::Line { name, line } => {
                match find_task(&self.tasks, name.as_str()) {
                    Some(i) => {
                        let ghost before = self.tasks.deep_view();
                        let stored = self.tasks[i].record_line(line.as_str());
                        assert(self.tasks.deep_view() =~= before.update(
                            i as int,
                            before[i as int].step(TaskStep::Line(line@)),
                        ));
                        match stored {
                            Some(full) => {
                                if self.shows_task(name.as_str()) {
                                    self.log_lines.push(full);
                                }
                            },
                            None => {
                                assert(self.tasks.deep_view() =~= before);
                            },
                        }
                    },
                    None => {},
                }
            },
            TaskSignal::Exited { name, code } => {
                match find_task(&self.tasks, name.as_str()) {
                    Some(i) => {
                        let ghost before = self.tasks.deep_view();
                        let marker = self.tasks[i].record_exit(*code);
                        assert(self.tasks.deep_view() =~= before.update(
                            i as int,
                            before[i as int].step(TaskStep::Exited(*code as int)),
                        ));
                        match marker {
                            Some(line) => {
                                if self.shows_task(name.as_str()) {
                                    self.log_lines.push(line);
                                }
                            },
                            None => {
                                assert(self.tasks.deep_view() =~= before);
                            },
                        }
                    },
                    None => {},
                }
            },
        }
    }

    /// One drain of the background channels: the lines the follower of
    /// container `follower_id` delivered, then the reports of the tasks'
    /// processes, in the order given. See [`AppView::pump`].
    #[verifier::rlimit(50)]
    pub fn pump_background(
        &mut self,
        follower_id: &str,
        follower_lines: Vec<String>,
        signals: Vec<TaskSignal>,
    )
        requires
            old(self).wf(),
        ensures
            final(self).deep_view() == old(self).deep_view().pump(
                follower_id@,
                follower_lines.deep_view(),
                signals.deep_view(),
            ),
            final(self).wf(),
    {
        let live = match &self.follower {
            Some(id) => str_eq(id.as_str(), follower_id),
            None => false,
        };
        if live {
            self.push_logs(follower_lines);
        }
        let ghost mid = self.deep_view();
        let ghost sv = signals.deep_view();
        proof {
            lemma_pump_wf(old(self).deep_view(), follower_id@, follower_lines.deep_view(), sv);
            assert(mid.wf());
            assert(sv.take(0) =~= Seq::<TaskSignalView>::empty());
        }
        let mut i: usize = 0;
        while i < signals.len()
            invariant
                i <= signals.len(),
                sv == signals.deep_view(),
                mid.wf(),
                self.wf(),
                self.deep_view() == mid.signals(sv.take(i as int)),
            decreases signals.len() - i,
        {
            proof {
                assert(sv.take(i as int + 1).drop_last() =~= sv.take(i as int));
                assert(sv.take(i as int + 1).last() == signals[i as int].deep_view());
            }
            self.apply_signal(&signals[i]);
            i += 1;
        }
        assert(sv.take(signals.len() as int) =~= sv);
    }

    /// A timer tick: starts a background fetch unless one is in flight, a
    /// dialog is open, the engine is unreachable or the controller waits.
    pub fn tick(&mut self) -> (out: Outcome)
        requires
            old(self).wf(),
        ensures
            step_of(final(self), &out) == old(self).deep_view().tick(),
            final(self).wf(),
    {
        let mut commands = no_commands();
        if self.docker.available && self.popup.is_none() && !self.refreshing && !self.is_waiting() {
            self.refreshing = true;
            push_command(&mut commands, Command::StartFetch);
            assert(commands.deep_view() =~= seq![CommandView::StartFetch]);
        }
        Outcome { commands, quit: false }
    }

    /// The result of a background fetch has arrived: the in-flight mark is
    /// cleared and, if there is a snapshot, it replaces the last one.
    pub fn refresh_done(&mut self, result: Option<Snapshot>)
        requires
            old(self).wf(),
        ensures
            final(self).deep_view() == old(self).deep_view().refresh_done(result.deep_view()),
            final(self).wf(),
    {
        self.refreshing = false;
        match result {
            Some(containers) => {
                self.containers = containers;
                proof {
                    lemma_rebuild_wf(self.deep_view());
                }
                self.rebuild_items();
            },
            None => {
                self.push_current_log("Refresh failed");
            },
        }
    }
}

fn text_vec2(a: &str, b: &str) -> (r: Vec<String>)
    ensures
        r.deep_view() == seq![a@, b@],
{
    let mut v: Vec<String> = Vec::new();
    assert(v.deep_view() =~= Seq::<Seq<char>>::empty());
    push_line(&mut v, a.to_owned());
    push_line(&mut v, b.to_owned());
    assert(v.deep_view() =~= seq![a@, b@]);
    v
}

fn exit_text(code: i32) -> (r: String)
    ensures
        r@ == crate::text::decimal_int(code as int),
{
    i64_to_string(code as i64)
}

/// The verb and the announcement of the container action bound to a key, and
/// whether the row is selected again afterwards.
fn verb_for(c: char) -> (r: Option<(&'static str, &'static str, bool)>)
    ensures
        match r {
            Some((verb, says, reselect)) => crate::state::container_verb(c) == Some(
                (verb@, says@, reselect),
            ),
            None => crate::state::container_verb(c) is None,
        },
{
    if c == 'r' {
        Some(("restart", "Restarting container ", true))
    } else if c == 's' {
        Some(("stop", "Stopping container ", false))
    } else if c == 't' {
        Some(("start", "Starting container ", true))
    } else if c == 'p' {
        Some(("pause", "Pausing container ", false))
    } else if c == 'u' {
        Some(("unpause", "Unpausing container ", false))
    } else if c == 'k' {
        Some(("kill", "Killing container ", false))
    } else {
        None
    }
}

fn make_reset_report(id: &str, volumes: &Vec<String>, errors: &Vec<Option<String>>) -> (r: Vec<
    String,
>)
    ensures
        r.deep_view() == crate::state::reset_report(id@, volumes.deep_view(), errors.deep_view()),
{
    let ghost vv = volumes.deep_view();
    let ghost ev = errors.deep_view();
    let mut out = text_vec2(
        join3("Inspecting ", id, "...").as_str(),
        join3("Removing container ", id, "...").as_str(),
    );
    let ghost head = out.deep_view();
    let mut k: usize = 0;
    assert(vv.take(0) =~= Seq::<Seq<char>>::empty());
    assert(out.deep_view() =~= head + crate::state::volume_report(vv.take(0), ev));
    while k < volumes.len()
        invariant
            k <= volumes.len(),
            vv == volumes.deep_view(),
            ev == errors.deep_view(),
            out.deep_view() == head + crate::state::volume_report(vv.take(k as int), ev),
        decreases volumes.len() - k,
    {
        proof {
            assert(vv.take(k as int + 1).drop_last() =~= vv.take(k as int));
            assert(vv.take(k as int + 1).last() == volumes[k as int]@);
            assert(vv.take(k as int + 1).len() - 1 == k);
            if k < errors.len() {
                assert(ev[k as int] == errors[k as int].deep_view());
            }
        }
        let v = volumes[k].as_str();
        push_line(&mut out, join3("Removing volume ", v, "..."));
        if k < errors.len() {
            match &errors[k] {
                Some(e) => {
                    let mut line = join3("Failed to remove volume ", v, ": ");
                    line.append(e.as_str());
                    push_line(&mut out, line);
                },
                None => {},
            }
        }
        assert(out.deep_view() =~= head + crate::state::volume_report(vv.take(k as int + 1), ev));
        k += 1;
    }
    assert(vv.take(volumes.len() as int) =~= vv);
    push_line(&mut out, join2("\u{2705} Reset complete for ", id));
    assert(out.deep_view() =~= crate::state::reset_report(id@, vv, ev));
    out
}

impl App {
    /// Asks the host for a snapshot now.
    fn begin_fetch(&mut self, reselect: bool, startup: bool) -> (cmds: Vec<Command>)
        requires
            old(self).wf(),
            old(self).deep_view().pending is Idle,
        ensures
            final(self).deep_view() == old(self).deep_view().begin_fetch(reselect, startup).app,
            cmds.deep_view() == old(self).deep_view().begin_fetch(reselect, startup).commands,
            final(self).wf(),
    {
        let mut cmds = no_commands();
        push_command(&mut cmds, Command::Fetch);
        assert(cmds.deep_view() =~= seq![CommandView::Fetch]);
        self.pending = Pending::Fetch { reselect, startup };
        cmds
    }

    /// Opens the compose dialog.
    fn offer_compose(&mut self)
        ensures
            final(self).deep_view() == old(self).deep_view().offer_compose(),
    {
        let infra_running = self.infra_already_up();
        self.popup = Some(Popup::ConfirmComposeRestart { infra_running });
    }

    /// What follows a snapshot; see [`AppView::after_fetch`].
    #[verifier::rlimit(50)]
    fn after_fetch(&mut self, result: Option<Snapshot>, reselect: bool, startup: bool) -> (cmds:
        Vec<Command>)
        requires
            old(self).wf(),
            old(self).deep_view().pending is Idle,
        ensures
            final(self).deep_view() == old(self).deep_view().after_fetch(
                result.deep_view(),
                reselect,
                startup,
            ).app,
            cmds.deep_view() == old(self).deep_view().after_fetch(
                result.deep_view(),
                reselect,
                startup,
            ).commands,
            final(self).wf(),
    {
        proof {
            lemma_after_fetch_wf(self.deep_view(), result.deep_view(), reselect, startup);
            lemma_rebuild_wf(self.deep_view().with_snapshot(result.deep_view()));
        }
        match result {
            Some(containers) => {
                self.containers = containers;
            },
            None => {
                self.push_current_log("Refresh failed");
            },
        }
        self.rebuild_items();
        if startup {
            let cmds = self.select(0);
            if self.cfg.auto_compose_up {
                self.offer_compose();
            }
            cmds
        } else if reselect {
            self.select(self.selected)
        } else {
            no_commands()
        }
    }

    /// Starts the dashboard; see [`AppView::start`].
    pub fn start(&mut self) -> (out: Outcome)
        requires
            old(self).wf(),
        ensures
            step_of(final(self), &out) == old(self).deep_view().start(),
            final(self).wf(),
    {
        if self.is_waiting() {
            return Outcome { commands: no_commands(), quit: false };
        }
        if self.docker.available {
            let commands = self.begin_fetch(false, true);
            Outcome { commands, quit: false }
        } else {
            self.push_current_log(
                "Docker unavailable. Colima: colima start ; docker context use colima ; docker ps",
            );
            proof {
                lemma_rebuild_wf(self.deep_view());
            }
            self.rebuild_items();
            Outcome { commands: no_commands(), quit: false }
        }
    }

    /// Starts a compose run; see [`AppView::compose`].
    fn compose(&mut self, stage: ComposeStage) -> (cmds: Vec<Command>)
        requires
            old(self).wf(),
            old(self).deep_view().pending is Idle,
        ensures
            final(self).deep_view() == old(self).deep_view().compose(stage).app,
            cmds.deep_view() == old(self).deep_view().compose(stage).commands,
            final(self).wf(),
    {
        let mut args: Vec<String> = Vec::new();
        assert(args.deep_view() =~= Seq::<Seq<char>>::empty());
        push_line(&mut args, "compose".to_owned());
        push_line(&mut args, "--profile".to_owned());
        push_line(&mut args, self.cfg.compose_profile.clone());
        match stage {
            ComposeStage::Restart => {
                push_line(&mut args, "restart".to_owned());
            },
            _ => {
                push_line(&mut args, "up".to_owned());
                push_line(&mut args, "-d".to_owned());
            },
        }
        assert(args.deep_view() =~= crate::state::compose_args(
            self.cfg.compose_profile@,
            if stage == ComposeStage::Restart {
                seq!["restart"@]
            } else {
                seq!["up"@, "-d"@]
            },
        ));
        let mut cmds = no_commands();
        push_command(&mut cmds, Command::Compose { args });
        assert(cmds.deep_view() =~= old(self).deep_view().compose(stage).commands);
        self.pending = Pending::Compose { stage };
        cmds
    }

    /// Brings the stack up, or restarts it when it is up already; see
    /// [`AppView::compose_up_or_restart`].
    fn compose_up_or_restart(&mut self, restart: bool) -> (cmds: Vec<Command>)
        requires
            old(self).wf(),
            old(self).deep_view().pending is Idle,
        ensures
            final(self).deep_view() == old(self).deep_view().compose_up_or_restart(restart).app,
            cmds.deep_view() == old(self).deep_view().compose_up_or_restart(restart).commands,
            final(self).wf(),
    {
        if restart {
            let line = join3(
                "Restarting services (profile: ",
                self.cfg.compose_profile.as_str(),
                ")...",
            );
            self.push_current_log(line.as_str());
            self.compose(ComposeStage::Restart)
        } else {
            let line = join3(
                "Starting services (profile: ",
                self.cfg.compose_profile.as_str(),
                ")...",
            );
            self.push_current_log(line.as_str());
            self.compose(ComposeStage::Up)
        }
    }

    /// What follows a compose run; see [`AppView::after_compose`].
    fn after_compose(&mut self, stage: ComposeStage, code: i32) -> (cmds: Vec<Command>)
        requires
            old(self).wf(),
            old(self).deep_view().pending is Idle,
        ensures
            final(self).deep_view() == old(self).deep_view().after_compose(stage, code).app,
            cmds.deep_view() == old(self).deep_view().after_compose(stage, code).commands,
            final(self).wf(),
    {
        let digits = exit_text(code);
        match stage {
            ComposeStage::Restart => {
                if code != 0 {
                    let line = join3(
                        "Restart failed (exit ",
                        digits.as_str(),
                        ") \u{2192} fallback: up -d",
                    );
                    self.push_current_log(line.as_str());
                    self.compose(ComposeStage::Fallback)
                } else {
                    self.push_current_log("Compose restart OK");
                    self.begin_fetch(true, false)
                }
            },
            ComposeStage::Fallback => {
                if code != 0 {
                    let line = join3("Compose up failed (exit ", digits.as_str(), ")");
                    self.push_current_log(line.as_str());
                } else {
                    self.push_current_log("Compose up OK");
                }
                self.begin_fetch(true, false)
            },
            ComposeStage::Up => {
                if code != 0 {
                    let line = join3("Compose up FAILED (exit ", digits.as_str(), ")");
                    self.push_current_log(line.as_str());
                } else {
                    self.push_current_log("Compose up OK");
                }
                self.begin_fetch(true, false)
            },
        }
    }

    /// Opens the web page of the container under the cursor; see
    /// [`AppView::open_selected_in_browser`].
    #[verifier::rlimit(50)]
    fn open_selected_in_browser(&mut self) -> (cmds: Vec<Command>)
        requires
            old(self).wf(),
        ensures
            final(self).deep_view() == old(self).deep_view().open_selected_in_browser().app,
            cmds.deep_view() == old(self).deep_view().open_selected_in_browser().commands,
            final(self).wf(),
    {
        let mut cmds = no_commands();
        if self.selected >= self.items.len() {
            return cmds;
        }
        let item = &self.items[self.selected];
        proof {
            assert(self.deep_view().items[self.selected as int] == item.deep_view());
        }
        match item.kind {
            Kind::Task => {},
            Kind::Container => {
                match pick_best_public_port(&item.ports) {
                    Some(port) => {
                        let mut url = if self.docker.remote_host.as_str().unicode_len() == 0 {
                            join2("http://", "localhost")
                        } else {
                            join2("http://", self.docker.remote_host.as_str())
                        };
                        url.append(":");
                        url.append(u64_to_string(port as u64).as_str());
                        push_command(&mut cmds, Command::OpenUrl { url });
                        assert(cmds.deep_view() =~= old(
                            self,
                        ).deep_view().open_selected_in_browser().commands);
                    },
                    None => {
                        let line = join2("No public tcp port for ", item.name.as_str());
                        self.push_current_log(line.as_str());
                    },
                }
            },
        }
        cmds
    }

    /// The answer to a request for a task's process; see
    /// [`AppView::answer_task`].
    #[verifier::rlimit(50)]
    fn answer_task(&mut self, name: String, reply: Reply) -> (cmds: Vec<Command>)
        requires
            old(self).wf(),
            old(self).deep_view().pending is Idle,
        ensures
            final(self).deep_view() == old(self).deep_view().answer_task(
                name@,
                reply.deep_view(),
            ).app,
            cmds.deep_view() == old(self).deep_view().answer_task(
                name@,
                reply.deep_view(),
            ).commands,
            final(self).wf(),
    {
        proof {
            lemma_answer_task_wf(self.deep_view(), name@, reply.deep_view());
        }
        match reply {
            Reply::Started => {
                proof {
                    lemma_task_step_wf(self.deep_view(), name@, TaskStep::Started);
                }
                self.step_task(name.as_str(), true, "");
            },
            Reply::SpawnFailed { reason } => {
                proof {
                    lemma_task_step_wf(self.deep_view(), name@, TaskStep::SpawnFailed(reason@));
                }
                self.step_task(name.as_str(), false, reason.as_str());
            },
            _ => {
                let none = String::new();
                proof {
                    lemma_task_step_wf(
                        self.deep_view(),
                        name@,
                        TaskStep::SpawnFailed(Seq::empty()),
                    );
                }
                self.step_task(name.as_str(), false, none.as_str());
            },
        }
        self.sync_visible(name.as_str());
        proof {
            lemma_rebuild_wf(self.deep_view());
        }
        self.rebuild_items();
        self.select(self.selected)
    }

    /// The answer to an inspection asked for to show a container; see
    /// [`AppView::answer_inspect`].
    fn answer_inspect(&mut self, name: String, reply: Reply)
        requires
            old(self).wf(),
            old(self).deep_view().pending is Idle,
        ensures
            quiet(final(self).deep_view()) == old(self).deep_view().answer_inspect(
                name@,
                reply.deep_view(),
            ),
            final(self).wf(),
    {
        let doc = match reply {
            Reply::Output { text: Some(t) } => parse_json(t.as_str()),
            _ => None,
        };
        match doc {
            Some(doc) => {
                let content = format_container_info(&doc);
                self.popup = Some(
                    Popup::Inspect { title: join2("Inspect: ", name.as_str()), content },
                );
            },
            None => {
                self.push_current_log("Inspect failed");
            },
        }
    }

    /// The answer to the inspection that opens a reset; see
    /// [`AppView::answer_reset_inspect`].
    fn answer_reset_inspect(&mut self, id: String, reply: Reply) -> (cmds: Vec<Command>)
        requires
            old(self).wf(),
            old(self).deep_view().pending is Idle,
        ensures
            final(self).deep_view() == old(self).deep_view().answer_reset_inspect(
                id@,
                reply.deep_view(),
            ).app,
            cmds.deep_view() == old(self).deep_view().answer_reset_inspect(
                id@,
                reply.deep_view(),
            ).commands,
            final(self).wf(),
    {
        let doc = match reply {
            Reply::Output { text: Some(t) } => parse_json(t.as_str()),
            _ => None,
        };
        match doc {
            Some(doc) => {
                let volumes = inspect_volumes(&doc);
                let mut cmds = no_commands();
                push_command(&mut cmds, Command::Engine { args: text_vec2("stop", id.as_str()) });
                push_command(&mut cmds, Command::RemoveForce { id: id.clone() });
                assert(cmds.deep_view() =~= seq![
                    CommandView::Engine { args: seq!["stop"@, id@] },
                    CommandView::RemoveForce { id: id@ },
                ]);
                self.pending = Pending::ResetRemove { id, volumes };
                cmds
            },
            None => {
                self.push_current_log(join2("Reset failed: ", "Inspect failed").as_str());
                self.begin_fetch(true, false)
            },
        }
    }

    /// The answer to the forced removal in a reset; see
    /// [`AppView::answer_reset_remove`].
    fn answer_reset_remove(&mut self, id: String, volumes: Vec<String>, reply: Reply) -> (cmds:
        Vec<Command>)
        requires
            old(self).wf(),
            old(self).deep_view().pending is Idle,
        ensures
            final(self).deep_view() == old(self).deep_view().answer_reset_remove(
                id@,
                volumes.deep_view(),
                reply.deep_view(),
            ).app,
            cmds.deep_view() == old(self).deep_view().answer_reset_remove(
                id@,
                volumes.deep_view(),
                reply.deep_view(),
            ).commands,
            final(self).wf(),
    {
        match reply {
            Reply::Done { ok: true } => {
                let mut cmds = no_commands();
                let names = volumes.clone();
                assert(names.deep_view() =~= volumes.deep_view());
                push_command(&mut cmds, Command::RemoveVolumes { names });
                assert(cmds.deep_view() =~= seq![
                    CommandView::RemoveVolumes { names: volumes.deep_view() },
                ]);
                self.pending = Pending::ResetVolumes { id, volumes };
                cmds
            },
            _ => {
                let why = join3("docker ", "rm -f", " failed");
                let line = join2("Reset failed: ", why.as_str());
                self.push_current_log(line.as_str());
                self.begin_fetch(true, false)
            },
        }
    }

    /// The answer to the removal of the volumes in a reset; see
    /// [`AppView::answer_reset_volumes`].
    fn answer_reset_volumes(&mut self, id: String, volumes: Vec<String>, reply: Reply) -> (cmds:
        Vec<Command>)
        requires
            old(self).wf(),
            old(self).deep_view().pending is Idle,
        ensures
            final(self).deep_view() == old(self).deep_view().answer_reset_volumes(
                id@,
                volumes.deep_view(),
                reply.deep_view(),
            ).app,
            cmds.deep_view() == old(self).deep_view().answer_reset_volumes(
                id@,
                volumes.deep_view(),
                reply.deep_view(),
            ).commands,
            final(self).wf(),
    {
        let report = match reply {
            Reply::VolumeErrors { errors } => make_reset_report(id.as_str(), &volumes, &errors),
            _ => {
                let none: Vec<Option<String>> = Vec::new();
                assert(none.deep_view() =~= Seq::<Option<Seq<char>>>::empty());
                make_reset_report(id.as_str(), &volumes, &none)
            },
        };
        self.push_logs(report);
        self.begin_fetch(true, false)
    }

    /// The answer to the command the controller waits on; see
    /// [`AppView::resume`].
    #[verifier::rlimit(50)]
    pub fn resume(&mut self, reply: Reply) -> (out: Outcome)
        requires
            old(self).wf(),
        ensures
            step_of(final(self), &out) == old(self).deep_view().resume(reply.deep_view()),
            final(self).wf(),
    {
        let mut pending = Pending::Idle;
        std::mem::swap(&mut self.pending, &mut pending);
        assert(self.deep_view() == old(self).deep_view().idle());
        let commands = match pending {
            Pending::Idle => no_commands(),
            Pending::Follower { id } => {
                self.answer_follower(id, reply);
                no_commands()
            },
            Pending::Task { name } => self.answer_task(name, reply),
            Pending::Fetch { reselect, startup } => {
                match reply {
                    Reply::Snapshot { containers } => self.after_fetch(containers, reselect, startup),
                    _ => self.after_fetch(None, reselect, startup),
                }
            },
            Pending::Compose { stage } => {
                match reply {
                    Reply::Exit { code } => self.after_compose(stage, code),
                    _ => self.after_compose(stage, 1),
                }
            },
            Pending::Action { what, reselect } => self.answer_action(what, reselect, reply),
            Pending::Inspect { name } => {
                self.answer_inspect(name, reply);
                no_commands()
            },
            Pending::ResetInspect { id } => self.answer_reset_inspect(id, reply),
            Pending::ResetRemove { id, volumes } => self.answer_reset_remove(id, volumes, reply),
            Pending::ResetVolumes { id, volumes } => self.answer_reset_volumes(id, volumes, reply),
        };
        Outcome { commands, quit: false }
    }
}

impl App {
    /// Scrolls the log down by `by` lines.
    fn scroll_down(&mut self, by: u16)
        ensures
            final(self).deep_view() == old(self).deep_view().scroll_down(by),
    {
        self.log_scroll = if self.log_scroll > u16::MAX - by {
            u16::MAX
        } else {
            self.log_scroll + by
        };
        let total: usize = self.log_lines.len() % 65536;
        if self.log_scroll as usize + self.last_log_height as usize >= total {
            self.stick_to_bottom = true;
        }
    }

    /// Scrolls the log up by `by` lines.
    fn scroll_up(&mut self, by: u16)
        ensures
            final(self).deep_view() == old(self).deep_view().scroll_up(by),
    {
        self.stick_to_bottom = false;
        self.log_scroll = if self.log_scroll < by {
            0
        } else {
            self.log_scroll - by
        };
    }

    /// What the renderer reports after drawing; see [`AppView::layout`].
    pub fn layout(&mut self, list_area: Area, list_offset: usize, log_height: u16)
        requires
            old(self).wf(),
        ensures
            final(self).deep_view() == old(self).deep_view().layout(
                list_area,
                list_offset as int,
                log_height,
            ),
            final(self).wf(),
    {
        self.list_area = list_area;
        self.list_offset = list_offset;
        self.last_log_height = log_height;
        let total: usize = self.log_lines.len() % 65536;
        let max_scroll: u16 = if total < log_height as usize {
            0
        } else {
            (total - log_height as usize) as u16
        };
        if self.stick_to_bottom || self.log_scroll > max_scroll {
            self.log_scroll = max_scroll;
        }
    }

    /// A key while a dialog is open; see [`AppView::popup_key`].
    #[verifier::rlimit(50)]
    fn popup_key(&mut self, code: KeyCode) -> (cmds: Vec<Command>)
        requires
            old(self).wf(),
            old(self).deep_view().pending is Idle,
            old(self).deep_view().popup is Some,
        ensures
            final(self).deep_view() == old(self).deep_view().popup_key(
                old(self).deep_view().popup->0,
                code,
            ).app,
            cmds.deep_view() == old(self).deep_view().popup_key(
                old(self).deep_view().popup->0,
                code,
            ).commands,
            final(self).wf(),
    {
        proof {
            lemma_popup_key_wf(self.deep_view(), self.deep_view().popup->0, code);
        }
        let mut popup: Option<Popup> = None;
        std::mem::swap(&mut self.popup, &mut popup);
        match popup {
            Some(Popup::Inspect { title, content }) => {
                match code {
                    KeyCode::Esc | KeyCode::Enter => {},
                    _ => {
                        self.popup = Some(Popup::Inspect { title, content });
                    },
                }
                no_commands()
            },
            Some(Popup::ConfirmReset { id, name }) => {
                match code {
                    KeyCode::Char('y') | KeyCode::Enter => {
                        let line = join3("\u{1F525} RESETTING ", name.as_str(), " (Stop+Rm+VolRm)...");
                        self.push_current_log(line.as_str());
                        let mut cmds = no_commands();
                        push_command(&mut cmds, Command::Inspect { id: id.clone() });
                        assert(cmds.deep_view() =~= seq![CommandView::Inspect { id: id@ }]);
                        self.pending = Pending::ResetInspect { id };
                        cmds
                    },
                    KeyCode::Esc | KeyCode::Char('n') => no_commands(),
                    _ => {
                        self.popup = Some(Popup::ConfirmReset { id, name });
                        no_commands()
                    },
                }
            },
            Some(Popup::ConfirmComposeRestart { infra_running }) => {
                match code {
                    KeyCode::Char('r') | KeyCode::Enter => self.compose_up_or_restart(infra_running),
                    KeyCode::Char('k') | KeyCode::Esc => no_commands(),
                    _ => {
                        self.popup = Some(Popup::ConfirmComposeRestart { infra_running });
                        no_commands()
                    },
                }
            },
            None => no_commands(),
        }
    }

    /// A navigation key while no dialog is open; see [`AppView::navigate`].
    #[verifier::rlimit(50)]
    fn navigate(&mut self, code: KeyCode) -> (cmds: Vec<Command>)
        requires
            old(self).wf(),
            old(self).deep_view().pending is Idle,
        ensures
            final(self).deep_view() == old(self).deep_view().navigate(code).app,
            cmds.deep_view() == old(self).deep_view().navigate(code).commands,
            final(self).wf(),
    {
        proof {
            lemma_navigate_wf(self.deep_view(), code);
        }
        if self.focus_on_list {
            match code {
                KeyCode::Up => {
                    if self.selected > 0 {
                        self.selected -= 1;
                    }
                    no_commands()
                },
                KeyCode::Down => {
                    if self.selected < self.items.len() && self.selected + 1 < self.items.len() {
                        self.selected += 1;
                    }
                    no_commands()
                },
                KeyCode::Enter => self.select(self.selected),
                _ => no_commands(),
            }
        } else {
            match code {
                KeyCode::Up => {
                    self.scroll_up(1);
                },
                KeyCode::Down => {
                    self.scroll_down(1);
                },
                KeyCode::PageUp => {
                    self.scroll_up(self.last_log_height);
                },
                KeyCode::PageDown => {
                    self.scroll_down(self.last_log_height);
                },
                KeyCode::Home => {
                    self.stick_to_bottom = false;
                    self.log_scroll = 0;
                },
                KeyCode::End => {
                    self.stick_to_bottom = true;
                },
                _ => {},
            }
            no_commands()
        }
    }

    /// A restart or start key on a task row; see
    /// [`AppView::restart_selected_task`].
    fn restart_selected_task(&mut self, name: &str) -> (cmds: Vec<Command>)
        requires
            old(self).wf(),
            old(self).deep_view().pending is Idle,
        ensures
            final(self).deep_view() == old(self).deep_view().restart_selected_task(name@).app,
            cmds.deep_view() == old(self).deep_view().restart_selected_task(name@).commands,
            final(self).wf(),
    {
        match find_task(&self.tasks, name) {
            Some(_) => self.run_task(name),
            None => {
                proof {
                    lemma_rebuild_wf(self.deep_view());
                }
                self.rebuild_items();
                self.select(self.selected)
            },
        }
    }

    /// A stop key on a task row; see [`AppView::stop_selected_task`].
    fn stop_selected_task(&mut self, name: &str) -> (cmds: Vec<Command>)
        requires
            old(self).wf(),
            old(self).deep_view().pending is Idle,
        ensures
            final(self).deep_view() == old(self).deep_view().stop_selected_task(name@).app,
            cmds.deep_view() == old(self).deep_view().stop_selected_task(name@).commands,
            final(self).wf(),
    {
        proof {
            lemma_stop_task_wf(self.deep_view(), name@);
        }
        let mut cmds = self.stop_task(name);
        proof {
            lemma_rebuild_wf(self.deep_view());
        }
        self.rebuild_items();
        let ghost first = cmds.deep_view();
        let mut more = self.select(self.selected);
        let ghost second = more.deep_view();
        cmds.append(&mut more);
        assert(cmds.deep_view() =~= first + second);
        cmds
    }

    /// An action on the container under the cursor, announced in the log
    /// and asked of the host; see [`AppView::container_action`].
    fn container_action(&mut self, says: String, what: &str, args: Vec<String>, reselect: bool) -> (cmds:
        Vec<Command>)
        requires
            old(self).wf(),
            old(self).deep_view().pending is Idle,
        ensures
            final(self).deep_view() == old(self).deep_view().container_action(
                says@,
                what@,
                args.deep_view(),
                reselect,
            ).app,
            cmds.deep_view() == old(self).deep_view().container_action(
                says@,
                what@,
                args.deep_view(),
                reselect,
            ).commands,
            final(self).wf(),
    {
        self.push_current_log(says.as_str());
        let mut cmds = no_commands();
        let ghost shown = args.deep_view();
        push_command(&mut cmds, Command::Action { args });
        assert(cmds.deep_view() =~= seq![CommandView::Action { args: shown }]);
        self.pending = Pending::Action { what: what.to_owned(), reselect };
        cmds
    }

    /// The answer to an engine action; see [`AppView::answer_action`].
    fn answer_action(&mut self, what: String, reselect: bool, reply: Reply) -> (cmds: Vec<Command>)
        requires
            old(self).wf(),
            old(self).deep_view().pending is Idle,
        ensures
            final(self).deep_view() == old(self).deep_view().answer_action(
                what@,
                reselect,
                reply.deep_view(),
            ).app,
            cmds.deep_view() == old(self).deep_view().answer_action(
                what@,
                reselect,
                reply.deep_view(),
            ).commands,
            final(self).wf(),
    {
        match reply {
            Reply::Done { ok: true } => {},
            _ => {
                let line = join3("docker ", what.as_str(), " failed");
                self.push_current_log(line.as_str());
            },
        }
        self.begin_fetch(reselect, false)
    }

    /// The answer to a request for a follower; see
    /// [`AppView::answer_follower`].
    fn answer_follower(&mut self, id: String, reply: Reply)
        requires
            old(self).wf(),
            old(self).deep_view().pending is Idle,
            old(self).deep_view().follower is None,
            old(self).deep_view().shows_container(id@),
        ensures
            quiet(final(self).deep_view()) == old(self).deep_view().answer_follower(
                id@,
                reply.deep_view(),
            ),
            final(self).wf(),
    {
        match reply {
            Reply::Started => {
                self.follower = Some(id);
            },
            Reply::SpawnFailed { reason } => {
                let line = join2("Log stream failed: ", reason.as_str());
                self.push_current_log(line.as_str());
            },
            _ => {
                let none = String::new();
                let line = join2("Log stream failed: ", none.as_str());
                self.push_current_log(line.as_str());
            },
        }
    }

    /// A letter key while no dialog is open; see [`AppView::action`].
    #[verifier::rlimit(50)]
    fn action(&mut self, c: char) -> (cmds: Vec<Command>)
        requires
            old(self).wf(),
            old(self).deep_view().pending is Idle,
        ensures
            final(self).deep_view() == old(self).deep_view().action(c).app,
            cmds.deep_view() == old(self).deep_view().action(c).commands,
            final(self).wf(),
    {
        proof {
            lemma_action_wf(self.deep_view(), c);
        }
        if c == 'o' {
            return self.open_selected_in_browser();
        }
        if c == 'c' {
            if self.docker.available {
                self.offer_compose();
            }
            return no_commands();
        }
        if self.selected >= self.items.len() {
            return no_commands();
        }
        proof {
            assert(self.deep_view().items[self.selected as int] == self.items[self.selected as int].deep_view());
        }
        let kind = self.items[self.selected].kind;
        let id = self.items[self.selected].id.clone();
        let name = self.items[self.selected].name.clone();
        match kind {
            Kind::Task => {
                if c == 'r' || c == 't' {
                    self.restart_selected_task(id.as_str())
                } else if c == 's' {
                    self.stop_selected_task(id.as_str())
                } else {
                    no_commands()
                }
            },
            Kind::Container => {
                if !self.docker.available {
                    no_commands()
                } else if c == 'i' {
                    let mut cmds = no_commands();
                    push_command(&mut cmds, Command::Inspect { id });
                    assert(cmds.deep_view() =~= old(self).deep_view().action(c).commands);
                    self.pending = Pending::Inspect { name };
                    cmds
                } else if c == 'x' {
                    self.popup = Some(Popup::ConfirmReset { id, name });
                    no_commands()
                } else if c == 'd' {
                    let mut args = text_vec2("rm", "-f");
                    push_line(&mut args, id);
                    assert(args.deep_view() =~= seq!["rm"@, "-f"@, id@]);
                    let says = join3("Removing container ", name.as_str(), " (force)...");
                    self.container_action(says, "rm -f", args, false)
                } else {
                    match verb_for(c) {
                        Some((verb, says, reselect)) => {
                            let args = text_vec2(verb, id.as_str());
                            let line = join3(says, name.as_str(), "...");
                            self.container_action(line, verb, args, reselect)
                        },
                        None => no_commands(),
                    }
                }
            },
        }
    }

    /// A mouse event; see [`AppView::mouse`].
    #[verifier::rlimit(50)]
    fn mouse(&mut self, kind: MouseKind, column: u16, row: u16) -> (cmds: Vec<Command>)
        requires
            old(self).wf(),
            old(self).deep_view().pending is Idle,
        ensures
            final(self).deep_view() == old(self).deep_view().mouse(kind, column, row).app,
            cmds.deep_view() == old(self).deep_view().mouse(kind, column, row).commands,
            final(self).wf(),
    {
        proof {
            lemma_mouse_wf(self.deep_view(), kind, column, row);
        }
        match kind {
            MouseKind::ScrollDown => {
                self.scroll_down(3);
                no_commands()
            },
            MouseKind::ScrollUp => {
                self.scroll_up(3);
                no_commands()
            },
            MouseKind::LeftDown => {
                let a = self.list_area;
                let inside = column >= a.x && (column as u32) < a.x as u32 + a.width as u32 && row
                    >= a.y && (row as u32) < a.y as u32 + a.height as u32;
                if inside {
                    self.set_focus(true);
                    let on_row = row > a.y && (row as u32) < a.y as u32 + a.height as u32 - 1;
                    let rel: usize = if on_row {
                        (row - a.y - 1) as usize
                    } else {
                        0
                    };
                    let rows = self.items.len();
                    if on_row && self.list_offset <= usize::MAX - rel && self.list_offset + rel
                        < rows {
                        let index = self.list_offset + rel;
                        self.select(index)
                    } else {
                        no_commands()
                    }
                } else {
                    self.set_focus(false);
                    no_commands()
                }
            },
            MouseKind::Other => no_commands(),
        }
    }

    /// The number of rows.
    pub fn item_count(&self) -> (r: usize)
        ensures
            r == self.deep_view().items.len(),
    {
        self.items.len()
    }

    /// The row at position `i`.
    pub fn item(&self, i: usize) -> (r: &UiItem)
        requires
            i < self.deep_view().items.len(),
        ensures
            r.deep_view() == self.deep_view().items[i as int],
    {
        &self.items[i]
    }

    /// The row the cursor is on.
    pub fn selected(&self) -> (r: usize)
        ensures
            r == self.deep_view().selected,
    {
        self.selected
    }

    /// The row the list highlights.
    pub fn highlighted(&self) -> (r: Option<usize>)
        ensures
            match r {
                Some(i) => self.deep_view().list_selected == Some(i as int),
                None => self.deep_view().list_selected is None,
            },
    {
        self.list_selected
    }

    /// Whether the list has the keyboard focus.
    pub fn focus_on_list(&self) -> (r: bool)
        ensures
            r == self.deep_view().focus_on_list,
    {
        self.focus_on_list
    }

    /// The task or the container whose log is shown.
    pub fn current_target(&self) -> (r: &Option<TargetId>)
        ensures
            r.deep_view() == self.deep_view().current_target,
    {
        &self.current_target
    }

    /// A copy of the visible log, oldest line first.
    pub fn log_lines(&self) -> (r: Vec<String>)
        ensures
            r.deep_view() == self.deep_view().log,
    {
        self.log_lines.snapshot()
    }

    /// The first visible line of the log.
    pub fn log_scroll(&self) -> (r: u16)
        ensures
            r == self.deep_view().log_scroll,
    {
        self.log_scroll
    }

    /// Whether the log view follows the end of the log.
    pub fn stick_to_bottom(&self) -> (r: bool)
        ensures
            r == self.deep_view().stick_to_bottom,
    {
        self.stick_to_bottom
    }

    /// The container whose log a live follower tails.
    pub fn follower(&self) -> (r: &Option<String>)
        ensures
            r.deep_view() == self.deep_view().follower,
    {
        &self.follower
    }

    /// Whether a background fetch is in flight.
    pub fn refreshing(&self) -> (r: bool)
        ensures
            r == self.deep_view().refreshing,
    {
        self.refreshing
    }

    /// The dialog in front of the dashboard, if any.
    pub fn popup(&self) -> (r: &Option<Popup>)
        ensures
            r.deep_view() == self.deep_view().popup,
    {
        &self.popup
    }

    /// What the controller waits for.
    pub fn pending(&self) -> (r: &Pending)
        ensures
            r.deep_view() == self.deep_view().pending,
    {
        &self.pending
    }

    /// The configuration the controller runs with.
    pub fn config(&self) -> (r: &Config)
        ensures
            r.deep_view() == self.deep_view().cfg,
    {
        &self.cfg
    }

    /// How the container engine is reached.
    pub fn docker(&self) -> (r: &DockerMeta)
        ensures
            r.deep_view() == self.deep_view().docker,
    {
        &self.docker
    }

    /// The number of task records.
    pub fn task_count(&self) -> (r: usize)
        ensures
            r == self.deep_view().tasks.len(),
    {
        self.tasks.len()
    }

    /// The task record at position `i`.
    pub fn task(&self, i: usize) -> (r: &TaskRuntime)
        requires
            i < self.deep_view().tasks.len(),
        ensures
            r.deep_view() == self.deep_view().tasks[i as int],
    {
        &self.tasks[i]
    }

    /// The position of the task record called `name`.
    pub fn task_position(&self, name: &str) -> (r: Option<usize>)
        ensures
            match r {
                Some(i) => position(self.deep_view().tasks, name@) == Some(i as int) && i
                    < self.deep_view().tasks.len(),
                None => position(self.deep_view().tasks, name@) is None,
            },
    {
        find_task(&self.tasks, name)
    }
}

/// An input event; see [`AppView::handle_event`].
#[verifier::rlimit(50)]
pub fn handle_event(app: &mut App, ev: Event) -> (out: Outcome)
    requires
        old(app).wf(),
    ensures
        step_of(final(app), &out) == old(app).deep_view().handle_event(ev),
        final(app).wf(),
{
    proof {
        lemma_handle_event_wf(app.deep_view(), ev);
    }
    if app.is_waiting() {
        return Outcome { commands: no_commands(), quit: false };
    }
    match ev {
        Event::Key { code, ctrl } => {
            let quit = match code {
                KeyCode::Char(c) => (c == 'c' && ctrl) || c == 'q',
                _ => false,
            };
            if quit {
                let mut commands = no_commands();
                if app.follower.is_some() {
                    push_command(&mut commands, Command::KillFollower);
                    assert(commands.deep_view() =~= seq![CommandView::KillFollower]);
                }
                app.follower = None;
                return Outcome { commands, quit: true };
            }
            if app.popup.is_some() {
                let commands = app.popup_key(code);
                return Outcome { commands, quit: false };
            }
            let commands = match code {
                KeyCode::Tab => {
                    app.set_focus(!app.focus_on_list);
                    no_commands()
                },
                KeyCode::Char(c) => app.action(c),
                _ => app.navigate(code),
            };
            Outcome { commands, quit: false }
        },
        Event::Mouse { kind, column, row } => {
            let commands = app.mouse(kind, column, row);
            Outcome { commands, quit: false }
        },
        Event::Other => Outcome { commands: no_commands(), quit: false },
    }
}

/// The keys the help bar offers.
pub open spec fn help_text(app: AppView) -> Seq<char> {
    match app.current_item() {
        None => " q:Quit "@,
        Some(item) => {
            let common = "Ent:Log r:Rest s:Stop t:Start tab:Focus q:Quit"@;
            let extra = if !app.focus_on_list {
                " \u{2191}/\u{2193}:Scroll "@
            } else {
                Seq::empty()
            };
            match item.kind {
                Kind::Container => common + " p:Paus u:Unp k:Kill d:Rm i:Insp o:Web x:Reset c:Compose"@
                    + extra,
                Kind::Task => common + extra,
            }
        },
    }
}

/// The text of the help bar for the row under the cursor.
pub fn help_for_selected(app: &App) -> (r: String)
    requires
        app.wf(),
    ensures
        r@ == help_text(app.deep_view()),
{
    if app.selected >= app.items.len() {
        return " q:Quit ".to_owned();
    }
    proof {
        assert(app.deep_view().items[app.selected as int] == app.items[app.selected as int].deep_view());
    }
    let mut out = "Ent:Log r:Rest s:Stop t:Start tab:Focus q:Quit".to_owned();
    match app.items[app.selected].kind {
        Kind::Container => {
            out.append(" p:Paus u:Unp k:Kill d:Rm i:Insp o:Web x:Reset c:Compose");
        },
        Kind::Task => {},
    }
    if !app.focus_on_list {
        out.append(" \u{2191}/\u{2193}:Scroll ");
    }
    assert(out@ =~= help_text(app.deep_view()));
    out
}

} // verus!
