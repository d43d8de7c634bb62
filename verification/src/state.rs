//! The controller as mathematics: its state and every step it can take.
//!
//! A step maps a state and an input to the next state and the commands the
//! host has to carry out. Steps that need an answer from the host leave the
//! state waiting (`pending`); the answer is fed back through `resume`.

use crate::config::{ConfigView, TaskSpecView};
use crate::docker::{best_public_port, display_name, DockerMetaView};
use crate::inspect::{container_info, volumes_of};
use crate::json::json_of;
use crate::logbuf::keep_last;
use crate::model::{
    Area, CommandView, ComposeStage, Event, KeyCode, Kind, MouseKind, PendingView, PopupView,
    ReplyView, SnapshotView, TargetIdView, TaskSignalView, UiItemView,
};
use crate::rows::build_rows;
use crate::tasks::{
    distinct_names, exit_marker, history_line, Phase, position, TaskRuntimeView, TaskStatus,
    TaskStep,
};
use crate::text::{decimal_int, decimal_nat, join_with};
use vstd::prelude::*;

verus! {

/// The state of the controller.
pub struct AppView {
    pub cfg: ConfigView,
    pub docker: DockerMetaView,
    /// The rows of the list.
    pub items: Seq<UiItemView>,
    /// The row the cursor is on.
    pub selected: int,
    pub focus_on_list: bool,
    /// The task or the container whose log is shown; none before the first
    /// selection.
    pub current_target: Option<TargetIdView>,
    /// The visible log.
    pub log: Seq<Seq<char>>,
    /// The capacity of the visible log.
    pub log_cap: nat,
    pub log_scroll: u16,
    pub stick_to_bottom: bool,
    pub last_log_height: u16,
    /// The container whose log a live follower process tails.
    pub follower: Option<Seq<char>>,
    pub tasks: Seq<TaskRuntimeView>,
    /// The last container snapshot.
    pub containers: SnapshotView,
    /// A background fetch is in flight.
    pub refreshing: bool,
    /// The row the list highlights.
    pub list_selected: Option<int>,
    /// The first row the list shows.
    pub list_offset: int,
    pub list_area: Area,
    pub popup: Option<PopupView>,
    pub pending: PendingView,
}

/// What a step yields: the next state, the commands for the host, and
/// whether the operator asked to quit.
pub struct StepView {
    pub app: AppView,
    pub commands: Seq<CommandView>,
    pub quit: bool,
}

/// The first line of a container's log view.
pub open spec fn banner(name: Seq<char>) -> Seq<char> {
    "--- streaming logs for "@ + name + " ---"@
}

/// The number of lines a follower is asked to start from.
pub open spec fn follow_tail() -> usize {
    200
}

/// A step that changes the state only.
pub open spec fn quiet(app: AppView) -> StepView {
    StepView { app, commands: Seq::empty(), quit: false }
}

/// The number of visible lines as the scroll arithmetic sees it: the length
/// of the log cut to 16 bits.
pub open spec fn total_lines(log: Seq<Seq<char>>) -> int {
    (log.len() as int) % 0x10000
}

/// `a + b`, at most `u16::MAX`.
pub open spec fn sat_add(a: u16, b: u16) -> u16 {
    if a + b > 0xffff {
        0xffffu16
    } else {
        (a + b) as u16
    }
}

/// `a - b`, at least 0.
pub open spec fn sat_sub(a: int, b: int) -> u16 {
    if a - b < 0 {
        0u16
    } else {
        (a - b) as u16
    }
}

/// The arguments of a compose run for `profile`.
pub open spec fn compose_args(profile: Seq<char>, rest: Seq<Seq<char>>) -> Seq<Seq<char>> {
    seq!["compose"@, "--profile"@, profile] + rest
}

/// What a reset reports for each volume: that it is removed, and why not if
/// the removal could not be run.
pub open spec fn volume_report(volumes: Seq<Seq<char>>, errors: Seq<Option<Seq<char>>>) -> Seq<
    Seq<char>,
>
    decreases volumes.len(),
{
    if volumes.len() == 0 {
        Seq::empty()
    } else {
        let k = volumes.len() - 1;
        let v = volumes[k];
        let rest = volume_report(volumes.drop_last(), errors).push(
            "Removing volume "@ + v + "..."@,
        );
        if k < errors.len() {
            match errors[k] {
                Some(e) => rest.push("Failed to remove volume "@ + v + ": "@ + e),
                None => rest,
            }
        } else {
            rest
        }
    }
}

/// What a completed reset of container `id` reports.
pub open spec fn reset_report(
    id: Seq<char>,
    volumes: Seq<Seq<char>>,
    errors: Seq<Option<Seq<char>>>,
) -> Seq<Seq<char>> {
    seq!["Inspecting "@ + id + "..."@, "Removing container "@ + id + "..."@] + volume_report(
        volumes,
        errors,
    ) + seq!["\u{2705} Reset complete for "@ + id]
}

/// The line that reports a snapshot that could not be fetched.
pub open spec fn refresh_failed() -> Seq<char> {
    "Refresh failed"@
}

/// The line that reports an engine action that did not succeed.
pub open spec fn action_failed(what: Seq<char>) -> Seq<char> {
    "docker "@ + what + " failed"@
}

/// The line that reports a log follower that could not be started.
pub open spec fn follow_failed(reason: Seq<char>) -> Seq<char> {
    "Log stream failed: "@ + reason
}

/// The line that reports an inspection that gave nothing to read.
pub open spec fn inspect_failed() -> Seq<char> {
    "Inspect failed"@
}

/// The line that reports a reset that was given up.
pub open spec fn reset_failed(why: Seq<char>) -> Seq<char> {
    "Reset failed: "@ + why
}

/// The verb and the announcement of the container action bound to a key, and
/// whether the row is selected again afterwards.
pub open spec fn container_verb(c: char) -> Option<(Seq<char>, Seq<char>, bool)> {
    if c == 'r' {
        Some(("restart"@, "Restarting container "@, true))
    } else if c == 's' {
        Some(("stop"@, "Stopping container "@, false))
    } else if c == 't' {
        Some(("start"@, "Starting container "@, true))
    } else if c == 'p' {
        Some(("pause"@, "Pausing container "@, false))
    } else if c == 'u' {
        Some(("unpause"@, "Unpausing container "@, false))
    } else if c == 'k' {
        Some(("kill"@, "Killing container "@, false))
    } else {
        None
    }
}

impl AppView {
    /// The capacity of every log buffer.
    pub open spec fn cap(self) -> nat {
        self.cfg.max_log_lines
    }

    /// The invariant of the controller.
    pub open spec fn wf(self) -> bool {
        &&& self.log_cap == self.cap()
        &&& self.log.len() <= self.cap()
        &&& forall|i: int|
            0 <= i < self.tasks.len() ==> (#[trigger] self.tasks[i]).inv() && self.tasks[i].cap
                == self.cap()
        &&& distinct_names(self.tasks)
        &&& 0 <= self.selected
        &&& 0 <= self.list_offset
        &&& (self.selected == 0 || self.selected < self.items.len())
        &&& (self.pending is Follower ==> self.follower is None)
        &&& (self.follower matches Some(id) ==> self.shows_container(id))
        &&& (self.pending matches PendingView::Follower { id } ==> self.shows_container(id))
    }

    /// The number of follower processes that may be alive: the one known to
    /// be, and the one asked for and not yet answered.
    pub open spec fn live_followers(self) -> nat {
        (if self.follower is Some {
            1nat
        } else {
            0nat
        }) + (if self.pending is Follower {
            1nat
        } else {
            0nat
        })
    }

    /// With `pending` cleared.
    pub open spec fn idle(self) -> AppView {
        AppView { pending: PendingView::Idle, ..self }
    }

    /// With `line` appended to the visible log.
    pub open spec fn push_log(self, line: Seq<char>) -> AppView {
        AppView { log: keep_last(self.log.push(line), self.log_cap), ..self }
    }

    /// With `lines` appended to the visible log, in order.
    pub open spec fn push_logs(self, lines: Seq<Seq<char>>) -> AppView {
        AppView { log: keep_last(self.log + lines, self.log_cap), ..self }
    }

    /// With the visible log replaced by `all`, scrolled to its end.
    pub open spec fn replace_logs(self, all: Seq<Seq<char>>) -> AppView {
        AppView { log: keep_last(all, self.log_cap), stick_to_bottom: true, ..self }
    }

    /// With the rows built anew and the cursor pulled back into them.
    pub open spec fn rebuild(self) -> AppView {
        let items = build_rows(self.cfg.post_up_tasks, self.tasks, self.containers);
        AppView {
            items,
            selected: if self.selected >= items.len() {
                if items.len() == 0 {
                    0
                } else {
                    items.len() - 1
                }
            } else {
                self.selected
            },
            ..self
        }
    }

    /// Whether the snapshot holds the database or the storage container.
    pub open spec fn infra_up(self) -> bool {
        exists|i: int|
            0 <= i < self.containers.len() && (display_name(
                (#[trigger] self.containers[i]).0.names,
            ) == self.cfg.db_container || display_name(self.containers[i].0.names)
                == self.cfg.storage_container)
    }

    /// The stored history of the task called `name`; empty when there is none.
    pub open spec fn history_of(self, name: Seq<char>) -> Seq<Seq<char>> {
        match position(self.tasks, name) {
            Some(i) => self.tasks[i].lines,
            None => Seq::empty(),
        }
    }

    /// Whether the task called `name` is the current target.
    pub open spec fn shows_task(self, name: Seq<char>) -> bool {
        self.current_target == Some(TargetIdView::Task { name })
    }

    /// Whether the container with this id is the current target.
    pub open spec fn shows_container(self, id: Seq<char>) -> bool {
        self.current_target == Some(TargetIdView::Container { id })
    }

    /// With the visible log replaced by the history of task `name`, if that
    /// task is the current target.
    pub open spec fn sync_visible(self, name: Seq<char>) -> AppView {
        if self.shows_task(name) {
            self.replace_logs(self.history_of(name))
        } else {
            self
        }
    }

    /// With `step` applied to the task called `name`, if there is one.
    pub open spec fn task_step(self, name: Seq<char>, step: TaskStep) -> AppView {
        match position(self.tasks, name) {
            Some(i) => AppView { tasks: self.tasks.update(i, self.tasks[i].step(step)), ..self },
            None => self,
        }
    }

    /// The command that kills the follower, if one is alive.
    pub open spec fn kill_follower(self) -> Seq<CommandView> {
        if self.follower is Some {
            seq![CommandView::KillFollower]
        } else {
            Seq::empty()
        }
    }

    /// The switch-over to row `idx`: the follower, if any, is killed; the
    /// visible log becomes the stored history of the task, or the banner of
    /// the container, for which a new follower is asked.
    pub open spec fn select(self, idx: int) -> StepView {
        if self.items.len() == 0 {
            quiet(self)
        } else {
            let sel = if idx < self.items.len() - 1 {
                idx
            } else {
                self.items.len() - 1
            };
            let item = self.items[sel];
            let base = AppView {
                selected: sel,
                list_selected: Some(sel),
                follower: None,
                current_target: Some(
                    match item.kind {
                        Kind::Task => TargetIdView::Task { name: item.id },
                        Kind::Container => TargetIdView::Container { id: item.id },
                    },
                ),
                ..self
            };
            match item.kind {
                Kind::Task => StepView {
                    app: base.replace_logs(self.history_of(item.id)),
                    commands: self.kill_follower(),
                    quit: false,
                },
                Kind::Container => StepView {
                    app: AppView {
                        pending: PendingView::Follower { id: item.id },
                        ..base.replace_logs(seq![banner(item.name)])
                    },
                    commands: self.kill_follower().push(
                        CommandView::SpawnFollower { id: item.id, tail: follow_tail() },
                    ),
                    quit: false,
                },
            }
        }
    }

    /// The restart of task `name`: a live process is killed, the history is
    /// cleared down to the restart marker, and a new process is asked for.
    pub open spec fn run_task(self, name: Seq<char>) -> StepView {
        match position(self.tasks, name) {
            Some(i) => {
                let t = self.tasks[i];
                let kill = if t.phase == Phase::Running {
                    seq![CommandView::KillTask { name }]
                } else {
                    Seq::empty()
                };
                StepView {
                    app: AppView {
                        pending: PendingView::Task { name },
                        ..self.task_step(name, TaskStep::Restart)
                    },
                    commands: kill.push(CommandView::SpawnTask { name, cmd: t.spec.cmd }),
                    quit: false,
                }
            },
            None => quiet(self),
        }
    }

    /// The stop of task `name` on request.
    pub open spec fn stop_task(self, name: Seq<char>) -> StepView {
        match position(self.tasks, name) {
            Some(i) => StepView {
                app: self.task_step(name, TaskStep::Stop).sync_visible(name),
                commands: if self.tasks[i].phase == Phase::Running {
                    seq![CommandView::KillTask { name }]
                } else {
                    Seq::empty()
                },
                quit: false,
            },
            None => quiet(self),
        }
    }

    /// One report from a task's process. A line goes to the task's history
    /// and, if the task is the current target, to the visible log; an exit
    /// sets the status and appends its marker to the history and, if the task
    /// is the current target, to the visible log, all in this one step.
    /// Reports for a task without a live process are dropped.
    pub open spec fn signal(self, sig: TaskSignalView) -> AppView {
        match sig {
            TaskSignalView::Line { name, line } => match position(self.tasks, name) {
                Some(i) => if self.tasks[i].phase == Phase::Running {
                    let s = self.task_step(name, TaskStep::Line(line));
                    if self.shows_task(name) {
                        s.push_log(history_line(name, line))
                    } else {
                        s
                    }
                } else {
                    self
                },
                None => self,
            },
            TaskSignalView::Exited { name, code } => match position(self.tasks, name) {
                Some(i) => if self.tasks[i].phase == Phase::Running {
                    let s = self.task_step(name, TaskStep::Exited(code as int));
                    if self.shows_task(name) {
                        s.push_log(exit_marker(code as int))
                    } else {
                        s
                    }
                } else {
                    self
                },
                None => self,
            },
        }
    }

    /// The reports of `sigs`, applied in order.
    pub open spec fn signals(self, sigs: Seq<TaskSignalView>) -> AppView
        decreases sigs.len(),
    {
        if sigs.len() == 0 {
            self
        } else {
            self.signals(sigs.drop_last()).signal(sigs.last())
        }
    }

    /// Lines drained from the follower of container `id`. They reach the
    /// visible log only if that follower is the live one.
    pub open spec fn follower_lines(self, id: Seq<char>, lines: Seq<Seq<char>>) -> AppView {
        if self.follower == Some(id) {
            self.push_logs(lines)
        } else {
            self
        }
    }

    /// One drain: first the follower's lines, then the tasks' reports.
    pub open spec fn pump(
        self,
        id: Seq<char>,
        lines: Seq<Seq<char>>,
        sigs: Seq<TaskSignalView>,
    ) -> AppView {
        self.follower_lines(id, lines).signals(sigs)
    }

    /// Whether a timer tick starts a background fetch: the engine is
    /// reachable, no dialog is open, no fetch is in flight, and the
    /// controller is not waiting.
    pub open spec fn may_refresh(self) -> bool {
        self.docker.available && self.popup is None && !self.refreshing && self.pending is Idle
    }

    /// A timer tick.
    pub open spec fn tick(self) -> StepView {
        if self.may_refresh() {
            StepView {
                app: AppView { refreshing: true, ..self },
                commands: seq![CommandView::StartFetch],
                quit: false,
            }
        } else {
            quiet(self)
        }
    }

    /// With the snapshot replaced by `result`; when the fetch failed the
    /// snapshot stays and the failure is reported in the visible log.
    pub open spec fn with_snapshot(self, result: Option<SnapshotView>) -> AppView {
        match result {
            Some(c) => AppView { containers: c, ..self },
            None => self.push_log(refresh_failed()),
        }
    }

    /// The arrival of a background fetch's result: the in-flight mark is
    /// cleared; a snapshot replaces the last one and the rows are rebuilt, a
    /// failure is reported in the visible log.
    pub open spec fn refresh_done(self, result: Option<SnapshotView>) -> AppView {
        let s = AppView { refreshing: false, ..self };
        match result {
            Some(c) => s.with_snapshot(result).rebuild(),
            None => s.with_snapshot(result),
        }
    }

    /// Asks for a snapshot now.
    pub open spec fn begin_fetch(self, reselect: bool, startup: bool) -> StepView {
        StepView {
            app: AppView { pending: PendingView::Fetch { reselect, startup }, ..self },
            commands: seq![CommandView::Fetch],
            quit: false,
        }
    }

    /// With the compose dialog opened, saying whether the stack is up.
    pub open spec fn offer_compose(self) -> AppView {
        AppView {
            popup: Some(PopupView::ConfirmComposeRestart { infra_running: self.infra_up() }),
            ..self
        }
    }

    /// What follows a snapshot asked for with `begin_fetch`.
    pub open spec fn after_fetch(
        self,
        result: Option<SnapshotView>,
        reselect: bool,
        startup: bool,
    ) -> StepView {
        let s = self.with_snapshot(result).rebuild();
        if startup {
            let st = s.select(0);
            if s.cfg.auto_compose_up {
                StepView { app: st.app.offer_compose(), ..st }
            } else {
                st
            }
        } else if reselect {
            s.select(s.selected)
        } else {
            quiet(s)
        }
    }

    /// The start of the dashboard.
    pub open spec fn start(self) -> StepView {
        if !(self.pending is Idle) {
            quiet(self)
        } else if self.docker.available {
            self.begin_fetch(false, true)
        } else {
            quiet(
                self.push_log(
                    "Docker unavailable. Colima: colima start ; docker context use colima ; docker ps"@,
                ).rebuild(),
            )
        }
    }

    /// Starts a compose run.
    pub open spec fn compose(self, stage: ComposeStage) -> StepView {
        StepView {
            app: AppView { pending: PendingView::Compose { stage }, ..self },
            commands: seq![
                CommandView::Compose {
                    args: compose_args(
                        self.cfg.compose_profile,
                        if stage == ComposeStage::Restart {
                            seq!["restart"@]
                        } else {
                            seq!["up"@, "-d"@]
                        },
                    ),
                },
            ],
            quit: false,
        }
    }

    /// Brings the stack up, or restarts it when it is up already.
    pub open spec fn compose_up_or_restart(self, restart: bool) -> StepView {
        if restart {
            self.push_log(
                "Restarting services (profile: "@ + self.cfg.compose_profile + ")..."@,
            ).compose(ComposeStage::Restart)
        } else {
            self.push_log(
                "Starting services (profile: "@ + self.cfg.compose_profile + ")..."@,
            ).compose(ComposeStage::Up)
        }
    }

    /// What follows a compose run that ended with `code`.
    pub open spec fn after_compose(self, stage: ComposeStage, code: i32) -> StepView {
        match stage {
            ComposeStage::Restart => if code != 0 {
                self.push_log(
                    "Restart failed (exit "@ + decimal_int(code as int)
                        + ") \u{2192} fallback: up -d"@,
                ).compose(ComposeStage::Fallback)
            } else {
                self.push_log("Compose restart OK"@).begin_fetch(true, false)
            },
            ComposeStage::Fallback => if code != 0 {
                self.push_log(
                    "Compose up failed (exit "@ + decimal_int(code as int) + ")"@,
                ).begin_fetch(true, false)
            } else {
                self.push_log("Compose up OK"@).begin_fetch(true, false)
            },
            ComposeStage::Up => if code != 0 {
                self.push_log(
                    "Compose up FAILED (exit "@ + decimal_int(code as int) + ")"@,
                ).begin_fetch(true, false)
            } else {
                self.push_log("Compose up OK"@).begin_fetch(true, false)
            },
        }
    }

    /// The row under the cursor, if there are rows.
    pub open spec fn current_item(self) -> Option<UiItemView> {
        if 0 <= self.selected < self.items.len() {
            Some(self.items[self.selected])
        } else {
            None
        }
    }

    /// Opens the web page of the container under the cursor, or says that it
    /// has none.
    pub open spec fn open_selected_in_browser(self) -> StepView {
        match self.current_item() {
            Some(item) => if item.kind == Kind::Container {
                match best_public_port(item.ports) {
                    Some(port) => StepView {
                        app: self,
                        commands: seq![
                            CommandView::OpenUrl {
                                url: "http://"@ + (if self.docker.remote_host.len() == 0 {
                                    "localhost"@
                                } else {
                                    self.docker.remote_host
                                }) + ":"@ + decimal_nat(port as nat),
                            },
                        ],
                        quit: false,
                    },
                    None => quiet(self.push_log("No public tcp port for "@ + item.name)),
                }
            } else {
                quiet(self)
            },
            None => quiet(self),
        }
    }

    /// The answer to a request for a follower of container `id`: it is
    /// alive, or the failure is reported in the visible log.
    pub open spec fn answer_follower(self, id: Seq<char>, reply: ReplyView) -> StepView {
        match reply {
            ReplyView::Started => quiet(AppView { follower: Some(id), ..self }),
            ReplyView::SpawnFailed { reason } => quiet(self.push_log(follow_failed(reason))),
            _ => quiet(self.push_log(follow_failed(Seq::empty()))),
        }
    }

    /// An engine action announced in the visible log and asked of the host.
    pub open spec fn container_action(
        self,
        says: Seq<char>,
        what: Seq<char>,
        args: Seq<Seq<char>>,
        reselect: bool,
    ) -> StepView {
        StepView {
            app: AppView { pending: PendingView::Action { what, reselect }, ..self.push_log(says) },
            commands: seq![CommandView::Action { args }],
            quit: false,
        }
    }

    /// The answer to an engine action: a failure is reported in the visible
    /// log; either way a snapshot is fetched.
    pub open spec fn answer_action(self, what: Seq<char>, reselect: bool, reply: ReplyView) -> StepView {
        match reply {
            ReplyView::Done { ok: true } => self.begin_fetch(reselect, false),
            _ => self.push_log(action_failed(what)).begin_fetch(reselect, false),
        }
    }

    /// The answer to a request for a process for task `name`: the task
    /// enters `Run`, or stays `Pending` with the reason recorded. Then the
    /// rows are rebuilt and the current row is selected again.
    pub open spec fn answer_task(self, name: Seq<char>, reply: ReplyView) -> StepView {
        let t = match reply {
            ReplyView::Started => self.task_step(name, TaskStep::Started),
            ReplyView::SpawnFailed { reason } => self.task_step(name, TaskStep::SpawnFailed(reason)),
            _ => self.task_step(name, TaskStep::SpawnFailed(Seq::empty())),
        };
        let r = t.sync_visible(name).rebuild();
        r.select(r.selected)
    }

    /// The answer to an inspection asked for to show the container `name`.
    pub open spec fn answer_inspect(self, name: Seq<char>, reply: ReplyView) -> StepView {
        match reply {
            ReplyView::Output { text: Some(t) } => match json_of(t) {
                Some(doc) => quiet(
                    AppView {
                        popup: Some(
                            PopupView::Inspect {
                                title: "Inspect: "@ + name,
                                content: container_info(doc),
                            },
                        ),
                        ..self
                    },
                ),
                None => quiet(self.push_log(inspect_failed())),
            },
            _ => quiet(self.push_log(inspect_failed())),
        }
    }

    /// The answer to the inspection that opens a reset of container `id`:
    /// with it the container is stopped and its forced removal asked for;
    /// without it the reset is given up and the failure reported.
    pub open spec fn answer_reset_inspect(self, id: Seq<char>, reply: ReplyView) -> StepView {
        match reply {
            ReplyView::Output { text: Some(t) } => match json_of(t) {
                Some(doc) => StepView {
                    app: AppView {
                        pending: PendingView::ResetRemove { id, volumes: volumes_of(doc) },
                        ..self
                    },
                    commands: seq![
                        CommandView::Engine { args: seq!["stop"@, id] },
                        CommandView::RemoveForce { id },
                    ],
                    quit: false,
                },
                None => self.push_log(reset_failed(inspect_failed())).begin_fetch(true, false),
            },
            _ => self.push_log(reset_failed(inspect_failed())).begin_fetch(true, false),
        }
    }

    /// The answer to the forced removal in a reset: after a success the
    /// volumes are removed; after a failure the reset is given up and the
    /// failure reported.
    pub open spec fn answer_reset_remove(
        self,
        id: Seq<char>,
        volumes: Seq<Seq<char>>,
        reply: ReplyView,
    ) -> StepView {
        match reply {
            ReplyView::Done { ok: true } => StepView {
                app: AppView { pending: PendingView::ResetVolumes { id, volumes }, ..self },
                commands: seq![CommandView::RemoveVolumes { names: volumes }],
                quit: false,
            },
            _ => self.push_log(reset_failed(action_failed("rm -f"@))).begin_fetch(true, false),
        }
    }

    /// The answer to the removal of the volumes in a reset: the reset is
    /// reported in the visible log.
    pub open spec fn answer_reset_volumes(
        self,
        id: Seq<char>,
        volumes: Seq<Seq<char>>,
        reply: ReplyView,
    ) -> StepView {
        match reply {
            ReplyView::VolumeErrors { errors } => self.push_logs(
                reset_report(id, volumes, errors),
            ).begin_fetch(true, false),
            _ => self.push_logs(reset_report(id, volumes, Seq::empty())).begin_fetch(true, false),
        }
    }

    /// The answer to the command the controller waits on. An answer of the
    /// wrong kind counts as a failure of that command.
    pub open spec fn resume(self, reply: ReplyView) -> StepView {
        let s = self.idle();
        match self.pending {
            PendingView::Idle => quiet(self),
            PendingView::Follower { id } => s.answer_follower(id, reply),
            PendingView::Task { name } => s.answer_task(name, reply),
            PendingView::Fetch { reselect, startup } => match reply {
                ReplyView::Snapshot { containers } => s.after_fetch(containers, reselect, startup),
                _ => s.after_fetch(None, reselect, startup),
            },
            PendingView::Compose { stage } => match reply {
                ReplyView::Exit { code } => s.after_compose(stage, code),
                _ => s.after_compose(stage, 1),
            },
            PendingView::Action { what, reselect } => s.answer_action(what, reselect, reply),
            PendingView::Inspect { name } => s.answer_inspect(name, reply),
            PendingView::ResetInspect { id } => s.answer_reset_inspect(id, reply),
            PendingView::ResetRemove { id, volumes } => s.answer_reset_remove(id, volumes, reply),
            PendingView::ResetVolumes { id, volumes } => s.answer_reset_volumes(id, volumes, reply),
        }
    }

    /// A key while a dialog is open.
    pub open spec fn popup_key(self, popup: PopupView, code: KeyCode) -> StepView {
        let closed = AppView { popup: None, ..self };
        match popup {
            PopupView::Inspect { .. } => if code == KeyCode::Esc || code == KeyCode::Enter {
                quiet(closed)
            } else {
                quiet(self)
            },
            PopupView::ConfirmReset { id, name } => if code == KeyCode::Char('y') || code
                == KeyCode::Enter {
                StepView {
                    app: AppView {
                        pending: PendingView::ResetInspect { id },
                        ..closed.push_log(
                            "\u{1F525} RESETTING "@ + name + " (Stop+Rm+VolRm)..."@,
                        )
                    },
                    commands: seq![CommandView::Inspect { id }],
                    quit: false,
                }
            } else if code == KeyCode::Esc || code == KeyCode::Char('n') {
                quiet(closed)
            } else {
                quiet(self)
            },
            PopupView::ConfirmComposeRestart { infra_running } => if code == KeyCode::Char('r')
                || code == KeyCode::Enter {
                closed.compose_up_or_restart(infra_running)
            } else if code == KeyCode::Char('k') || code == KeyCode::Esc {
                quiet(closed)
            } else {
                quiet(self)
            },
        }
    }

    /// With the log scrolled down by `by`; the view sticks to the bottom once
    /// the last line is reached.
    pub open spec fn scroll_down(self, by: u16) -> AppView {
        let scroll = sat_add(self.log_scroll, by);
        AppView {
            log_scroll: scroll,
            stick_to_bottom: self.stick_to_bottom || scroll + self.last_log_height >= total_lines(
                self.log,
            ),
            ..self
        }
    }

    /// With the log scrolled up by `by`, no longer stuck to the bottom.
    pub open spec fn scroll_up(self, by: u16) -> AppView {
        AppView {
            log_scroll: sat_sub(self.log_scroll as int, by as int),
            stick_to_bottom: false,
            ..self
        }
    }

    /// A navigation key while no dialog is open: the cursor in the list, or
    /// the scroll position in the log, whichever has the focus.
    pub open spec fn navigate(self, code: KeyCode) -> StepView {
        if self.focus_on_list {
            match code {
                KeyCode::Up => quiet(
                    if self.selected > 0 {
                        AppView { selected: self.selected - 1, ..self }
                    } else {
                        self
                    },
                ),
                KeyCode::Down => quiet(
                    if self.selected + 1 < self.items.len() {
                        AppView { selected: self.selected + 1, ..self }
                    } else {
                        self
                    },
                ),
                KeyCode::Enter => self.select(self.selected),
                _ => quiet(self),
            }
        } else {
            match code {
                KeyCode::Up => quiet(self.scroll_up(1)),
                KeyCode::Down => quiet(self.scroll_down(1)),
                KeyCode::PageUp => quiet(self.scroll_up(self.last_log_height)),
                KeyCode::PageDown => quiet(self.scroll_down(self.last_log_height)),
                KeyCode::Home => quiet(AppView { stick_to_bottom: false, log_scroll: 0, ..self }),
                KeyCode::End => quiet(AppView { stick_to_bottom: true, ..self }),
                _ => quiet(self),
            }
        }
    }

    /// A restart or start key on a task row.
    pub open spec fn restart_selected_task(self, name: Seq<char>) -> StepView {
        match position(self.tasks, name) {
            Some(_) => self.run_task(name),
            None => {
                let r = self.rebuild();
                r.select(r.selected)
            },
        }
    }

    /// A stop key on a task row.
    pub open spec fn stop_selected_task(self, name: Seq<char>) -> StepView {
        let st = self.stop_task(name);
        let r = st.app.rebuild();
        let sel = r.select(r.selected);
        StepView { app: sel.app, commands: st.commands + sel.commands, quit: false }
    }

    /// A letter key while no dialog is open.
    pub open spec fn action(self, c: char) -> StepView {
        if c == 'o' {
            self.open_selected_in_browser()
        } else if c == 'c' {
            if self.docker.available {
                quiet(self.offer_compose())
            } else {
                quiet(self)
            }
        } else {
            match self.current_item() {
                None => quiet(self),
                Some(item) => match item.kind {
                    Kind::Task => if c == 'r' || c == 't' {
                        self.restart_selected_task(item.id)
                    } else if c == 's' {
                        self.stop_selected_task(item.id)
                    } else {
                        quiet(self)
                    },
                    Kind::Container => if !self.docker.available {
                        quiet(self)
                    } else if c == 'i' {
                        StepView {
                            app: AppView {
                                pending: PendingView::Inspect { name: item.name },
                                ..self
                            },
                            commands: seq![CommandView::Inspect { id: item.id }],
                            quit: false,
                        }
                    } else if c == 'x' {
                        quiet(
                            AppView {
                                popup: Some(
                                    PopupView::ConfirmReset { id: item.id, name: item.name },
                                ),
                                ..self
                            },
                        )
                    } else if c == 'd' {
                        self.container_action(
                            "Removing container "@ + item.name + " (force)..."@,
                            "rm -f"@,
                            seq!["rm"@, "-f"@, item.id],
                            false,
                        )
                    } else {
                        match container_verb(c) {
                            Some((verb, says, reselect)) => self.container_action(
                                says + item.name + "..."@,
                                verb,
                                seq![verb, item.id],
                                reselect,
                            ),
                            None => quiet(self),
                        }
                    },
                },
            }
        }
    }

    /// Whether the cell at `column`, `row` lies in the list's area.
    pub open spec fn in_list(self, column: u16, row: u16) -> bool {
        let a = self.list_area;
        column >= a.x && column < a.x + a.width && row >= a.y && row < a.y + a.height
    }

    /// A mouse event.
    pub open spec fn mouse(self, kind: MouseKind, column: u16, row: u16) -> StepView {
        match kind {
            MouseKind::ScrollDown => quiet(self.scroll_down(3)),
            MouseKind::ScrollUp => quiet(self.scroll_up(3)),
            MouseKind::LeftDown => if self.in_list(column, row) {
                let a = self.list_area;
                let focused = AppView { focus_on_list: true, ..self };
                let index = self.list_offset + (row - a.y - 1);
                if row > a.y && row < a.y + a.height - 1 && index < self.items.len() {
                    focused.select(index)
                } else {
                    quiet(focused)
                }
            } else {
                quiet(AppView { focus_on_list: false, ..self })
            },
            MouseKind::Other => quiet(self),
        }
    }

    /// An input event. While the controller waits for an answer, events are
    /// dropped. `q` and `Ctrl-c` quit, which also ends the follower.
    pub open spec fn handle_event(self, ev: Event) -> StepView {
        if !(self.pending is Idle) {
            quiet(self)
        } else {
            match ev {
                Event::Key { code, ctrl } => if (code == KeyCode::Char('c') && ctrl) || code
                    == KeyCode::Char('q') {
                    StepView {
                        app: AppView { follower: None, ..self },
                        commands: self.kill_follower(),
                        quit: true,
                    }
                } else {
                    match self.popup {
                        Some(popup) => self.popup_key(popup, code),
                        None => match code {
                            KeyCode::Tab => quiet(
                                AppView { focus_on_list: !self.focus_on_list, ..self },
                            ),
                            KeyCode::Char(c) => self.action(c),
                            _ => self.navigate(code),
                        },
                    }
                },
                Event::Mouse { kind, column, row } => self.mouse(kind, column, row),
                Event::Other => quiet(self),
            }
        }
    }

    /// What the renderer reports after drawing: where the list is and how many
    /// log lines fit. The scroll position follows the end of the log while it
    /// sticks to the bottom, and never passes it.
    pub open spec fn layout(self, list_area: Area, list_offset: int, log_height: u16) -> AppView {
        let max_scroll = sat_sub(total_lines(self.log), log_height as int);
        AppView {
            list_area,
            list_offset,
            last_log_height: log_height,
            log_scroll: if self.stick_to_bottom || self.log_scroll > max_scroll {
                max_scroll
            } else {
                self.log_scroll
            },
            ..self
        }
    }
}

/// A task that has not run yet.
pub open spec fn fresh_task(spec: TaskSpecView, cap: nat) -> TaskRuntimeView {
    TaskRuntimeView {
        spec,
        status: TaskStatus::Pending,
        lines: Seq::empty(),
        cap,
        phase: Phase::Idle,
    }
}

/// One runtime record per task name, in the order in which the names first
/// appear; of two specifications with one name the later one counts.
pub open spec fn runtimes(specs: Seq<TaskSpecView>, cap: nat) -> Seq<TaskRuntimeView>
    decreases specs.len(),
{
    if specs.len() == 0 {
        Seq::empty()
    } else {
        let rest = runtimes(specs.drop_last(), cap);
        let t = fresh_task(specs.last(), cap);
        match position(rest, t.spec.name) {
            Some(i) => rest.update(i, t),
            None => rest.push(t),
        }
    }
}

/// The names of the configured tasks, for the opening lines of the log.
pub open spec fn task_names(specs: Seq<TaskSpecView>) -> Seq<char> {
    if specs.len() == 0 {
        "(none)"@
    } else {
        join_with(Seq::new(specs.len(), |i: int| specs[i].name), ", "@)
    }
}

/// The lines the visible log opens with.
pub open spec fn opening_lines(cfg: ConfigView, docker: DockerMetaView) -> Seq<Seq<char>> {
    seq![
        "Profile: "@ + cfg.profile,
        "Docker backend: "@ + docker.backend + " | Context: "@ + docker.context_name,
        "Post-up tasks: "@ + task_names(cfg.post_up_tasks),
    ]
}

/// The state the controller starts in.
pub open spec fn initial(cfg: ConfigView, docker: DockerMetaView) -> AppView {
    AppView {
        cfg,
        docker,
        items: Seq::empty(),
        selected: 0,
        focus_on_list: true,
        current_target: None,
        log: keep_last(opening_lines(cfg, docker), cfg.max_log_lines),
        log_cap: cfg.max_log_lines,
        log_scroll: 0,
        stick_to_bottom: true,
        last_log_height: 0,
        follower: None,
        tasks: runtimes(cfg.post_up_tasks, cfg.max_log_lines),
        containers: Seq::empty(),
        refreshing: false,
        list_selected: None,
        list_offset: 0,
        list_area: Area { x: 0, y: 0, width: 0, height: 0 },
        popup: None,
        pending: PendingView::Idle,
    }
}

} // verus!
