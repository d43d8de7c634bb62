//! The life cycle of one supervised shell task.
//!
//! A task is created `Pending`. A restart clears its history and asks for a
//! process; once the process is there the task is in `Run`, and it leaves
//! `Run` either by exiting (`Okay` or `Fail`, by exit code) or by being
//! stopped (`Stop`). Output lines and exits are only accepted from a live
//! process.

use crate::config::{TaskSpec, TaskSpecView};
use crate::logbuf::{keep_last, LogBuffer};
use crate::text::{
    chars_of, decimal_int, drop_ws, i64_to_string, is_blank, join2, join3,
    lemma_blank_iff_all_skipped, skip_ws_from, str_eq, trim_end,
};
use vstd::prelude::*;
use vstd::string::*;

verus! {

/// Where a task stands in its life cycle.
#[derive(Debug, Clone, Copy, PartialEq, Eq, Structural)]
pub enum TaskStatus {
    Pending,
    Run,
    Okay,
    Fail,
    Stop,
}

/// The short label shown for a status.
pub open spec fn status_text(s: TaskStatus) -> Seq<char> {
    match s {
        TaskStatus::Pending => "\u{2026}"@,
        TaskStatus::Run => "RUN"@,
        TaskStatus::Okay => "OK"@,
        TaskStatus::Fail => "FAIL"@,
        TaskStatus::Stop => "STOP"@,
    }
}

impl TaskStatus {
    /// The short label shown for this status.
    pub fn as_str(&self) -> (r: &'static str)
        ensures
            r@ == status_text(*self),
    {
        match self {
            TaskStatus::Pending => "\u{2026}",
            TaskStatus::Run => "RUN",
            TaskStatus::Okay => "OK",
            TaskStatus::Fail => "FAIL",
            TaskStatus::Stop => "STOP",
        }
    }
}

/// What the supervisor knows about the process behind a task.
#[derive(Debug, Clone, Copy, PartialEq, Eq, Structural)]
pub enum Phase {
    /// No process, and none asked for.
    Idle,
    /// A process was asked for; whether it started is not known yet.
    Starting,
    /// A process is alive and its output is being collected.
    Running,
}

/// The exit code of a finished process: the reported code, or, when the
/// process ended without one, 0 for success and 1 for failure.
pub open spec fn exit_code_of(code: Option<i32>, success: bool) -> i32 {
    match code {
        Some(c) => c,
        None => if success {
            0
        } else {
            1
        },
    }
}

/// The exit code of a finished process: the reported code, or, when the
/// process ended without one, 0 for success and 1 for failure.
pub fn exit_code(code: Option<i32>, success: bool) -> (r: i32)
    ensures
        r == exit_code_of(code, success),
{
    match code {
        Some(c) => c,
        None => if success {
            0
        } else {
            1
        },
    }
}

/// An output line as it is stored: tagged with the stream it came from, and
/// without trailing whitespace. Blank lines are not stored.
pub open spec fn tagged_line(from_stderr: bool, raw: Seq<char>) -> Option<Seq<char>> {
    if is_blank(raw) {
        None
    } else if from_stderr {
        Some("[ERR] "@ + drop_ws(raw))
    } else {
        Some("[OUT] "@ + drop_ws(raw))
    }
}

/// Tags a raw output line with its stream; `None` for a blank line.
pub fn tag_output_line(from_stderr: bool, raw: &str) -> (r: Option<String>)
    ensures
        r.deep_view() == tagged_line(from_stderr, raw@),
{
    let v = chars_of(raw);
    let first = skip_ws_from(&v, 0, v.len());
    proof {
        assert(v@.subrange(0, v.len() as int) == v@);
        lemma_blank_iff_all_skipped(raw@);
    }
    if first == v.len() {
        None
    } else {
        let body = trim_end(raw);
        if from_stderr {
            Some(join2("[ERR] ", body.as_str()))
        } else {
            Some(join2("[OUT] ", body.as_str()))
        }
    }
}

/// The line that opens a task's history after a restart.
pub open spec fn restart_marker(cmd: Seq<char>) -> Seq<char> {
    "==> RESTART: "@ + cmd
}

/// The line that closes a task's history when its process has exited.
pub open spec fn exit_marker(code: int) -> Seq<char> {
    if code == 0 {
        "==> OK"@
    } else {
        "==> FAIL (exit "@ + decimal_int(code) + ")"@
    }
}

/// The line recorded when a task is stopped on request.
pub open spec fn stop_marker() -> Seq<char> {
    "==> STOPPED (user)"@
}

/// The line recorded when no process could be started for a task.
pub open spec fn spawn_error_line(reason: Seq<char>) -> Seq<char> {
    "==> SPAWN FAILED: "@ + reason
}

/// An output line as it appears in a task's history.
pub open spec fn history_line(name: Seq<char>, line: Seq<char>) -> Seq<char> {
    "["@ + name + "] "@ + line
}

/// One configured task together with everything the supervisor tracks for it.
pub struct TaskRuntime {
    spec: TaskSpec,
    status: TaskStatus,
    lines: LogBuffer,
    phase: Phase,
}

/// The mathematical content of a [`TaskRuntime`].
pub struct TaskRuntimeView {
    pub spec: TaskSpecView,
    pub status: TaskStatus,
    pub lines: Seq<Seq<char>>,
    pub cap: nat,
    pub phase: Phase,
}

/// Everything that can happen to a task.
pub enum TaskStep {
    /// A restart was requested.
    Restart,
    /// The process asked for by a restart is alive.
    Started,
    /// The process asked for by a restart could not be started.
    SpawnFailed(Seq<char>),
    /// The operator stopped the task.
    Stop,
    /// The process wrote a line.
    Line(Seq<char>),
    /// The process exited with this code.
    Exited(int),
}

impl TaskRuntimeView {
    /// The history after `line` was appended, oldest lines evicted.
    pub open spec fn with_line(self, line: Seq<char>) -> Seq<Seq<char>> {
        keep_last(self.lines.push(line), self.cap)
    }

    /// The invariant of a task: bounded history, `Run` exactly while a
    /// process is alive, and a freshly cleared history while one is awaited.
    pub open spec fn inv(self) -> bool {
        &&& self.lines.len() <= self.cap
        &&& (self.status == TaskStatus::Run <==> self.phase == Phase::Running)
        &&& (self.phase == Phase::Starting ==> self.status == TaskStatus::Pending && self.lines
            == keep_last(seq![restart_marker(self.spec.cmd)], self.cap))
    }

    /// The task after `step`.
    pub open spec fn step(self, step: TaskStep) -> TaskRuntimeView {
        match step {
            TaskStep::Restart => TaskRuntimeView {
                status: TaskStatus::Pending,
                lines: keep_last(seq![restart_marker(self.spec.cmd)], self.cap),
                phase: Phase::Starting,
                ..self
            },
            TaskStep::Started => if self.phase == Phase::Starting {
                TaskRuntimeView { status: TaskStatus::Run, phase: Phase::Running, ..self }
            } else {
                self
            },
            TaskStep::SpawnFailed(reason) => if self.phase == Phase::Starting {
                TaskRuntimeView {
                    lines: self.with_line(spawn_error_line(reason)),
                    phase: Phase::Idle,
                    ..self
                }
            } else {
                self
            },
            TaskStep::Stop => if self.phase == Phase::Running {
                TaskRuntimeView {
                    status: TaskStatus::Stop,
                    lines: self.with_line(stop_marker()),
                    phase: Phase::Idle,
                    ..self
                }
            } else if self.phase == Phase::Starting {
                TaskRuntimeView { phase: Phase::Idle, ..self }
            } else {
                self
            },
            TaskStep::Line(line) => if self.phase == Phase::Running {
                TaskRuntimeView { lines: self.with_line(history_line(self.spec.name, line)), ..self }
            } else {
                self
            },
            TaskStep::Exited(code) => if self.phase == Phase::Running {
                TaskRuntimeView {
                    status: if code == 0 {
                        TaskStatus::Okay
                    } else {
                        TaskStatus::Fail
                    },
                    lines: self.with_line(exit_marker(code)),
                    phase: Phase::Idle,
                    ..self
                }
            } else {
                self
            },
        }
    }
}

impl DeepView for TaskRuntime {
    type V = TaskRuntimeView;

    closed spec fn deep_view(&self) -> TaskRuntimeView {
        TaskRuntimeView {
            spec: self.spec.deep_view(),
            status: self.status,
            lines: self.lines@,
            cap: self.lines.capacity(),
            phase: self.phase,
        }
    }
}

impl TaskRuntime {
    /// A task that has not run yet, with an empty history of at most
    /// `max_lines` lines.
    pub fn new(spec: TaskSpec, max_lines: usize) -> (r: Self)
        ensures
            r.deep_view() == (TaskRuntimeView {
                spec: spec.deep_view(),
                status: TaskStatus::Pending,
                lines: Seq::empty(),
                cap: max_lines as nat,
                phase: Phase::Idle,
            }),
            r.deep_view().inv(),
    {
        TaskRuntime {
            spec,
            status: TaskStatus::Pending,
            lines: LogBuffer::new(max_lines),
            phase: Phase::Idle,
        }
    }

    /// The task's name.
    pub fn name(&self) -> (r: &String)
        ensures
            r@ == self.deep_view().spec.name,
    {
        &self.spec.name
    }

    /// The task's shell command.
    pub fn cmd(&self) -> (r: &String)
        ensures
            r@ == self.deep_view().spec.cmd,
    {
        &self.spec.cmd
    }

    /// The task's status.
    pub fn status(&self) -> (r: TaskStatus)
        ensures
            r == self.deep_view().status,
    {
        self.status
    }

    /// What is known about the task's process.
    pub fn phase(&self) -> (r: Phase)
        ensures
            r == self.deep_view().phase,
    {
        self.phase
    }

    /// The number of lines in the task's history.
    pub fn line_count(&self) -> (r: usize)
        ensures
            r == self.deep_view().lines.len(),
    {
        self.lines.len()
    }

    /// A copy of the task's history, oldest line first.
    pub fn history(&self) -> (r: Vec<String>)
        ensures
            r.deep_view() == self.deep_view().lines,
    {
        self.lines.snapshot()
    }

    /// Clears the history, records the restart marker and waits for a process.
    /// Returns whether a live process has to be killed first.
    pub fn restart(&mut self) -> (kill: bool)
        ensures
            final(self).deep_view() == old(self).deep_view().step(TaskStep::Restart),
            kill == (old(self).deep_view().phase == Phase::Running),
    {
        let kill = self.phase == Phase::Running;
        self.lines.clear();
        self.lines.push(join2("==> RESTART: ", self.spec.cmd.as_str()));
        self.status = TaskStatus::Pending;
        self.phase = Phase::Starting;
        assert(Seq::<Seq<char>>::empty().push(restart_marker(self.spec.cmd@)) =~= seq![
            restart_marker(self.spec.cmd@),
        ]);
        kill
    }

    /// The awaited process is alive: the task enters `Run`.
    pub fn started(&mut self)
        ensures
            final(self).deep_view() == old(self).deep_view().step(TaskStep::Started),
    {
        if self.phase == Phase::Starting {
            self.status = TaskStatus::Run;
            self.phase = Phase::Running;
        }
    }

    /// The awaited process could not be started: the task stays `Pending`
    /// and the reason is recorded.
    pub fn spawn_failed(&mut self, reason: &str)
        ensures
            final(self).deep_view() == old(self).deep_view().step(TaskStep::SpawnFailed(reason@)),
    {
        if self.phase == Phase::Starting {
            self.lines.push(join2("==> SPAWN FAILED: ", reason));
            self.phase = Phase::Idle;
        }
    }

    /// Stops the task on request. Returns whether a live process has to be
    /// killed.
    pub fn stop(&mut self) -> (kill: bool)
        ensures
            final(self).deep_view() == old(self).deep_view().step(TaskStep::Stop),
            kill == (old(self).deep_view().phase == Phase::Running),
    {
        if self.phase == Phase::Running {
            self.status = TaskStatus::Stop;
            self.lines.push("==> STOPPED (user)".to_owned());
            self.phase = Phase::Idle;
            true
        } else {
            if self.phase == Phase::Starting {
                self.phase = Phase::Idle;
            }
            false
        }
    }

    /// Records an output line of the live process. Returns the line as stored,
    /// or `None` when there is no live process and the line is dropped.
    pub fn record_line(&mut self, line: &str) -> (stored: Option<String>)
        ensures
            final(self).deep_view() == old(self).deep_view().step(TaskStep::Line(line@)),
            stored.deep_view() == if old(self).deep_view().phase == Phase::Running {
                Some(history_line(old(self).deep_view().spec.name, line@))
            } else {
                None
            },
    {
        if self.phase == Phase::Running {
            let mut full = join3("[", self.spec.name.as_str(), "] ");
            full.append(line);
            let copy = full.clone();
            self.lines.push(full);
            Some(copy)
        } else {
            None
        }
    }

    /// Records that the live process exited with `code`. Returns the marker
    /// that closes the history, or `None` when there is no live process and
    /// the exit is dropped.
    pub fn record_exit(&mut self, code: i32) -> (marker: Option<String>)
        ensures
            final(self).deep_view() == old(self).deep_view().step(TaskStep::Exited(code as int)),
            marker.deep_view() == if old(self).deep_view().phase == Phase::Running {
                Some(exit_marker(code as int))
            } else {
                None
            },
    {
        if self.phase == Phase::Running {
            let marker = if code == 0 {
                self.status = TaskStatus::Okay;
                "==> OK".to_owned()
            } else {
                self.status = TaskStatus::Fail;
                let digits = i64_to_string(code as i64);
                join3("==> FAIL (exit ", digits.as_str(), ")")
            };
            self.lines.push(marker.clone());
            self.phase = Phase::Idle;
            Some(marker)
        } else {
            None
        }
    }
}

/// Every step keeps a task's invariant; in particular the history never
/// exceeds its capacity.
pub proof fn lemma_step_keeps_inv(t: TaskRuntimeView, step: TaskStep)
    requires
        t.inv(),
    ensures
        t.step(step).inv(),
        t.step(step).cap == t.cap,
        t.step(step).spec == t.spec,
{
}

/// `Fail` is entered only by an exit with a non-zero code, `Okay` only by an
/// exit with code 0, and `Run` only when the process asked for by a restart
/// has started, at which point the history holds the restart marker alone.
pub proof fn lemma_status_causes(t: TaskRuntimeView, step: TaskStep)
    requires
        t.inv(),
    ensures
        t.step(step).status == TaskStatus::Fail && t.status != TaskStatus::Fail ==> (step matches TaskStep::Exited(
            c,
        ) && c != 0),
        t.step(step).status == TaskStatus::Okay && t.status != TaskStatus::Okay ==> step
            == TaskStep::Exited(0),
        t.step(step).status == TaskStatus::Run && t.status != TaskStatus::Run ==> step
            == TaskStep::Started && t.status == TaskStatus::Pending && t.lines == keep_last(
            seq![restart_marker(t.spec.cmd)],
            t.cap,
        ),
        step == TaskStep::Restart ==> t.step(step).status == TaskStatus::Pending && t.step(
            step,
        ).lines == keep_last(seq![restart_marker(t.spec.cmd)], t.cap),
        step matches TaskStep::Exited(c) ==> (t.phase == Phase::Running ==> t.step(step).status
            == (if c == 0 {
            TaskStatus::Okay
        } else {
            TaskStatus::Fail
        })),
{
}

/// The position of the first task called `name`, if there is one.
pub open spec fn position(tasks: Seq<TaskRuntimeView>, name: Seq<char>) -> Option<int>
    decreases tasks.len(),
{
    if tasks.len() == 0 {
        None
    } else if tasks[0].spec.name == name {
        Some(0)
    } else {
        match position(tasks.drop_first(), name) {
            Some(i) => Some(i + 1),
            None => None,
        }
    }
}

/// No two tasks share a name.
pub open spec fn distinct_names(tasks: Seq<TaskRuntimeView>) -> bool {
    forall|i: int, j: int|
        0 <= i < j < tasks.len() ==> (#[trigger] tasks[i]).spec.name != (#[trigger] tasks[j]).spec.name
}

/// A position found by name is in range and holds a task of that name, and
/// no earlier task has it.
pub proof fn lemma_position_found(tasks: Seq<TaskRuntimeView>, name: Seq<char>)
    ensures
        match position(tasks, name) {
            Some(i) => 0 <= i < tasks.len() && tasks[i].spec.name == name && forall|j: int|
                0 <= j < i ==> (#[trigger] tasks[j]).spec.name != name,
            None => forall|j: int| 0 <= j < tasks.len() ==> (#[trigger] tasks[j]).spec.name != name,
        },
    decreases tasks.len(),
{
    if tasks.len() > 0 && tasks[0].spec.name != name {
        let rest = tasks.drop_first();
        lemma_position_found(rest, name);
        match position(rest, name) {
            Some(i) => {
                assert forall|j: int| 0 <= j < i + 1 implies (#[trigger] tasks[j]).spec.name
                    != name by {
                    if j > 0 {
                        assert(tasks[j] == rest[j - 1]);
                    }
                }
            },
            None => {
                assert forall|j: int| 0 <= j < tasks.len() implies (#[trigger] tasks[j]).spec.name
                    != name by {
                    if j > 0 {
                        assert(tasks[j] == rest[j - 1]);
                    }
                }
            },
        }
    }
}

/// Where a name is found does not depend on anything but the names.
pub proof fn lemma_position_by_names(a: Seq<TaskRuntimeView>, b: Seq<TaskRuntimeView>, name: Seq<char>)
    requires
        a.len() == b.len(),
        forall|i: int| 0 <= i < a.len() ==> (#[trigger] a[i]).spec.name == (#[trigger] b[i]).spec.name,
    ensures
        position(a, name) == position(b, name),
    decreases a.len(),
{
    if a.len() > 0 {
        assert(a[0].spec.name == b[0].spec.name);
        if a[0].spec.name != name {
            let ra = a.drop_first();
            let rb = b.drop_first();
            assert forall|i: int| 0 <= i < ra.len() implies (#[trigger] ra[i]).spec.name == (
            #[trigger] rb[i]).spec.name by {
                assert(ra[i] == a[i + 1]);
                assert(rb[i] == b[i + 1]);
            }
            lemma_position_by_names(ra, rb, name);
        }
    }
}

/// The position of the first task called `name`, if there is one.
pub fn find_task(tasks: &Vec<TaskRuntime>, name: &str) -> (r: Option<usize>)
    ensures
        match r {
            Some(i) => position(tasks.deep_view(), name@) == Some(i as int) && i < tasks.len()
                && tasks[i as int].deep_view().spec.name == name@,
            None => position(tasks.deep_view(), name@) is None,
        },
{
    let ghost all = tasks.deep_view();
    let mut i: usize = 0;
    proof {
        assert(all.skip(0) =~= all);
    }
    while i < tasks.len()
        invariant
            i <= tasks.len(),
            all == tasks.deep_view(),
            position(all, name@) == (match position(all.skip(i as int), name@) {
                Some(k) => Some(k + i),
                None => None,
            }),
        decreases tasks.len() - i,
    {
        proof {
            assert(all.skip(i as int)[0] == tasks[i as int].deep_view());
            assert(all.skip(i as int).drop_first() =~= all.skip(i as int + 1));
        }
        if str_eq(tasks[i].name().as_str(), name) {
            return Some(i);
        }
        i += 1;
    }
    None
}

/// The arguments of the shell that runs a task's command: a login shell that
/// is handed the command as one text.
pub fn shell_args(cmd: &str) -> (r: Vec<String>)
    ensures
        r.deep_view() == seq!["-lc"@, cmd@],
{
    let mut v: Vec<String> = Vec::new();
    assert(v.deep_view() =~= Seq::<Seq<char>>::empty());
    crate::text::push_line(&mut v, "-lc".to_owned());
    crate::text::push_line(&mut v, cmd.to_owned());
    assert(v.deep_view() =~= seq!["-lc"@, cmd@]);
    v
}

/// What a signal is addressed to so that it reaches the whole process group
/// led by process `pid`: the negated id. No group is addressed for an id
/// that is 0 or does not fit a signed 32-bit number.
pub open spec fn group_target(pid: u32) -> Option<i32> {
    if 0 < pid <= i32::MAX {
        Some((-(pid as int)) as i32)
    } else {
        None
    }
}

/// What a signal is addressed to so that it reaches the process group led
/// by process `pid`.
pub fn process_group_target(pid: u32) -> (r: Option<i32>)
    ensures
        r == group_target(pid),
{
    if pid > 0 && pid <= 2147483647 {
        Some(-(pid as i32))
    } else {
        None
    }
}

} // verus!
