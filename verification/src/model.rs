//! The vocabulary of the controller: what it shows, what it is told, what it
//! asks the host to do, and what the host answers.

use crate::docker::{ContainerSummary, ContainerSummaryView, Port, PortView};
use vstd::prelude::*;

verus! {

/// What a row of the list stands for.
#[derive(Debug, Clone, Copy, PartialEq, Eq, Structural)]
pub enum Kind {
    Task,
    Container,
}

/// What the visible log shows: a task, by name, or a container, by id.
#[derive(Debug, PartialEq, Eq)]
pub enum TargetId {
    Task { name: String },
    Container { id: String },
}

/// The mathematical content of a [`TargetId`].
pub enum TargetIdView {
    Task { name: Seq<char> },
    Container { id: Seq<char> },
}

impl DeepView for TargetId {
    type V = TargetIdView;

    open spec fn deep_view(&self) -> TargetIdView {
        match self {
            TargetId::Task { name } => TargetIdView::Task { name: name@ },
            TargetId::Container { id } => TargetIdView::Container { id: id@ },
        }
    }
}

/// One row of the list: a task or a container.
#[derive(Debug, PartialEq, Eq)]
pub struct UiItem {
    pub kind: Kind,
    /// The container id, or the task name.
    pub id: String,
    pub name: String,
    pub label: String,
    pub ports: Vec<Port>,
    pub task_cmd: Option<String>,
}

/// The mathematical content of a [`UiItem`].
pub struct UiItemView {
    pub kind: Kind,
    pub id: Seq<char>,
    pub name: Seq<char>,
    pub label: Seq<char>,
    pub ports: Seq<PortView>,
    pub task_cmd: Option<Seq<char>>,
}

impl DeepView for UiItem {
    type V = UiItemView;

    open spec fn deep_view(&self) -> UiItemView {
        UiItemView {
            kind: self.kind,
            id: self.id@,
            name: self.name@,
            label: self.label@,
            ports: self.ports.deep_view(),
            task_cmd: self.task_cmd.deep_view(),
        }
    }
}

/// The modal dialog in front of the dashboard, if any.
#[derive(Debug, PartialEq, Eq)]
pub enum Popup {
    Inspect { title: String, content: String },
    ConfirmReset { id: String, name: String },
    ConfirmComposeRestart { infra_running: bool },
}

/// The mathematical content of a [`Popup`].
pub enum PopupView {
    Inspect { title: Seq<char>, content: Seq<char> },
    ConfirmReset { id: Seq<char>, name: Seq<char> },
    ConfirmComposeRestart { infra_running: bool },
}

impl DeepView for Popup {
    type V = PopupView;

    open spec fn deep_view(&self) -> PopupView {
        match self {
            Popup::Inspect { title, content } => PopupView::Inspect {
                title: title@,
                content: content@,
            },
            Popup::ConfirmReset { id, name } => PopupView::ConfirmReset { id: id@, name: name@ },
            Popup::ConfirmComposeRestart { infra_running } => PopupView::ConfirmComposeRestart {
                infra_running: *infra_running,
            },
        }
    }
}

/// A rectangle of terminal cells.
#[derive(Debug, Clone, Copy, PartialEq, Eq, Structural)]
pub struct Area {
    pub x: u16,
    pub y: u16,
    pub width: u16,
    pub height: u16,
}

/// The keys the dashboard reacts to.
#[derive(Debug, Clone, Copy, PartialEq, Eq, Structural)]
pub enum KeyCode {
    Char(char),
    Enter,
    Esc,
    Tab,
    Up,
    Down,
    PageUp,
    PageDown,
    Home,
    End,
    Other,
}

/// The mouse actions the dashboard reacts to.
#[derive(Debug, Clone, Copy, PartialEq, Eq, Structural)]
pub enum MouseKind {
    ScrollDown,
    ScrollUp,
    LeftDown,
    Other,
}

/// One input event.
#[derive(Debug, Clone, Copy, PartialEq, Eq, Structural)]
pub enum Event {
    Key { code: KeyCode, ctrl: bool },
    Mouse { kind: MouseKind, column: u16, row: u16 },
    Other,
}

/// Outside work the controller asks the host to carry out. The host runs the
/// commands of one step in order. `SpawnFollower`, `SpawnTask`, `Fetch`,
/// `Compose`, `Action`, `RemoveForce`, `Inspect` and `RemoveVolumes` are
/// answered with a [`Reply`]; the others are not. A command that is answered
/// is the last of its step.
#[derive(Debug, PartialEq, Eq)]
pub enum Command {
    /// Kill the process that follows a container's log and drop its channel.
    KillFollower,
    /// Start following the log of container `id`, from its last `tail` lines.
    SpawnFollower { id: String, tail: usize },
    /// Signal the process group of task `name` to terminate.
    KillTask { name: String },
    /// Start `cmd` in a shell, in a process group of its own, for task `name`.
    SpawnTask { name: String, cmd: String },
    /// Fetch a container snapshot in the background.
    StartFetch,
    /// Fetch a container snapshot now.
    Fetch,
    /// Run the engine's compose tool with these arguments.
    Compose { args: Vec<String> },
    /// Run the engine with these arguments; how it ends does not matter.
    Engine { args: Vec<String> },
    /// Run the engine with these arguments and say whether it succeeded.
    Action { args: Vec<String> },
    /// Remove container `id` by force.
    RemoveForce { id: String },
    /// Inspect container `id`.
    Inspect { id: String },
    /// Remove these volumes, one after the other.
    RemoveVolumes { names: Vec<String> },
    /// Open `url` in the browser.
    OpenUrl { url: String },
}

/// The mathematical content of a [`Command`].
pub enum CommandView {
    KillFollower,
    SpawnFollower { id: Seq<char>, tail: usize },
    KillTask { name: Seq<char> },
    SpawnTask { name: Seq<char>, cmd: Seq<char> },
    StartFetch,
    Fetch,
    Compose { args: Seq<Seq<char>> },
    Engine { args: Seq<Seq<char>> },
    Action { args: Seq<Seq<char>> },
    RemoveForce { id: Seq<char> },
    Inspect { id: Seq<char> },
    RemoveVolumes { names: Seq<Seq<char>> },
    OpenUrl { url: Seq<char> },
}

impl DeepView for Command {
    type V = CommandView;

    open spec fn deep_view(&self) -> CommandView {
        match self {
            Command::KillFollower => CommandView::KillFollower,
            Command::SpawnFollower { id, tail } => CommandView::SpawnFollower {
                id: id@,
                tail: *tail,
            },
            Command::KillTask { name } => CommandView::KillTask { name: name@ },
            Command::SpawnTask { name, cmd } => CommandView::SpawnTask { name: name@, cmd: cmd@ },
            Command::StartFetch => CommandView::StartFetch,
            Command::Fetch => CommandView::Fetch,
            Command::Compose { args } => CommandView::Compose { args: args.deep_view() },
            Command::Engine { args } => CommandView::Engine { args: args.deep_view() },
            Command::Action { args } => CommandView::Action { args: args.deep_view() },
            Command::RemoveForce { id } => CommandView::RemoveForce { id: id@ },
            Command::Inspect { id } => CommandView::Inspect { id: id@ },
            Command::RemoveVolumes { names } => CommandView::RemoveVolumes {
                names: names.deep_view(),
            },
            Command::OpenUrl { url } => CommandView::OpenUrl { url: url@ },
        }
    }
}

/// A container snapshot: each container with its port mappings.
pub type Snapshot = Vec<(ContainerSummary, Vec<Port>)>;

/// The mathematical content of a [`Snapshot`].
pub type SnapshotView = Seq<(ContainerSummaryView, Seq<PortView>)>;

/// The host's answer to the command the controller waits on.
#[derive(Debug, PartialEq, Eq)]
pub enum Reply {
    /// The process asked for is alive.
    Started,
    /// The process asked for could not be started.
    SpawnFailed { reason: String },
    /// The snapshot asked for, or `None` when it could not be fetched.
    Snapshot { containers: Option<Snapshot> },
    /// The exit code of the compose tool, 1 when it could not be run.
    Exit { code: i32 },
    /// Whether the action succeeded.
    Done { ok: bool },
    /// What the engine printed, or `None` when the command failed.
    Output { text: Option<String> },
    /// For each volume, why its removal could not be run, if it could not.
    VolumeErrors { errors: Vec<Option<String>> },
}

/// The mathematical content of a [`Reply`].
pub enum ReplyView {
    Started,
    SpawnFailed { reason: Seq<char> },
    Snapshot { containers: Option<SnapshotView> },
    Exit { code: i32 },
    Done { ok: bool },
    Output { text: Option<Seq<char>> },
    VolumeErrors { errors: Seq<Option<Seq<char>>> },
}

impl DeepView for Reply {
    type V = ReplyView;

    open spec fn deep_view(&self) -> ReplyView {
        match self {
            Reply::Started => ReplyView::Started,
            Reply::SpawnFailed { reason } => ReplyView::SpawnFailed { reason: reason@ },
            Reply::Snapshot { containers } => ReplyView::Snapshot {
                containers: containers.deep_view(),
            },
            Reply::Exit { code } => ReplyView::Exit { code: *code },
            Reply::Done { ok } => ReplyView::Done { ok: *ok },
            Reply::Output { text } => ReplyView::Output { text: text.deep_view() },
            Reply::VolumeErrors { errors } => ReplyView::VolumeErrors {
                errors: errors.deep_view(),
            },
        }
    }
}

/// Which run of the compose tool is under way.
#[derive(Debug, Clone, Copy, PartialEq, Eq, Structural)]
pub enum ComposeStage {
    /// `restart`, for a stack that is already up.
    Restart,
    /// `up -d`, tried after a failed `restart`.
    Fallback,
    /// `up -d`, for a stack that is down.
    Up,
}

/// What the controller waits for before it goes on.
#[derive(Debug, PartialEq, Eq)]
pub enum Pending {
    /// Nothing: the controller takes events.
    Idle,
    /// Whether the follower for container `id` started.
    Follower { id: String },
    /// Whether the process for task `name` started.
    Task { name: String },
    /// A snapshot. Afterwards the rows are rebuilt; with `reselect` the
    /// current row is selected again, and with `startup` the first row is
    /// selected and the compose dialog offered.
    Fetch { reselect: bool, startup: bool },
    /// The exit code of a compose run.
    Compose { stage: ComposeStage },
    /// Whether the engine action `what` succeeded; afterwards a snapshot is
    /// fetched.
    Action { what: String, reselect: bool },
    /// The inspection of the container called `name`, to show it.
    Inspect { name: String },
    /// The inspection of container `id`, to learn its volumes before a reset.
    ResetInspect { id: String },
    /// The forced removal of container `id`.
    ResetRemove { id: String, volumes: Vec<String> },
    /// The removal of the volumes of container `id`.
    ResetVolumes { id: String, volumes: Vec<String> },
}

/// The mathematical content of a [`Pending`].
pub enum PendingView {
    Idle,
    Follower { id: Seq<char> },
    Task { name: Seq<char> },
    Fetch { reselect: bool, startup: bool },
    Compose { stage: ComposeStage },
    Action { what: Seq<char>, reselect: bool },
    Inspect { name: Seq<char> },
    ResetInspect { id: Seq<char> },
    ResetRemove { id: Seq<char>, volumes: Seq<Seq<char>> },
    ResetVolumes { id: Seq<char>, volumes: Seq<Seq<char>> },
}

impl DeepView for Pending {
    type V = PendingView;

    open spec fn deep_view(&self) -> PendingView {
        match self {
            Pending::Idle => PendingView::Idle,
            Pending::Follower { id } => PendingView::Follower { id: id@ },
            Pending::Task { name } => PendingView::Task { name: name@ },
            Pending::Fetch { reselect, startup } => PendingView::Fetch {
                reselect: *reselect,
                startup: *startup,
            },
            Pending::Compose { stage } => PendingView::Compose { stage: *stage },
            Pending::Action { what, reselect } => PendingView::Action {
                what: what@,
                reselect: *reselect,
            },
            Pending::Inspect { name } => PendingView::Inspect { name: name@ },
            Pending::ResetInspect { id } => PendingView::ResetInspect { id: id@ },
            Pending::ResetRemove { id, volumes } => PendingView::ResetRemove {
                id: id@,
                volumes: volumes.deep_view(),
            },
            Pending::ResetVolumes { id, volumes } => PendingView::ResetVolumes {
                id: id@,
                volumes: volumes.deep_view(),
            },
        }
    }
}

/// What a background process of a task reported.
#[derive(Debug, PartialEq, Eq)]
pub enum TaskSignal {
    /// The process of task `name` wrote `line`.
    Line { name: String, line: String },
    /// The process of task `name` exited with `code`.
    Exited { name: String, code: i32 },
}

/// The mathematical content of a [`TaskSignal`].
pub enum TaskSignalView {
    Line { name: Seq<char>, line: Seq<char> },
    Exited { name: Seq<char>, code: i32 },
}

impl DeepView for TaskSignal {
    type V = TaskSignalView;

    open spec fn deep_view(&self) -> TaskSignalView {
        match self {
            TaskSignal::Line { name, line } => TaskSignalView::Line { name: name@, line: line@ },
            TaskSignal::Exited { name, code } => TaskSignalView::Exited {
                name: name@,
                code: *code,
            },
        }
    }
}

} // verus!
