//! The rows of the list: one per configured task, then one per container.

use crate::config::{TaskSpec, TaskSpecView};
use crate::docker::{
    container_name, ContainerSummary, ContainerSummaryView, display_name, Port, PortView,
};
use crate::model::{Kind, SnapshotView, UiItem, UiItemView};
use crate::tasks::{find_task, position, status_text, TaskRuntime, TaskRuntimeView, TaskStatus};
use crate::text::{
    collapse_whitespace, collapse_ws, decimal_nat, lowercase_of, pad_left, pad_right,
    push_padded_left, push_padded_right, str_eq, to_lowercase, u64_to_string,
};
use vstd::prelude::*;
use vstd::string::*;

verus! {

/// The coloured dot in front of a task row.
pub open spec fn task_badge(status: TaskStatus) -> Seq<char> {
    match status {
        TaskStatus::Run => "\u{1F7E2}"@,
        TaskStatus::Fail => "\u{1F534}"@,
        _ => "\u{26AA}\u{FE0F}"@,
    }
}

/// The text of a task row: badge, name in 14 columns, status in 4, and the
/// number of stored lines right-aligned in 4.
pub open spec fn task_label(name: Seq<char>, status: TaskStatus, lines: nat) -> Seq<char> {
    task_badge(status) + " task: "@ + pad_right(name, 14) + "  ["@ + pad_right(
        status_text(status),
        4,
    ) + "]  logs:"@ + pad_left(decimal_nat(lines), 4)
}

/// The row of a configured task, given the runtime records.
pub open spec fn task_row(spec: TaskSpecView, tasks: Seq<TaskRuntimeView>) -> UiItemView {
    let (status, lines) = match position(tasks, spec.name) {
        Some(i) => (tasks[i].status, tasks[i].lines.len()),
        None => (TaskStatus::Pending, 0),
    };
    UiItemView {
        kind: Kind::Task,
        id: spec.name,
        name: spec.name,
        label: task_label(spec.name, status, lines),
        ports: Seq::empty(),
        task_cmd: Some(spec.cmd),
    }
}

/// The coloured dot in front of a container row, by its state in lowercase.
pub open spec fn container_badge(state: Seq<char>) -> Seq<char> {
    if state == "running"@ {
        "\u{1F7E2}"@
    } else if state == "paused"@ {
        "\u{1F7E1}"@
    } else if state == "restarting"@ {
        "\u{1F535}"@
    } else if state == "exited"@ || state == "dead"@ {
        "\u{1F534}"@
    } else {
        "\u{26AA}\u{FE0F}"@
    }
}

/// The text of a container row: badge, name in 22 columns, and the status
/// with its whitespace collapsed.
pub open spec fn container_label(name: Seq<char>, state: Seq<char>, status: Seq<char>) -> Seq<
    char,
> {
    container_badge(lowercase_of(state)) + " "@ + pad_right(name, 22) + " "@ + collapse_ws(status)
}

/// The row of a container.
pub open spec fn container_row(entry: (ContainerSummaryView, Seq<PortView>)) -> UiItemView {
    let name = display_name(entry.0.names);
    UiItemView {
        kind: Kind::Container,
        id: entry.0.id,
        name,
        label: container_label(name, entry.0.state, entry.0.status),
        ports: entry.1,
        task_cmd: None,
    }
}

/// All rows: the configured tasks in their order, then the containers in theirs.
pub open spec fn build_rows(
    specs: Seq<TaskSpecView>,
    tasks: Seq<TaskRuntimeView>,
    containers: SnapshotView,
) -> Seq<UiItemView> {
    Seq::new(specs.len(), |i: int| task_row(specs[i], tasks)) + Seq::new(
        containers.len(),
        |i: int| container_row(containers[i]),
    )
}

fn make_task_label(name: &str, status: TaskStatus, lines: usize) -> (r: String)
    ensures
        r@ == task_label(name@, status, lines as nat),
{
    let mut out = match status {
        TaskStatus::Run => "\u{1F7E2}".to_owned(),
        TaskStatus::Fail => "\u{1F534}".to_owned(),
        _ => "\u{26AA}\u{FE0F}".to_owned(),
    };
    out.append(" task: ");
    push_padded_right(&mut out, name, 14);
    out.append("  [");
    push_padded_right(&mut out, status.as_str(), 4);
    out.append("]  logs:");
    let count = u64_to_string(lines as u64);
    push_padded_left(&mut out, count.as_str(), 4);
    out
}

fn make_container_label(name: &str, state: &str, status: &str) -> (r: String)
    ensures
        r@ == container_label(name@, state@, status@),
{
    let lower = to_lowercase(state);
    let l = lower.as_str();
    let mut out = if str_eq(l, "running") {
        "\u{1F7E2}".to_owned()
    } else if str_eq(l, "paused") {
        "\u{1F7E1}".to_owned()
    } else if str_eq(l, "restarting") {
        "\u{1F535}".to_owned()
    } else if str_eq(l, "exited") || str_eq(l, "dead") {
        "\u{1F534}".to_owned()
    } else {
        "\u{26AA}\u{FE0F}".to_owned()
    };
    out.append(" ");
    push_padded_right(&mut out, name, 22);
    out.append(" ");
    let status_txt = collapse_whitespace(status);
    out.append(status_txt.as_str());
    out
}

fn make_task_row(spec: &TaskSpec, tasks: &Vec<TaskRuntime>) -> (r: UiItem)
    ensures
        r.deep_view() == task_row(spec.deep_view(), tasks.deep_view()),
{
    let (status, lines) = match find_task(tasks, spec.name.as_str()) {
        Some(i) => (tasks[i].status(), tasks[i].line_count()),
        None => (TaskStatus::Pending, 0),
    };
    let ports: Vec<Port> = Vec::new();
    assert(ports.deep_view() =~= Seq::<PortView>::empty());
    UiItem {
        kind: Kind::Task,
        id: spec.name.clone(),
        name: spec.name.clone(),
        label: make_task_label(spec.name.as_str(), status, lines),
        ports,
        task_cmd: Some(spec.cmd.clone()),
    }
}

/// A copy of a list of port mappings.
pub fn clone_ports(ports: &Vec<Port>) -> (r: Vec<Port>)
    ensures
        r.deep_view() == ports.deep_view(),
{
    let r = ports.clone();
    assert(r.deep_view() =~= ports.deep_view());
    r
}

fn make_container_row(summary: &ContainerSummary, ports: &Vec<Port>) -> (r: UiItem)
    ensures
        r.deep_view() == container_row((summary.deep_view(), ports.deep_view())),
{
    let name = container_name(summary.names.as_str());
    let label = make_container_label(name.as_str(), summary.state.as_str(), summary.status.as_str());
    UiItem {
        kind: Kind::Container,
        id: summary.id.clone(),
        name,
        label,
        ports: clone_ports(ports),
        task_cmd: None,
    }
}

/// Builds all rows: the configured tasks in their order, then the containers.
pub fn make_rows(
    specs: &Vec<TaskSpec>,
    tasks: &Vec<TaskRuntime>,
    containers: &Vec<(ContainerSummary, Vec<Port>)>,
) -> (r: Vec<UiItem>)
    ensures
        r.deep_view() == build_rows(
            specs.deep_view(),
            tasks.deep_view(),
            containers.deep_view(),
        ),
{
    let mut items: Vec<UiItem> = Vec::new();
    let ghost sv = specs.deep_view();
    let ghost tv = tasks.deep_view();
    let ghost cv = containers.deep_view();
    let mut i: usize = 0;
    while i < specs.len()
        invariant
            i <= specs.len(),
            sv == specs.deep_view(),
            tv == tasks.deep_view(),
            items.deep_view() =~= Seq::new(i as nat, |k: int| task_row(sv[k], tv)),
        decreases specs.len() - i,
    {
        let row = make_task_row(&specs[i], tasks);
        let ghost before = items.deep_view();
        let ghost shown = row.deep_view();
        items.push(row);
        assert(items.deep_view() =~= before.push(shown));
        assert(sv[i as int] == specs[i as int].deep_view());
        i += 1;
    }
    let ghost task_rows = items.deep_view();
    let mut j: usize = 0;
    while j < containers.len()
        invariant
            j <= containers.len(),
            cv == containers.deep_view(),
            items.deep_view() =~= task_rows + Seq::new(j as nat, |k: int| container_row(cv[k])),
        decreases containers.len() - j,
    {
        let row = make_container_row(&containers[j].0, &containers[j].1);
        let ghost before = items.deep_view();
        let ghost shown = row.deep_view();
        items.push(row);
        assert(items.deep_view() =~= before.push(shown));
        assert(cv[j as int] == containers[j as int].deep_view());
        j += 1;
    }
    items
}

} // verus!
