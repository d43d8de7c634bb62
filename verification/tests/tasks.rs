use opsdash::config::TaskSpec;
use opsdash::tasks::{
    exit_code, find_task, process_group_target, shell_args, tag_output_line, Phase, TaskRuntime,
    TaskStatus,
};

fn migrate(cap: usize) -> TaskRuntime {
    TaskRuntime::new(
        TaskSpec { name: "migrate".to_string(), cmd: "echo hi; exit 1".to_string() },
        cap,
    )
}

fn running(cap: usize) -> TaskRuntime {
    let mut t = migrate(cap);
    t.restart();
    t.started();
    t
}

#[test]
fn status_labels() {
    assert_eq!(TaskStatus::Pending.as_str(), "\u{2026}");
    assert_eq!(TaskStatus::Run.as_str(), "RUN");
    assert_eq!(TaskStatus::Okay.as_str(), "OK");
    assert_eq!(TaskStatus::Fail.as_str(), "FAIL");
    assert_eq!(TaskStatus::Stop.as_str(), "STOP");
}

#[test]
fn a_new_task_is_pending_and_idle() {
    let t = migrate(10);
    assert_eq!(t.name(), "migrate");
    assert_eq!(t.cmd(), "echo hi; exit 1");
    assert_eq!(t.status(), TaskStatus::Pending);
    assert_eq!(t.phase(), Phase::Idle);
    assert_eq!(t.line_count(), 0);
}

#[test]
fn restart_clears_history_and_waits_for_a_process() {
    let mut t = running(10);
    t.record_line("[OUT] old");
    let kill = t.restart();
    assert!(kill);
    assert_eq!(t.status(), TaskStatus::Pending);
    assert_eq!(t.phase(), Phase::Starting);
    assert_eq!(t.history(), vec!["==> RESTART: echo hi; exit 1"]);
    assert!(!migrate(10).restart());
}

#[test]
fn started_enters_run_only_after_a_restart() {
    let mut t = migrate(10);
    t.started();
    assert_eq!(t.status(), TaskStatus::Pending);
    t.restart();
    t.started();
    assert_eq!(t.status(), TaskStatus::Run);
    assert_eq!(t.phase(), Phase::Running);
}

#[test]
fn spawn_failure_leaves_the_task_pending_with_an_error_line() {
    let mut t = migrate(10);
    t.restart();
    t.spawn_failed("No such file or directory");
    assert_eq!(t.status(), TaskStatus::Pending);
    assert_eq!(t.phase(), Phase::Idle);
    assert_eq!(
        t.history(),
        vec!["==> RESTART: echo hi; exit 1", "==> SPAWN FAILED: No such file or directory"]
    );
}

#[test]
fn exit_with_nonzero_code_fails() {
    let mut t = running(10);
    assert_eq!(t.record_line("[OUT] hi"), Some("[migrate] [OUT] hi".to_string()));
    assert_eq!(t.record_exit(1), Some("==> FAIL (exit 1)".to_string()));
    assert_eq!(t.status(), TaskStatus::Fail);
    assert_eq!(t.phase(), Phase::Idle);
    assert_eq!(
        t.history(),
        vec!["==> RESTART: echo hi; exit 1", "[migrate] [OUT] hi", "==> FAIL (exit 1)"]
    );
}

#[test]
fn exit_with_code_zero_succeeds() {
    let mut t = running(10);
    assert_eq!(t.record_exit(0), Some("==> OK".to_string()));
    assert_eq!(t.status(), TaskStatus::Okay);
    assert_eq!(t.history(), vec!["==> RESTART: echo hi; exit 1", "==> OK"]);
}

#[test]
fn negative_exit_codes_are_spelled_with_a_sign() {
    let mut t = running(10);
    t.record_exit(-2);
    assert_eq!(t.status(), TaskStatus::Fail);
    assert_eq!(t.history()[1], "==> FAIL (exit -2)");
    let mut u = running(10);
    u.record_exit(i32::MIN);
    assert_eq!(u.history()[1], "==> FAIL (exit -2147483648)");
}

#[test]
fn reports_without_a_live_process_are_dropped() {
    let mut t = migrate(10);
    assert_eq!(t.record_line("x"), None);
    assert_eq!(t.record_exit(1), None);
    assert_eq!(t.status(), TaskStatus::Pending);
    assert_eq!(t.line_count(), 0);
    let mut done = running(10);
    done.record_exit(0);
    assert_eq!(done.record_line("late"), None);
    assert_eq!(done.record_exit(3), None);
    assert_eq!(done.status(), TaskStatus::Okay);
    assert_eq!(done.line_count(), 2);
}

#[test]
fn stop_marks_a_running_task_only() {
    let mut t = running(10);
    assert!(t.stop());
    assert_eq!(t.status(), TaskStatus::Stop);
    assert_eq!(t.phase(), Phase::Idle);
    assert_eq!(t.history(), vec!["==> RESTART: echo hi; exit 1", "==> STOPPED (user)"]);
    assert!(!t.stop());
    assert_eq!(t.line_count(), 2);
    let mut idle = migrate(10);
    assert!(!idle.stop());
    assert_eq!(idle.status(), TaskStatus::Pending);
    assert_eq!(idle.line_count(), 0);
}

#[test]
fn history_is_bounded_oldest_first() {
    let mut t = running(3);
    for i in 1..=5 {
        t.record_line(&format!("L{i}"));
    }
    assert_eq!(t.history(), vec!["[migrate] L3", "[migrate] L4", "[migrate] L5"]);
    t.record_exit(0);
    assert_eq!(t.history(), vec!["[migrate] L4", "[migrate] L5", "==> OK"]);
    let mut tiny = migrate(0);
    tiny.restart();
    assert_eq!(tiny.line_count(), 0);
}

#[test]
fn output_lines_are_tagged_with_their_stream() {
    assert_eq!(tag_output_line(false, "hi  "), Some("[OUT] hi".to_string()));
    assert_eq!(tag_output_line(true, "  warn\t"), Some("[ERR]   warn".to_string()));
    assert_eq!(tag_output_line(false, "   "), None);
    assert_eq!(tag_output_line(true, ""), None);
}

#[test]
fn exit_code_falls_back_on_success() {
    assert_eq!(exit_code(Some(3), false), 3);
    assert_eq!(exit_code(Some(0), true), 0);
    assert_eq!(exit_code(None, true), 0);
    assert_eq!(exit_code(None, false), 1);
}

#[test]
fn process_groups_are_addressed_by_negative_id() {
    assert_eq!(process_group_target(1234), Some(-1234));
    assert_eq!(process_group_target(1), Some(-1));
    assert_eq!(process_group_target(i32::MAX as u32), Some(-i32::MAX));
    assert_eq!(process_group_target(0), None);
    assert_eq!(process_group_target(i32::MAX as u32 + 1), None);
    assert_eq!(process_group_target(u32::MAX), None);
}

#[test]
fn shell_arguments() {
    assert_eq!(shell_args("echo hi; exit 1"), vec!["-lc", "echo hi; exit 1"]);
}

#[test]
fn tasks_are_found_by_name() {
    let tasks = vec![migrate(1), TaskRuntime::new(
        TaskSpec { name: "seed".to_string(), cmd: "x".to_string() },
        1,
    )];
    assert_eq!(find_task(&tasks, "seed"), Some(1));
    assert_eq!(find_task(&tasks, "migrate"), Some(0));
    assert_eq!(find_task(&tasks, "nope"), None);
}
