use opsdash::config::{Config, TaskSpec};
use opsdash::docker::{ContainerSummary, DockerMeta, Port};
use opsdash::model::{
    Area, Command, ComposeStage, Event, KeyCode, Kind, MouseKind, Pending, Popup, Reply,
    TargetId, TaskSignal,
};
use opsdash::tasks::{Phase, TaskStatus};
use opsdash::ui::{handle_event, help_for_selected, App, Outcome};

fn config(max_log_lines: usize, tasks: &[(&str, &str)]) -> Config {
    Config {
        cwd: "/proj".to_string(),
        profile: "local".to_string(),
        docker_bin: "docker".to_string(),
        auto_compose_up: true,
        compose_profile: "local".to_string(),
        db_container: "supabase-db".to_string(),
        storage_container: "supabase-storage".to_string(),
        post_up_tasks: tasks
            .iter()
            .map(|(n, c)| TaskSpec { name: n.to_string(), cmd: c.to_string() })
            .collect(),
        max_log_lines,
        refresh_ms: 1000,
    }
}

fn meta(available: bool, remote_host: &str) -> DockerMeta {
    DockerMeta {
        backend: "docker".to_string(),
        context_name: "default".to_string(),
        socket_path: String::new(),
        remote_host: remote_host.to_string(),
        available,
        docker_bin: "docker".to_string(),
    }
}

fn container(id: &str, names: &str, state: &str, ports: Vec<Port>) -> (ContainerSummary, Vec<Port>) {
    (
        ContainerSummary {
            id: id.to_string(),
            names: names.to_string(),
            state: state.to_string(),
            status: "Up   2 hours".to_string(),
            ports: String::new(),
        },
        ports,
    )
}

fn web_port() -> Port {
    Port {
        ip: Some("0.0.0.0".to_string()),
        private_port: Some(3000),
        public_port: Some(13000),
        port_type: Some("tcp".to_string()),
    }
}

fn two_containers() -> Vec<(ContainerSummary, Vec<Port>)> {
    vec![
        container("ida", "/a", "running", vec![web_port()]),
        container("idb", "/b", "exited", Vec::new()),
    ]
}

fn key(c: char) -> Event {
    Event::Key { code: KeyCode::Char(c), ctrl: false }
}

fn press(code: KeyCode) -> Event {
    Event::Key { code, ctrl: false }
}

fn quiet(out: &Outcome) -> bool {
    out.commands.is_empty() && !out.quit
}

fn text(s: &str) -> String {
    s.to_string()
}

fn task_target(name: &str) -> Option<TargetId> {
    Some(TargetId::Task { name: name.to_string() })
}

fn container_target(id: &str) -> Option<TargetId> {
    Some(TargetId::Container { id: id.to_string() })
}

/// A dashboard that has started, fetched `containers` and closed the compose
/// dialog; whatever the first selection asked for has been answered.
fn started(max: usize, tasks: &[(&str, &str)], containers: Vec<(ContainerSummary, Vec<Port>)>) -> App {
    let mut app = App::new(config(max, tasks), meta(true, ""));
    let out = app.start();
    assert_eq!(out.commands, vec![Command::Fetch]);
    let out = app.resume(Reply::Snapshot { containers: Some(containers) });
    if app.is_waiting() {
        assert!(matches!(out.commands.last(), Some(Command::SpawnFollower { .. })));
        app.resume(Reply::Started);
    }
    assert!(!app.is_waiting());
    assert!(matches!(app.popup(), Some(Popup::ConfirmComposeRestart { .. })));
    let out = handle_event(&mut app, press(KeyCode::Esc));
    assert!(quiet(&out));
    assert_eq!(app.popup(), &None);
    app
}

fn run_migrate(app: &mut App) {
    let out = handle_event(app, key('r'));
    assert_eq!(
        out.commands,
        vec![Command::SpawnTask { name: text("migrate"), cmd: text("echo hi; exit 1") }]
    );
    assert_eq!(app.pending(), &Pending::Task { name: text("migrate") });
    app.resume(Reply::Started);
    assert!(!app.is_waiting());
}

fn followers_alive(mut alive: usize, commands: &[Command]) -> usize {
    for c in commands {
        match c {
            Command::KillFollower => alive = 0,
            Command::SpawnFollower { .. } => alive += 1,
            _ => {}
        }
        assert!(alive <= 1);
    }
    alive
}

#[test]
fn a_new_dashboard_summarises_its_configuration() {
    let app = App::new(config(50, &[("migrate", "m"), ("seed", "s")]), meta(true, ""));
    assert_eq!(
        app.log_lines(),
        vec![
            "Profile: local",
            "Docker backend: docker | Context: default",
            "Post-up tasks: migrate, seed",
        ]
    );
    assert_eq!(app.item_count(), 0);
    assert_eq!(app.selected(), 0);
    assert!(app.focus_on_list());
    assert!(app.stick_to_bottom());
    assert_eq!(app.current_target(), &None);
    assert_eq!(app.follower(), &None);
    assert!(!app.refreshing());
    assert!(!app.is_waiting());
    assert_eq!(app.task_count(), 2);
    assert_eq!(app.task(1).name(), "seed");
    assert_eq!(app.task(1).status(), TaskStatus::Pending);
    assert_eq!(app.config().max_log_lines, 50);
    assert!(app.docker().available);
    let bare = App::new(config(50, &[]), meta(true, ""));
    assert_eq!(bare.log_lines()[2], "Post-up tasks: (none)");
}

#[test]
fn the_opening_lines_respect_the_capacity() {
    let app = App::new(config(2, &[]), meta(true, ""));
    assert_eq!(
        app.log_lines(),
        vec!["Docker backend: docker | Context: default", "Post-up tasks: (none)"]
    );
    assert!(App::new(config(0, &[]), meta(true, "")).log_lines().is_empty());
}

#[test]
fn tasks_with_one_name_share_a_record() {
    let app = App::new(config(5, &[("a", "first"), ("b", "x"), ("a", "second")]), meta(true, ""));
    assert_eq!(app.task_count(), 2);
    assert_eq!(app.task_position("a"), Some(0));
    assert_eq!(app.task(0).cmd(), "second");
    assert_eq!(app.task_position("b"), Some(1));
    assert_eq!(app.task_position("c"), None);
}

#[test]
fn start_fetches_selects_and_offers_compose() {
    let mut app = App::new(config(50, &[("migrate", "echo hi; exit 1")]), meta(true, ""));
    let out = app.start();
    assert_eq!(out, Outcome { commands: vec![Command::Fetch], quit: false });
    assert_eq!(app.pending(), &Pending::Fetch { reselect: false, startup: true });
    let out = app.resume(Reply::Snapshot { containers: Some(two_containers()) });
    assert!(quiet(&out));
    assert_eq!(app.item_count(), 3);
    assert_eq!(app.item(0).kind, Kind::Task);
    assert_eq!(app.item(0).id, "migrate");
    assert_eq!(app.item(0).task_cmd, Some(text("echo hi; exit 1")));
    assert_eq!(
        app.item(0).label,
        format!("\u{26AA}\u{FE0F} task: {:<14}  [{:<4}]  logs:{:>4}", "migrate", "\u{2026}", 0)
    );
    assert_eq!(app.item(1).kind, Kind::Container);
    assert_eq!(app.item(1).id, "ida");
    assert_eq!(app.item(1).name, "a");
    assert_eq!(app.item(1).ports, vec![web_port()]);
    assert_eq!(app.item(1).label, format!("\u{1F7E2} {:<22} {}", "a", "Up 2 hours"));
    assert_eq!(app.item(2).label, format!("\u{1F534} {:<22} {}", "b", "Up 2 hours"));
    assert_eq!(app.current_target(), &task_target("migrate"));
    assert_eq!(app.highlighted(), Some(0));
    assert!(app.log_lines().is_empty());
    assert_eq!(app.popup(), &Some(Popup::ConfirmComposeRestart { infra_running: false }));
}

#[test]
fn start_without_an_engine_only_says_so() {
    let mut app = App::new(config(50, &[("migrate", "m")]), meta(false, ""));
    let out = app.start();
    assert!(quiet(&out));
    assert_eq!(
        app.log_lines().last().unwrap(),
        "Docker unavailable. Colima: colima start ; docker context use colima ; docker ps"
    );
    assert_eq!(app.item_count(), 1);
    assert_eq!(app.popup(), &None);
    assert!(quiet(&app.tick()));
}

#[test]
fn start_notices_a_running_stack() {
    let mut app = App::new(config(50, &[]), meta(true, ""));
    app.start();
    app.resume(Reply::Snapshot {
        containers: Some(vec![container("x", "/supabase-storage,/y", "running", Vec::new())]),
    });
    assert_eq!(app.popup(), &Some(Popup::ConfirmComposeRestart { infra_running: true }));
    assert!(app.infra_already_up());
}

#[test]
fn container_badges_follow_the_state() {
    let mut app = App::new(config(50, &[]), meta(true, ""));
    app.start();
    let states = ["running", "PAUSED", "restarting", "created", "exited", "dead", "unknown"];
    let containers = states.iter().map(|s| container(s, &format!("/{s}"), s, Vec::new())).collect();
    app.resume(Reply::Snapshot { containers: Some(containers) });
    let badges: Vec<String> =
        (0..7).map(|i| app.item(i).label.chars().take_while(|c| *c != ' ').collect()).collect();
    assert_eq!(
        badges,
        vec![
            "\u{1F7E2}",
            "\u{1F7E1}",
            "\u{1F535}",
            "\u{26AA}\u{FE0F}",
            "\u{1F534}",
            "\u{1F534}",
            "\u{26AA}\u{FE0F}",
        ]
    );
}

#[test]
fn a_failing_task_ends_in_fail_with_its_marker() {
    let mut app = started(50, &[("migrate", "echo hi; exit 1")], Vec::new());
    run_migrate(&mut app);
    assert_eq!(app.task(0).status(), TaskStatus::Run);
    assert_eq!(app.log_lines(), vec!["==> RESTART: echo hi; exit 1"]);
    app.pump_background(
        "",
        Vec::new(),
        vec![
            TaskSignal::Line { name: text("migrate"), line: text("[OUT] hi") },
            TaskSignal::Exited { name: text("migrate"), code: 1 },
        ],
    );
    assert_eq!(app.task(0).status(), TaskStatus::Fail);
    assert_eq!(app.task(0).phase(), Phase::Idle);
    let expected = vec!["==> RESTART: echo hi; exit 1", "[migrate] [OUT] hi", "==> FAIL (exit 1)"];
    assert_eq!(app.task(0).history(), expected);
    assert_eq!(app.log_lines(), expected);
    assert!(app.stick_to_bottom());
}

#[test]
fn a_task_that_exits_with_zero_ends_in_ok() {
    let mut app = started(50, &[("migrate", "echo hi; exit 1")], Vec::new());
    run_migrate(&mut app);
    app.pump_background("", Vec::new(), vec![TaskSignal::Exited { name: text("migrate"), code: 0 }]);
    assert_eq!(app.task(0).status(), TaskStatus::Okay);
    assert_eq!(app.log_lines(), vec!["==> RESTART: echo hi; exit 1", "==> OK"]);
    app.pump_background("", Vec::new(), vec![TaskSignal::Exited { name: text("migrate"), code: 7 }]);
    assert_eq!(app.task(0).status(), TaskStatus::Okay);
}

#[test]
fn a_task_that_cannot_start_stays_pending() {
    let mut app = started(50, &[("migrate", "echo hi; exit 1")], Vec::new());
    let out = handle_event(&mut app, key('t'));
    assert_eq!(out.commands.len(), 1);
    let out = app.resume(Reply::SpawnFailed { reason: text("no shell") });
    assert!(quiet(&out));
    assert_eq!(app.task(0).status(), TaskStatus::Pending);
    assert_eq!(app.task(0).phase(), Phase::Idle);
    assert_eq!(app.log_lines(), vec!["==> RESTART: echo hi; exit 1", "==> SPAWN FAILED: no shell"]);
    assert_eq!(
        app.item(0).label,
        format!("\u{26AA}\u{FE0F} task: {:<14}  [{:<4}]  logs:{:>4}", "migrate", "\u{2026}", 2)
    );
}

#[test]
fn restarting_a_running_task_kills_it_first() {
    let mut app = started(50, &[("migrate", "echo hi; exit 1")], Vec::new());
    run_migrate(&mut app);
    app.pump_background("", Vec::new(), vec![TaskSignal::Line { name: text("migrate"), line: text("x") }]);
    let out = handle_event(&mut app, key('r'));
    assert_eq!(
        out.commands,
        vec![
            Command::KillTask { name: text("migrate") },
            Command::SpawnTask { name: text("migrate"), cmd: text("echo hi; exit 1") },
        ]
    );
    assert_eq!(app.task(0).status(), TaskStatus::Pending);
    assert_eq!(app.task(0).history(), vec!["==> RESTART: echo hi; exit 1"]);
    app.resume(Reply::Started);
    assert_eq!(app.task(0).status(), TaskStatus::Run);
    assert_eq!(
        app.item(0).label,
        format!("\u{1F7E2} task: {:<14}  [{:<4}]  logs:{:>4}", "migrate", "RUN", 1)
    );
}

#[test]
fn stopping_a_task_kills_and_marks_it() {
    let mut app = started(50, &[("migrate", "echo hi; exit 1")], Vec::new());
    run_migrate(&mut app);
    let out = handle_event(&mut app, key('s'));
    assert_eq!(out.commands, vec![Command::KillTask { name: text("migrate") }]);
    assert_eq!(app.task(0).status(), TaskStatus::Stop);
    assert_eq!(app.log_lines(), vec!["==> RESTART: echo hi; exit 1", "==> STOPPED (user)"]);
    let out = handle_event(&mut app, key('s'));
    assert!(quiet(&out));
    assert_eq!(app.task(0).line_count(), 2);
    app.pump_background("", Vec::new(), vec![TaskSignal::Exited { name: text("migrate"), code: 143 }]);
    assert_eq!(app.task(0).status(), TaskStatus::Stop);
}

#[test]
fn a_tick_during_a_fetch_is_skipped() {
    let mut app = started(50, &[], Vec::new());
    let first = app.tick();
    assert_eq!(first.commands, vec![Command::StartFetch]);
    assert!(app.refreshing());
    let second = app.tick();
    assert!(quiet(&second));
    assert!(app.refreshing());
    assert!(quiet(&app.tick()));
    app.refresh_done(Some(two_containers()));
    assert!(!app.refreshing());
    assert_eq!(app.item_count(), 2);
    assert_eq!(app.tick().commands, vec![Command::StartFetch]);
    let lines = app.log_lines().len();
    app.refresh_done(None);
    assert!(!app.refreshing());
    assert_eq!(app.item_count(), 2);
    assert_eq!(app.log_lines().len(), lines + 1);
    assert_eq!(app.log_lines().last().unwrap(), "Refresh failed");
}

#[test]
fn a_tick_is_skipped_while_a_dialog_is_open_or_an_answer_is_awaited() {
    let mut app = started(50, &[], two_containers());
    handle_event(&mut app, key('c'));
    assert!(app.popup().is_some());
    assert!(quiet(&app.tick()));
    assert!(!app.refreshing());
    handle_event(&mut app, press(KeyCode::Esc));
    handle_event(&mut app, key('i'));
    assert!(app.is_waiting());
    assert!(quiet(&app.tick()));
    assert!(!app.refreshing());
}

#[test]
fn switching_containers_kills_the_old_follower_first() {
    let mut app = App::new(config(50, &[]), meta(true, ""));
    app.start();
    let out = app.resume(Reply::Snapshot { containers: Some(two_containers()) });
    assert_eq!(out.commands, vec![Command::SpawnFollower { id: text("ida"), tail: 200 }]);
    assert_eq!(app.pending(), &Pending::Follower { id: text("ida") });
    assert_eq!(app.follower(), &None);
    app.resume(Reply::Started);
    assert_eq!(app.follower(), &Some(text("ida")));
    handle_event(&mut app, press(KeyCode::Esc));
    handle_event(&mut app, press(KeyCode::Down));
    assert_eq!(app.selected(), 1);
    assert_eq!(app.current_target(), &container_target("ida"));
    let out = handle_event(&mut app, press(KeyCode::Enter));
    assert_eq!(
        out.commands,
        vec![Command::KillFollower, Command::SpawnFollower { id: text("idb"), tail: 200 }]
    );
    assert_eq!(app.follower(), &None);
    assert_eq!(app.current_target(), &container_target("idb"));
    // Lines of the first follower that were still queued never show up.
    app.pump_background("ida", vec![text("late line of a")], Vec::new());
    assert_eq!(app.log_lines(), vec!["--- streaming logs for b ---"]);
    app.resume(Reply::Started);
    assert_eq!(app.follower(), &Some(text("idb")));
    app.pump_background("ida", vec![text("later line of a")], Vec::new());
    app.pump_background("idb", vec![text("b1"), text("b2")], Vec::new());
    assert_eq!(app.log_lines(), vec!["--- streaming logs for b ---", "b1", "b2"]);
}

#[test]
fn a_follower_that_does_not_start_leaves_the_banner() {
    let mut app = App::new(config(50, &[]), meta(true, ""));
    app.start();
    app.resume(Reply::Snapshot { containers: Some(two_containers()) });
    let out = app.resume(Reply::SpawnFailed { reason: text("nope") });
    assert!(quiet(&out));
    assert_eq!(app.follower(), &None);
    assert!(!app.is_waiting());
    let expected = vec!["--- streaming logs for a ---", "Log stream failed: nope"];
    assert_eq!(app.log_lines(), expected);
    app.pump_background("ida", vec![text("x")], Vec::new());
    assert_eq!(app.log_lines(), expected);
    handle_event(&mut app, press(KeyCode::Esc));
    let out = handle_event(&mut app, press(KeyCode::Enter));
    assert_eq!(out.commands, vec![Command::SpawnFollower { id: text("ida"), tail: 200 }]);
}

#[test]
fn there_is_never_more_than_one_follower() {
    let mut app = App::new(config(50, &[("migrate", "m")]), meta(true, ""));
    let mut alive = 0;
    alive = followers_alive(alive, &app.start().commands);
    alive = followers_alive(alive, &app.resume(Reply::Snapshot { containers: Some(two_containers()) }).commands);
    alive = followers_alive(alive, &handle_event(&mut app, press(KeyCode::Esc)).commands);
    let moves = [
        KeyCode::Down,
        KeyCode::Enter,
        KeyCode::Down,
        KeyCode::Enter,
        KeyCode::Enter,
        KeyCode::Up,
        KeyCode::Enter,
        KeyCode::Up,
        KeyCode::Enter,
        KeyCode::Down,
        KeyCode::Down,
        KeyCode::Enter,
    ];
    for code in moves {
        let out = handle_event(&mut app, press(code));
        alive = followers_alive(alive, &out.commands);
        if app.is_waiting() {
            alive = followers_alive(alive, &app.resume(Reply::Started).commands);
        }
        assert_eq!(alive, if app.follower().is_some() { 1 } else { 0 });
        if let Some(id) = app.follower() {
            assert_eq!(&container_target(id), app.current_target());
        }
    }
    assert_eq!(alive, 1);
    let out = handle_event(&mut app, key('q'));
    assert!(out.quit);
    assert_eq!(followers_alive(alive, &out.commands), 0);
    assert_eq!(app.follower(), &None);
}

#[test]
fn history_grows_while_a_task_is_not_shown() {
    let mut app = started(50, &[("migrate", "echo hi; exit 1")], two_containers());
    run_migrate(&mut app);
    handle_event(&mut app, press(KeyCode::Down));
    let out = handle_event(&mut app, press(KeyCode::Enter));
    assert_eq!(out.commands, vec![Command::SpawnFollower { id: text("ida"), tail: 200 }]);
    app.resume(Reply::Started);
    app.pump_background(
        "ida",
        vec![text("c1")],
        vec![
            TaskSignal::Line { name: text("migrate"), line: text("[OUT] one") },
            TaskSignal::Line { name: text("migrate"), line: text("[ERR] two") },
        ],
    );
    assert_eq!(app.log_lines(), vec!["--- streaming logs for a ---", "c1"]);
    app.pump_background("ida", Vec::new(), vec![TaskSignal::Exited { name: text("migrate"), code: 0 }]);
    assert_eq!(app.log_lines(), vec!["--- streaming logs for a ---", "c1"]);
    handle_event(&mut app, press(KeyCode::Up));
    let out = handle_event(&mut app, press(KeyCode::Enter));
    assert_eq!(out.commands, vec![Command::KillFollower]);
    assert_eq!(app.current_target(), &task_target("migrate"));
    assert_eq!(
        app.log_lines(),
        vec!["==> RESTART: echo hi; exit 1", "[migrate] [OUT] one", "[migrate] [ERR] two", "==> OK"]
    );
    assert_eq!(app.log_lines(), app.task(0).history());
}

#[test]
fn every_buffer_keeps_the_newest_lines_only() {
    let mut app = started(3, &[("migrate", "echo hi; exit 1")], Vec::new());
    run_migrate(&mut app);
    let signals =
        (1..=5).map(|i| TaskSignal::Line { name: text("migrate"), line: format!("L{i}") }).collect();
    app.pump_background("", Vec::new(), signals);
    let expected = vec!["[migrate] L3", "[migrate] L4", "[migrate] L5"];
    assert_eq!(app.task(0).history(), expected);
    assert_eq!(app.log_lines(), expected);
    for i in 1..=5 {
        app.push_current_log(&format!("note {i}"));
        assert!(app.log_lines().len() <= 3);
    }
    assert_eq!(app.log_lines(), vec!["note 3", "note 4", "note 5"]);
    app.replace_current_logs(vec![text("a"), text("b"), text("c"), text("d")]);
    assert_eq!(app.log_lines(), vec!["b", "c", "d"]);
}

#[test]
fn a_task_named_like_a_container_does_not_leak_into_its_log() {
    let mut app = started(
        50,
        &[("ida", "echo hi")],
        vec![container("ida", "/a", "running", Vec::new())],
    );
    let out = handle_event(&mut app, key('r'));
    assert_eq!(out.commands, vec![Command::SpawnTask { name: text("ida"), cmd: text("echo hi") }]);
    app.resume(Reply::Started);
    handle_event(&mut app, press(KeyCode::Down));
    handle_event(&mut app, press(KeyCode::Enter));
    app.resume(Reply::Started);
    assert_eq!(app.current_target(), &container_target("ida"));
    app.pump_background(
        "ida",
        vec![text("from the container")],
        vec![
            TaskSignal::Line { name: text("ida"), line: text("from the task") },
            TaskSignal::Exited { name: text("ida"), code: 0 },
        ],
    );
    assert_eq!(app.log_lines(), vec!["--- streaming logs for a ---", "from the container"]);
    assert_eq!(
        app.task(0).history(),
        vec!["==> RESTART: echo hi", "[ida] from the task", "==> OK"]
    );
}

#[test]
fn an_exit_appends_its_marker_to_what_is_shown() {
    let mut app = started(50, &[("migrate", "echo hi; exit 1")], Vec::new());
    run_migrate(&mut app);
    app.push_current_log("a note");
    app.pump_background("", Vec::new(), vec![TaskSignal::Exited { name: text("migrate"), code: 2 }]);
    assert_eq!(
        app.log_lines(),
        vec!["==> RESTART: echo hi; exit 1", "a note", "==> FAIL (exit 2)"]
    );
    assert_eq!(app.task(0).history(), vec!["==> RESTART: echo hi; exit 1", "==> FAIL (exit 2)"]);
}

#[test]
fn reports_for_unknown_tasks_are_dropped() {
    let mut app = started(50, &[("migrate", "m")], Vec::new());
    app.pump_background(
        "",
        vec![text("stray")],
        vec![
            TaskSignal::Line { name: text("ghost"), line: text("x") },
            TaskSignal::Exited { name: text("ghost"), code: 1 },
            TaskSignal::Line { name: text("migrate"), line: text("not running") },
        ],
    );
    assert!(app.log_lines().is_empty());
    assert_eq!(app.task(0).line_count(), 0);
    assert_eq!(app.task(0).status(), TaskStatus::Pending);
}

#[test]
fn events_are_dropped_while_an_answer_is_awaited() {
    let mut app = started(50, &[("migrate", "m")], two_containers());
    handle_event(&mut app, key('r'));
    assert!(app.is_waiting());
    for ev in [key('q'), press(KeyCode::Down), key('s'), Event::Other] {
        let out = handle_event(&mut app, ev);
        assert!(quiet(&out));
    }
    assert_eq!(app.selected(), 0);
    assert_eq!(app.pending(), &Pending::Task { name: text("migrate") });
    assert!(quiet(&app.start()));
}

#[test]
fn quit_keys() {
    let mut app = started(50, &[], Vec::new());
    assert!(handle_event(&mut app, key('q')).quit);
    assert!(handle_event(&mut app, Event::Key { code: KeyCode::Char('c'), ctrl: true }).quit);
    assert!(!handle_event(&mut app, Event::Key { code: KeyCode::Char('x'), ctrl: true }).quit);
    handle_event(&mut app, key('c'));
    assert!(app.popup().is_some());
    assert!(handle_event(&mut app, key('q')).quit);
}

#[test]
fn compose_up_reports_failure_and_refreshes() {
    let mut app = started(50, &[], two_containers());
    handle_event(&mut app, key('c'));
    assert_eq!(app.popup(), &Some(Popup::ConfirmComposeRestart { infra_running: false }));
    let out = handle_event(&mut app, key('r'));
    assert_eq!(
        out.commands,
        vec![Command::Compose {
            args: vec![text("compose"), text("--profile"), text("local"), text("up"), text("-d")],
        }]
    );
    assert_eq!(app.popup(), &None);
    assert_eq!(app.pending(), &Pending::Compose { stage: ComposeStage::Up });
    assert_eq!(app.log_lines().last().unwrap(), "Starting services (profile: local)...");
    let out = app.resume(Reply::Exit { code: 2 });
    assert_eq!(out.commands, vec![Command::Fetch]);
    assert_eq!(app.log_lines().last().unwrap(), "Compose up FAILED (exit 2)");
    assert_eq!(app.pending(), &Pending::Fetch { reselect: true, startup: false });
    let out = app.resume(Reply::Snapshot { containers: None });
    assert_eq!(
        out.commands,
        vec![Command::KillFollower, Command::SpawnFollower { id: text("ida"), tail: 200 }]
    );
    assert_eq!(app.item_count(), 2);
}

#[test]
fn compose_restart_falls_back_on_up() {
    let mut app = started(
        50,
        &[],
        vec![container("db", "/supabase-db", "running", Vec::new())],
    );
    handle_event(&mut app, key('c'));
    assert_eq!(app.popup(), &Some(Popup::ConfirmComposeRestart { infra_running: true }));
    let out = handle_event(&mut app, press(KeyCode::Enter));
    assert_eq!(
        out.commands,
        vec![Command::Compose {
            args: vec![text("compose"), text("--profile"), text("local"), text("restart")],
        }]
    );
    assert_eq!(app.log_lines().last().unwrap(), "Restarting services (profile: local)...");
    let out = app.resume(Reply::Exit { code: 1 });
    assert_eq!(
        out.commands,
        vec![Command::Compose {
            args: vec![text("compose"), text("--profile"), text("local"), text("up"), text("-d")],
        }]
    );
    assert_eq!(app.log_lines().last().unwrap(), "Restart failed (exit 1) \u{2192} fallback: up -d");
    assert_eq!(app.pending(), &Pending::Compose { stage: ComposeStage::Fallback });
    let out = app.resume(Reply::Exit { code: 0 });
    assert_eq!(out.commands, vec![Command::Fetch]);
    assert_eq!(app.log_lines().last().unwrap(), "Compose up OK");
}

#[test]
fn compose_restart_that_works_and_fallback_that_fails() {
    let stack = || vec![container("db", "/supabase-db", "running", Vec::new())];
    let mut app = started(50, &[], stack());
    handle_event(&mut app, key('c'));
    handle_event(&mut app, key('r'));
    let out = app.resume(Reply::Exit { code: 0 });
    assert_eq!(out.commands, vec![Command::Fetch]);
    assert_eq!(app.log_lines().last().unwrap(), "Compose restart OK");

    let mut app = started(50, &[], stack());
    handle_event(&mut app, key('c'));
    handle_event(&mut app, key('r'));
    app.resume(Reply::Exit { code: 3 });
    let out = app.resume(Reply::Done { ok: true });
    assert_eq!(out.commands, vec![Command::Fetch]);
    assert_eq!(app.log_lines().last().unwrap(), "Compose up failed (exit 1)");
}

#[test]
fn the_compose_dialog_can_be_dismissed() {
    for code in [KeyCode::Esc, KeyCode::Char('k')] {
        let mut app = started(50, &[], two_containers());
        handle_event(&mut app, key('c'));
        let out = handle_event(&mut app, press(code));
        assert!(quiet(&out));
        assert_eq!(app.popup(), &None);
    }
    let mut app = started(50, &[], two_containers());
    handle_event(&mut app, key('c'));
    let out = handle_event(&mut app, key('z'));
    assert!(quiet(&out));
    assert!(app.popup().is_some());
    // Navigation is suppressed while the dialog is open.
    handle_event(&mut app, press(KeyCode::Down));
    assert_eq!(app.selected(), 0);
    handle_event(&mut app, press(KeyCode::Tab));
    assert!(app.focus_on_list());
}

#[test]
fn the_compose_dialog_needs_an_engine() {
    let mut app = App::new(config(50, &[("migrate", "m")]), meta(false, ""));
    app.start();
    handle_event(&mut app, key('c'));
    assert_eq!(app.popup(), &None);
}

const INSPECTION: &str = r#"[{"Id":"ida","Mounts":[{"Type":"volume","Name":"data"},{"Type":"bind","Name":"x"},{"Type":"volume","Name":"cache"}]}]"#;

#[test]
fn reset_stops_removes_and_reports() {
    let mut app = started(50, &[], two_containers());
    let before = app.log_lines().len();
    let out = handle_event(&mut app, key('x'));
    assert!(quiet(&out));
    assert_eq!(app.popup(), &Some(Popup::ConfirmReset { id: text("ida"), name: text("a") }));
    let out = handle_event(&mut app, key('y'));
    assert_eq!(out.commands, vec![Command::Inspect { id: text("ida") }]);
    assert_eq!(app.popup(), &None);
    assert_eq!(app.log_lines().last().unwrap(), "\u{1F525} RESETTING a (Stop+Rm+VolRm)...");
    let out = app.resume(Reply::Output { text: Some(text(INSPECTION)) });
    assert_eq!(
        out.commands,
        vec![
            Command::Engine { args: vec![text("stop"), text("ida")] },
            Command::RemoveForce { id: text("ida") },
        ]
    );
    let out = app.resume(Reply::Done { ok: true });
    assert_eq!(out.commands, vec![Command::RemoveVolumes { names: vec![text("data"), text("cache")] }]);
    let out = app.resume(Reply::VolumeErrors { errors: vec![None, Some(text("boom"))] });
    assert_eq!(out.commands, vec![Command::Fetch]);
    assert_eq!(
        app.log_lines()[before..],
        [
            "\u{1F525} RESETTING a (Stop+Rm+VolRm)...",
            "Inspecting ida...",
            "Removing container ida...",
            "Removing volume data...",
            "Removing volume cache...",
            "Failed to remove volume cache: boom",
            "\u{2705} Reset complete for ida",
        ]
    );
    let out = app.resume(Reply::Snapshot {
        containers: Some(vec![container("idb", "/b", "exited", Vec::new())]),
    });
    assert_eq!(
        out.commands,
        vec![Command::KillFollower, Command::SpawnFollower { id: text("idb"), tail: 200 }]
    );
    assert_eq!(app.item_count(), 1);
    assert_eq!(app.current_target(), &container_target("idb"));
}

#[test]
fn a_reset_that_fails_says_so_and_stops() {
    let mut app = started(50, &[], two_containers());
    handle_event(&mut app, key('x'));
    handle_event(&mut app, press(KeyCode::Enter));
    let out = app.resume(Reply::Output { text: None });
    assert_eq!(out.commands, vec![Command::Fetch]);
    assert_eq!(app.log_lines().last().unwrap(), "Reset failed: Inspect failed");
    app.resume(Reply::Snapshot { containers: Some(two_containers()) });
    app.resume(Reply::Started);

    handle_event(&mut app, key('x'));
    handle_event(&mut app, key('y'));
    let out = app.resume(Reply::Output { text: Some(text("not json")) });
    assert_eq!(out.commands, vec![Command::Fetch]);
    assert_eq!(app.log_lines().last().unwrap(), "Reset failed: Inspect failed");
    app.resume(Reply::Snapshot { containers: Some(two_containers()) });
    app.resume(Reply::Started);

    handle_event(&mut app, key('x'));
    handle_event(&mut app, key('y'));
    let lines = app.log_lines().len();
    app.resume(Reply::Output { text: Some(text(INSPECTION)) });
    let out = app.resume(Reply::Done { ok: false });
    assert_eq!(out.commands, vec![Command::Fetch]);
    assert_eq!(app.log_lines().len(), lines + 1);
    assert_eq!(app.log_lines().last().unwrap(), "Reset failed: docker rm -f failed");
}

#[test]
fn a_failed_fetch_keeps_the_snapshot_and_says_so() {
    let mut app = started(50, &[("migrate", "m")], two_containers());
    handle_event(&mut app, press(KeyCode::Down));
    handle_event(&mut app, key('s'));
    app.resume(Reply::Done { ok: true });
    let lines = app.log_lines().len();
    let out = app.resume(Reply::Snapshot { containers: None });
    assert!(quiet(&out));
    assert_eq!(app.item_count(), 3);
    assert_eq!(app.log_lines().len(), lines + 1);
    assert_eq!(app.log_lines().last().unwrap(), "Refresh failed");
}

#[test]
fn the_reset_dialog_can_be_cancelled() {
    for code in [KeyCode::Esc, KeyCode::Char('n')] {
        let mut app = started(50, &[], two_containers());
        handle_event(&mut app, key('x'));
        let out = handle_event(&mut app, press(code));
        assert!(quiet(&out));
        assert_eq!(app.popup(), &None);
        assert!(!app.is_waiting());
    }
}

#[test]
fn inspect_shows_the_container() {
    let mut app = started(50, &[], two_containers());
    let out = handle_event(&mut app, key('i'));
    assert_eq!(out.commands, vec![Command::Inspect { id: text("ida") }]);
    assert_eq!(app.pending(), &Pending::Inspect { name: text("a") });
    let out = app.resume(Reply::Output {
        text: Some(text(r#"[{"Id":"0123456789abcdef","State":{"Status":"running","Pid":7,"ExitCode":0},"Config":{"Image":"img","Env":["Z=1","A=2"]}}]"#)),
    });
    assert!(quiet(&out));
    assert_eq!(
        app.popup(),
        &Some(Popup::Inspect {
            title: text("Inspect: a"),
            content: text("ID: 0123456789ab\nImage: img\nStatus: running (Pid: 7, Exit: 0)\nCreated: \n\nPORTS:\n  (none)\n\nMOUNTS:\n  (none)\n\nENV VARIABLES:\n  A=2\n  Z=1"),
        })
    );
    handle_event(&mut app, key('z'));
    assert!(app.popup().is_some());
    handle_event(&mut app, press(KeyCode::Enter));
    assert_eq!(app.popup(), &None);
}

#[test]
fn a_failed_inspection_shows_nothing() {
    let mut app = started(50, &[], two_containers());
    handle_event(&mut app, key('i'));
    let lines = app.log_lines().len();
    app.resume(Reply::Output { text: None });
    assert_eq!(app.popup(), &None);
    assert!(!app.is_waiting());
    assert_eq!(app.log_lines().len(), lines + 1);
    assert_eq!(app.log_lines().last().unwrap(), "Inspect failed");
    handle_event(&mut app, key('i'));
    app.resume(Reply::Output { text: Some(text("{oops")) });
    assert_eq!(app.popup(), &None);
    assert_eq!(app.log_lines().len(), lines + 2);
}

#[test]
fn container_actions_announce_act_and_refresh() {
    let cases = [
        ('r', "restart", "Restarting container a...", true),
        ('s', "stop", "Stopping container a...", false),
        ('t', "start", "Starting container a...", true),
        ('p', "pause", "Pausing container a...", false),
        ('u', "unpause", "Unpausing container a...", false),
        ('k', "kill", "Killing container a...", false),
    ];
    for (c, verb, says, reselect) in cases {
        let mut app = started(50, &[], two_containers());
        let out = handle_event(&mut app, key(c));
        assert_eq!(out.commands, vec![Command::Action { args: vec![text(verb), text("ida")] }]);
        assert_eq!(app.log_lines().last().unwrap(), says);
        assert_eq!(app.pending(), &Pending::Action { what: text(verb), reselect });
        let lines = app.log_lines();
        let out = app.resume(Reply::Done { ok: true });
        assert_eq!(out.commands, vec![Command::Fetch]);
        assert_eq!(app.log_lines(), lines);
        assert_eq!(app.pending(), &Pending::Fetch { reselect, startup: false });
        let out = app.resume(Reply::Snapshot { containers: Some(two_containers()) });
        if reselect {
            assert_eq!(
                out.commands,
                vec![Command::KillFollower, Command::SpawnFollower { id: text("ida"), tail: 200 }]
            );
        } else {
            assert!(quiet(&out));
            assert_eq!(app.follower(), &Some(text("ida")));
        }
    }
}

#[test]
fn a_failed_action_is_reported() {
    let mut app = started(50, &[], two_containers());
    handle_event(&mut app, key('p'));
    let before = app.log_lines().len();
    let out = app.resume(Reply::Done { ok: false });
    assert_eq!(out.commands, vec![Command::Fetch]);
    assert_eq!(app.log_lines().len(), before + 1);
    assert_eq!(app.log_lines().last().unwrap(), "docker pause failed");
    app.resume(Reply::Snapshot { containers: Some(two_containers()) });
    handle_event(&mut app, key('d'));
    app.resume(Reply::Exit { code: 0 });
    assert_eq!(app.log_lines().last().unwrap(), "docker rm -f failed");
}

#[test]
fn forced_removal() {
    let mut app = started(50, &[], two_containers());
    let out = handle_event(&mut app, key('d'));
    assert_eq!(
        out.commands,
        vec![Command::Action { args: vec![text("rm"), text("-f"), text("ida")] }]
    );
    assert_eq!(app.pending(), &Pending::Action { what: text("rm -f"), reselect: false });
    assert_eq!(app.log_lines().last().unwrap(), "Removing container a (force)...");
    let out = app.resume(Reply::Done { ok: true });
    assert_eq!(out.commands, vec![Command::Fetch]);
    let out = app.resume(Reply::Snapshot { containers: Some(Vec::new()) });
    assert!(quiet(&out));
    assert_eq!(app.item_count(), 0);
    assert_eq!(app.selected(), 0);
    assert!(quiet(&handle_event(&mut app, key('d'))));
    assert!(quiet(&handle_event(&mut app, press(KeyCode::Enter))));
}

#[test]
fn container_keys_do_nothing_on_a_task_row_or_without_an_engine() {
    let mut app = started(50, &[("migrate", "m")], two_containers());
    for c in ['p', 'u', 'k', 'd', 'i', 'x', 'z'] {
        let out = handle_event(&mut app, key(c));
        assert!(quiet(&out));
        assert_eq!(app.popup(), &None);
        assert!(!app.is_waiting());
    }
    let mut offline = App::new(config(50, &[]), meta(false, ""));
    offline.refresh_done(Some(two_containers()));
    for c in ['r', 's', 't', 'p', 'u', 'k', 'd', 'i', 'x'] {
        let out = handle_event(&mut offline, key(c));
        assert!(quiet(&out));
        assert_eq!(offline.popup(), &None);
    }
}

#[test]
fn the_browser_opens_the_best_port() {
    let mut app = started(50, &[("migrate", "m")], two_containers());
    assert!(quiet(&handle_event(&mut app, key('o'))));
    handle_event(&mut app, press(KeyCode::Down));
    let out = handle_event(&mut app, key('o'));
    assert_eq!(out.commands, vec![Command::OpenUrl { url: text("http://localhost:13000") }]);
    handle_event(&mut app, press(KeyCode::Down));
    let out = handle_event(&mut app, key('o'));
    assert!(quiet(&out));
    assert_eq!(app.log_lines().last().unwrap(), "No public tcp port for b");

    let mut remote = App::new(config(50, &[]), meta(true, "build.example"));
    remote.refresh_done(Some(two_containers()));
    let out = handle_event(&mut remote, key('o'));
    assert_eq!(out.commands, vec![Command::OpenUrl { url: text("http://build.example:13000") }]);
}

#[test]
fn the_cursor_stays_within_the_rows() {
    let mut app = started(50, &[("migrate", "m")], two_containers());
    handle_event(&mut app, press(KeyCode::Up));
    assert_eq!(app.selected(), 0);
    for expected in [1, 2, 2, 2] {
        handle_event(&mut app, press(KeyCode::Down));
        assert_eq!(app.selected(), expected);
    }
    assert_eq!(app.highlighted(), Some(0));
    app.refresh_done(Some(Vec::new()));
    assert_eq!(app.item_count(), 1);
    assert_eq!(app.selected(), 0);
}

#[test]
fn scrolling_the_log() {
    let mut app = started(50, &[], Vec::new());
    for i in 0..10 {
        app.push_current_log(&format!("l{i}"));
    }
    let lines = app.log_lines().len() as u16;
    let area = Area { x: 0, y: 0, width: 20, height: 10 };
    app.layout(area, 0, 4);
    assert_eq!(app.log_scroll(), lines - 4);
    handle_event(&mut app, press(KeyCode::Tab));
    assert!(!app.focus_on_list());
    handle_event(&mut app, press(KeyCode::Up));
    assert!(!app.stick_to_bottom());
    assert_eq!(app.log_scroll(), lines - 5);
    handle_event(&mut app, press(KeyCode::PageUp));
    assert_eq!(app.log_scroll(), lines - 9);
    handle_event(&mut app, press(KeyCode::Home));
    assert_eq!(app.log_scroll(), 0);
    handle_event(&mut app, press(KeyCode::Up));
    assert_eq!(app.log_scroll(), 0);
    handle_event(&mut app, press(KeyCode::Down));
    assert_eq!(app.log_scroll(), 1);
    assert!(!app.stick_to_bottom());
    handle_event(&mut app, press(KeyCode::PageDown));
    assert_eq!(app.log_scroll(), 5);
    assert_eq!(app.stick_to_bottom(), 5 + 4 >= lines);
    handle_event(&mut app, press(KeyCode::PageDown));
    assert_eq!(app.log_scroll(), 9);
    assert!(app.stick_to_bottom());
    app.layout(area, 0, 4);
    assert_eq!(app.log_scroll(), lines - 4);
    handle_event(&mut app, press(KeyCode::Home));
    handle_event(&mut app, press(KeyCode::End));
    assert!(app.stick_to_bottom());
    assert_eq!(app.log_scroll(), 0);
    handle_event(&mut app, press(KeyCode::Tab));
    assert!(app.focus_on_list());
}

#[test]
fn layout_clamps_the_scroll_position() {
    let mut app = started(50, &[], Vec::new());
    for i in 0..5 {
        app.push_current_log(&format!("l{i}"));
    }
    let lines = app.log_lines().len() as u16;
    let area = Area { x: 0, y: 0, width: 20, height: 10 };
    handle_event(&mut app, Event::Mouse { kind: MouseKind::ScrollUp, column: 0, row: 0 });
    assert!(!app.stick_to_bottom());
    for _ in 0..10 {
        handle_event(&mut app, press(KeyCode::Tab));
    }
    app.layout(area, 0, 100);
    assert_eq!(app.log_scroll(), 0);
    app.layout(area, 0, 2);
    assert_eq!(app.log_scroll(), 0);
    handle_event(&mut app, Event::Mouse { kind: MouseKind::ScrollDown, column: 0, row: 0 });
    assert_eq!(app.log_scroll(), 3);
    assert_eq!(app.stick_to_bottom(), 3 + 2 >= lines);
    handle_event(&mut app, Event::Mouse { kind: MouseKind::ScrollDown, column: 0, row: 0 });
    assert_eq!(app.log_scroll(), 6);
    assert!(app.stick_to_bottom());
    app.layout(area, 0, 2);
    assert_eq!(app.log_scroll(), lines - 2);
}

#[test]
fn a_click_selects_the_row_under_it() {
    let mut app = started(50, &[("migrate", "m")], two_containers());
    app.layout(Area { x: 2, y: 1, width: 20, height: 6 }, 0, 10);
    handle_event(&mut app, press(KeyCode::Tab));
    assert!(!app.focus_on_list());
    // Row 3 is the second row inside the border.
    let out = handle_event(&mut app, Event::Mouse { kind: MouseKind::LeftDown, column: 5, row: 3 });
    assert_eq!(out.commands, vec![Command::SpawnFollower { id: text("ida"), tail: 200 }]);
    assert_eq!(app.selected(), 1);
    assert!(app.focus_on_list());
    app.resume(Reply::Started);
    // The border itself only takes the focus.
    handle_event(&mut app, press(KeyCode::Tab));
    let out = handle_event(&mut app, Event::Mouse { kind: MouseKind::LeftDown, column: 5, row: 1 });
    assert!(quiet(&out));
    assert!(app.focus_on_list());
    assert_eq!(app.selected(), 1);
    let out = handle_event(&mut app, Event::Mouse { kind: MouseKind::LeftDown, column: 5, row: 6 });
    assert!(quiet(&out));
    // A row below the last one selects nothing.
    let out = handle_event(&mut app, Event::Mouse { kind: MouseKind::LeftDown, column: 5, row: 5 });
    assert!(quiet(&out));
    assert_eq!(app.selected(), 1);
    // A click elsewhere moves the focus to the log.
    for (column, row) in [(1, 3), (22, 3), (5, 0), (5, 7)] {
        handle_event(&mut app, press(KeyCode::Tab));
        let out = handle_event(&mut app, Event::Mouse { kind: MouseKind::LeftDown, column, row });
        assert!(quiet(&out));
        assert!(!app.focus_on_list());
    }
    let out = handle_event(&mut app, Event::Mouse { kind: MouseKind::Other, column: 5, row: 3 });
    assert!(quiet(&out));
}

#[test]
fn a_click_counts_from_the_first_row_shown() {
    let mut app = started(50, &[("migrate", "m")], two_containers());
    app.layout(Area { x: 0, y: 0, width: 20, height: 6 }, 2, 10);
    let out = handle_event(&mut app, Event::Mouse { kind: MouseKind::LeftDown, column: 0, row: 1 });
    assert_eq!(out.commands, vec![Command::SpawnFollower { id: text("idb"), tail: 200 }]);
    assert_eq!(app.selected(), 2);
    app.resume(Reply::Started);
    app.layout(Area { x: 0, y: 0, width: 20, height: 6 }, usize::MAX, 10);
    let out = handle_event(&mut app, Event::Mouse { kind: MouseKind::LeftDown, column: 0, row: 2 });
    assert!(quiet(&out));
    assert_eq!(app.selected(), 2);
}

#[test]
fn the_help_bar_depends_on_the_row_and_the_focus() {
    let mut app = App::new(config(50, &[("migrate", "m")]), meta(true, ""));
    assert_eq!(help_for_selected(&app), " q:Quit ");
    app.refresh_done(Some(two_containers()));
    assert_eq!(help_for_selected(&app), "Ent:Log r:Rest s:Stop t:Start tab:Focus q:Quit");
    handle_event(&mut app, press(KeyCode::Down));
    assert_eq!(
        help_for_selected(&app),
        "Ent:Log r:Rest s:Stop t:Start tab:Focus q:Quit p:Paus u:Unp k:Kill d:Rm i:Insp o:Web x:Reset c:Compose"
    );
    handle_event(&mut app, press(KeyCode::Tab));
    assert_eq!(
        help_for_selected(&app),
        "Ent:Log r:Rest s:Stop t:Start tab:Focus q:Quit p:Paus u:Unp k:Kill d:Rm i:Insp o:Web x:Reset c:Compose \u{2191}/\u{2193}:Scroll "
    );
}

#[test]
fn an_answer_nobody_waits_for_changes_nothing() {
    let mut app = started(50, &[("migrate", "m")], two_containers());
    let lines = app.log_lines();
    for reply in [
        Reply::Started,
        Reply::Exit { code: 1 },
        Reply::Done { ok: true },
        Reply::Snapshot { containers: Some(Vec::new()) },
    ] {
        let out = app.resume(reply);
        assert!(quiet(&out));
    }
    assert_eq!(app.item_count(), 3);
    assert_eq!(app.log_lines(), lines);
    assert_eq!(app.follower(), &None);
}

#[test]
fn labels_pad_by_characters_and_never_cut() {
    let names = ["a-very-long-task-name-indeed", "\u{e9}\u{e9}", "", "exactly14chars"];
    let tasks: Vec<(&str, &str)> = names.iter().map(|n| (*n, "cmd")).collect();
    let mut app = App::new(config(50, &tasks), meta(true, ""));
    app.refresh_done(Some(vec![
        container("1", "/a-container-with-quite-a-long-name", "running", Vec::new()),
        container("2", "/\u{fc}ber", "paused", Vec::new()),
    ]));
    for (i, name) in names.iter().enumerate() {
        assert_eq!(
            app.item(i).label,
            format!("\u{26AA}\u{FE0F} task: {:<14}  [{:<4}]  logs:{:>4}", name, "\u{2026}", 0)
        );
    }
    assert_eq!(
        app.item(4).label,
        format!("\u{1F7E2} {:<22} {}", "a-container-with-quite-a-long-name", "Up 2 hours")
    );
    assert_eq!(app.item(5).label, format!("\u{1F7E1} {:<22} {}", "\u{fc}ber", "Up 2 hours"));
}

#[test]
fn line_counts_in_labels_grow_past_four_digits() {
    let mut app = started(20000, &[("migrate", "echo hi; exit 1")], Vec::new());
    run_migrate(&mut app);
    let signals = (0..12344).map(|i| TaskSignal::Line { name: text("migrate"), line: format!("{i}") }).collect();
    app.pump_background("", Vec::new(), signals);
    app.rebuild_items();
    assert_eq!(
        app.item(0).label,
        format!("\u{1F7E2} task: {:<14}  [{:<4}]  logs:{:>4}", "migrate", "RUN", 12345)
    );
}
