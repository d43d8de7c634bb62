use opsdash::config::{
    _compose_files_for_profile, find_project_root, get_config, join_path,
    load_tasks_from_package_json, resolve_docker_binary, sort_tasks, DirProbe, TaskSpec,
};

fn vars(pairs: &[(&str, &str)]) -> Vec<(String, String)> {
    pairs.iter().map(|(k, v)| (k.to_string(), v.to_string())).collect()
}

fn probe(has_compose: bool, has_package: bool) -> DirProbe {
    DirProbe { has_compose, has_package }
}

fn task(name: &str, cmd: &str) -> TaskSpec {
    TaskSpec { name: name.to_string(), cmd: cmd.to_string() }
}

#[test]
fn project_root_prefers_a_compose_file() {
    assert_eq!(find_project_root(&vec![probe(false, true), probe(false, false), probe(true, false)]), 2);
    assert_eq!(find_project_root(&vec![probe(true, true), probe(true, false)]), 0);
    assert_eq!(find_project_root(&vec![probe(false, false), probe(true, true), probe(true, false)]), 1);
}

#[test]
fn project_root_falls_back_on_a_package_file() {
    assert_eq!(find_project_root(&vec![probe(false, false), probe(false, true), probe(false, true)]), 1);
    assert_eq!(find_project_root(&vec![probe(false, true)]), 0);
}

#[test]
fn project_root_defaults_to_the_start_directory() {
    assert_eq!(find_project_root(&Vec::new()), 0);
    assert_eq!(find_project_root(&vec![probe(false, false), probe(false, false)]), 0);
}

#[test]
fn project_root_looks_at_twelve_directories_only() {
    let mut probes = vec![probe(false, false); 13];
    probes[12] = probe(true, true);
    assert_eq!(find_project_root(&probes), 0);
    probes[3] = probe(false, true);
    assert_eq!(find_project_root(&probes), 3);
    probes[11] = probe(true, false);
    assert_eq!(find_project_root(&probes), 11);
}

#[test]
fn docker_binary_comes_from_the_variables() {
    assert_eq!(resolve_docker_binary(&vars(&[("DOCKER_BIN", "podman")])), "podman");
    assert_eq!(resolve_docker_binary(&vars(&[])), "docker");
}

#[test]
fn package_scripts_become_tasks_sorted_by_name() {
    let text = r#"{"name":"x","scripts":{"dev":"vite","build":"tsc","n":1,"Zed":"z"}}"#;
    assert_eq!(
        load_tasks_from_package_json(Some(text)),
        vec![task("Zed", "z"), task("build", "tsc"), task("dev", "vite")]
    );
    assert!(load_tasks_from_package_json(None).is_empty());
    assert!(load_tasks_from_package_json(Some("{")).is_empty());
    assert!(load_tasks_from_package_json(Some(r#"{"scripts":[]}"#)).is_empty());
    assert!(load_tasks_from_package_json(Some(r#"{"name":"x"}"#)).is_empty());
}

#[test]
fn sort_tasks_is_stable() {
    let sorted = sort_tasks(&vec![task("b", "1"), task("a", "2"), task("b", "3"), task("a", "4")]);
    assert_eq!(sorted, vec![task("a", "2"), task("a", "4"), task("b", "1"), task("b", "3")]);
}

#[test]
fn config_merges_profile_and_package_tasks() {
    let env = vars(&[
        ("POST_UP_TASKS_LOCAL", "dev::custom dev\nzeta::z"),
        ("POST_UP_TASKS", "ignored::x"),
        ("MAX_LOG_LINES", "50"),
        ("REFRESH_MS", "abc"),
    ]);
    let cfg = get_config("  ", &env, "/proj".to_string(), Some(r#"{"scripts":{"build":"tsc","dev":"vite"}}"#));
    assert_eq!(cfg.cwd, "/proj");
    assert_eq!(cfg.profile, "local");
    assert_eq!(cfg.compose_profile, "local");
    assert_eq!(cfg.docker_bin, "docker");
    assert!(cfg.auto_compose_up);
    assert_eq!(cfg.db_container, "supabase-db");
    assert_eq!(cfg.storage_container, "supabase-storage");
    assert_eq!(cfg.post_up_tasks, vec![task("build", "tsc"), task("dev", "custom dev"), task("zeta", "z")]);
    assert_eq!(cfg.max_log_lines, 50);
    assert_eq!(cfg.refresh_ms, 1000);
}

#[test]
fn config_falls_back_on_the_single_command() {
    let env = vars(&[
        ("POST_UP_CMD", " npm run x "),
        ("DB_CONTAINER", "pg"),
        ("STORAGE_CONTAINER", "s3"),
        ("DOCKER_BIN", "podman"),
        ("REFRESH_MS", "250"),
    ]);
    let cfg = get_config(" staging ", &env, "/p".to_string(), None);
    assert_eq!(cfg.profile, "staging");
    assert_eq!(cfg.post_up_tasks, vec![task("postup", " npm run x ")]);
    assert_eq!(cfg.db_container, "pg");
    assert_eq!(cfg.storage_container, "s3");
    assert_eq!(cfg.docker_bin, "podman");
    assert_eq!(cfg.max_log_lines, 1200);
    assert_eq!(cfg.refresh_ms, 250);
}

#[test]
fn config_without_any_task() {
    let cfg = get_config("x", &vars(&[("POST_UP_CMD", "  "), ("MAX_LOG_LINES", "-1")]), String::new(), None);
    assert!(cfg.post_up_tasks.is_empty());
    assert_eq!(cfg.max_log_lines, 1200);
    assert_eq!(cfg.profile, "x");
}

#[test]
fn config_clone_is_equal() {
    let cfg = get_config("x", &vars(&[("POST_UP_TASKS", "a::b")]), "/p".to_string(), None);
    assert_eq!(cfg.clone(), cfg);
}

#[test]
fn compose_files_of_a_profile() {
    assert_eq!(
        _compose_files_for_profile("/p", "", true),
        vec!["/p/docker-compose.yml", "/p/docker/local/docker-compose.yml"]
    );
    assert_eq!(
        _compose_files_for_profile("/p/", " dev ", true),
        vec!["/p/docker-compose.yml", "/p/docker/dev/docker-compose.yml"]
    );
    assert_eq!(_compose_files_for_profile("/p", "dev", false), vec!["/p/docker-compose.yml"]);
    assert_eq!(join_path("", "x"), "x");
    assert_eq!(join_path("a", "x"), "a/x");
}
