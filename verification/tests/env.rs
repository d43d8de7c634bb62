use opsdash::env::{
    expand_value, expand_vars, get_profile_value, get_var, key_for_profile, load_env,
    parse_post_up_tasks, profile_env_file,
};

fn vars(pairs: &[(&str, &str)]) -> Vec<(String, String)> {
    pairs.iter().map(|(k, v)| (k.to_string(), v.to_string())).collect()
}

fn tasks(raw: &str) -> Vec<(String, String)> {
    parse_post_up_tasks(raw).into_iter().map(|t| (t.name, t.cmd)).collect()
}

#[test]
fn key_for_profile_appends_the_profile_in_upper_case() {
    assert_eq!(key_for_profile("POST_UP_TASKS", "local"), "POST_UP_TASKS_LOCAL");
    assert_eq!(key_for_profile("POST_UP_TASKS", " my-prof.2 "), "POST_UP_TASKS_MY_PROF_2");
    assert_eq!(key_for_profile("K", ""), "K");
    assert_eq!(key_for_profile("K", "   "), "K");
    assert_eq!(key_for_profile("K", "\u{e9}"), "K__");
    assert_eq!(key_for_profile("K", "stra\u{df}e"), "K_STRASSE");
}

#[test]
fn get_var_takes_the_first_match() {
    let v = vars(&[("A", "1"), ("B", "2"), ("A", "3")]);
    assert_eq!(get_var(&v, "A"), Some("1".to_string()));
    assert_eq!(get_var(&v, "B"), Some("2".to_string()));
    assert_eq!(get_var(&v, "C"), None);
}

#[test]
fn profile_value_prefers_the_profile_key() {
    assert_eq!(get_profile_value("K", "p", &vars(&[("K", "2"), ("K_P", "1")])), "1");
    assert_eq!(get_profile_value("K", "p", &vars(&[("K", "2")])), "2");
    assert_eq!(get_profile_value("K", "p", &vars(&[])), "");
    assert_eq!(get_profile_value("K", "", &vars(&[("K", "2")])), "2");
    assert_eq!(get_profile_value("K", "p", &vars(&[("K_P", ""), ("K", "2")])), "");
}

#[test]
fn task_lists_are_read_line_by_line() {
    let raw = "# comment\nmigrate::npm run migrate\n\n  seed :: npm run seed  \nnpm start\n::only\nname::\n   # later\n";
    assert_eq!(
        tasks(raw),
        vars(&[
            ("migrate", "npm run migrate"),
            ("seed", "npm run seed"),
            ("task", "npm start"),
            ("task", "only"),
        ])
    );
}

#[test]
fn task_lists_edge_cases() {
    assert!(tasks("").is_empty());
    assert!(tasks("  \n\t\n").is_empty());
    assert_eq!(tasks("a::b::c"), vars(&[("a", "b::c")]));
    assert_eq!(tasks("a:b"), vars(&[("task", "a:b")]));
    assert_eq!(tasks("x::y\r\nz"), vars(&[("x", "y"), ("task", "z")]));
    assert_eq!(tasks("x::#y"), vars(&[("x", "#y")]));
    assert!(tasks("#x::y").is_empty());
    assert!(tasks("::").is_empty());
}

#[test]
fn expand_value_replaces_references() {
    let env = vars(&[("B", "1"), ("EMPTY", ""), ("A", "self")]);
    assert_eq!(expand_value("A", "x${B}y${C:-dflt}z${A}w${D}", &env), "x1ydfltzw");
    assert_eq!(expand_value("A", "${EMPTY:-d}", &env), "d");
    assert_eq!(expand_value("A", "${B:-d}", &env), "1");
    assert_eq!(expand_value("A", "${A:-me}", &env), "me");
    assert_eq!(expand_value("Z", "${A}", &env), "self");
    assert_eq!(expand_value("A", "plain $B {x}", &env), "plain $B {x}");
    assert_eq!(expand_value("A", "", &env), "");
}

#[test]
fn expand_value_keeps_unclosed_references() {
    let env = vars(&[("b", "1")]);
    assert_eq!(expand_value("A", "a${b", &env), "a${b");
    assert_eq!(expand_value("A", "$", &env), "$");
    assert_eq!(expand_value("A", "${", &env), "${");
    assert_eq!(expand_value("A", "${b}${", &env), "1${");
    assert_eq!(expand_value("A", "$${b}", &env), "$1");
    assert_eq!(expand_value("A", "${}", &env), "");
    assert_eq!(expand_value("A", "${x:-a:-b}", &env), "a:-b");
    assert_eq!(expand_value("A", "${x:-${b}}", &env), "${b}");
}

#[test]
fn expand_vars_runs_passes_until_nothing_changes() {
    let mut env = vars(&[("A", "${B}/x"), ("B", "${C:-c}"), ("C", "")]);
    expand_vars(&mut env);
    assert_eq!(env, vars(&[("A", "c/x"), ("B", "c"), ("C", "")]));
    let mut plain = vars(&[("A", "1"), ("B", "$A")]);
    expand_vars(&mut plain);
    assert_eq!(plain, vars(&[("A", "1"), ("B", "$A")]));
    let mut empty = vars(&[]);
    expand_vars(&mut empty);
    assert!(empty.is_empty());
}

#[test]
fn expand_vars_sees_earlier_expansions_in_the_same_pass() {
    let mut env = vars(&[("A", "${X:-a}"), ("B", "${A}b")]);
    expand_vars(&mut env);
    assert_eq!(env, vars(&[("A", "a"), ("B", "ab")]));
}

#[test]
fn expand_vars_stops_after_five_passes() {
    // A chain in which V(i) refers to V(i-1); every pass doubles how far a
    // reference reaches, so five passes resolve a chain of 31 links.
    let mut env: Vec<(String, String)> = Vec::new();
    for i in (1..=33).rev() {
        env.push((format!("V{i}"), format!("${{V{}}}", i - 1)));
    }
    env.push(("V0".to_string(), "${W:-end}".to_string()));
    expand_vars(&mut env);
    let mut expected: Vec<(String, String)> = vec![
        ("V33".to_string(), "${V1}".to_string()),
        ("V32".to_string(), "${V0}".to_string()),
        ("V31".to_string(), "${W:-end}".to_string()),
    ];
    for i in (0..=30).rev() {
        expected.push((format!("V{i}"), "end".to_string()));
    }
    assert_eq!(env, expected);
}

#[test]
fn expand_vars_resolves_short_chains_fully() {
    let mut env = vars(&[
        ("V6", "${V5}"),
        ("V5", "${V4}"),
        ("V4", "${V3}"),
        ("V3", "${V2}"),
        ("V2", "${V1}"),
        ("V1", "${V0}"),
        ("V0", "${W:-end}"),
    ]);
    expand_vars(&mut env);
    for (_, v) in &env {
        assert_eq!(v, "end");
    }
}

#[test]
fn loaded_files_are_named_in_order() {
    assert_eq!(load_env(true, Some(" dev "), true), vec![".env", ".env.dev"]);
    assert_eq!(load_env(true, Some("dev"), false), vec![".env"]);
    assert_eq!(load_env(false, Some("dev"), true), vec![".env.dev"]);
    assert_eq!(load_env(true, None, true), vec![".env"]);
    assert!(load_env(false, Some("  "), true).is_empty());
    assert_eq!(profile_env_file(" x "), Some(".env.x".to_string()));
    assert_eq!(profile_env_file(""), None);
}

#[test]
fn key_for_profile_agrees_with_its_description() {
    for profile in ["local", " my-prof.2 ", "", "  ", "\u{e9}", "a b", "ABC", "x_y", "stra\u{df}e"] {
        let p: String = profile
            .trim()
            .to_uppercase()
            .chars()
            .map(|c| if c.is_ascii_alphanumeric() { c } else { '_' })
            .collect();
        let expected = if p.is_empty() { "KEY".to_string() } else { format!("KEY_{p}") };
        assert_eq!(key_for_profile("KEY", profile), expected, "{profile:?}");
    }
}

#[test]
fn task_lines_agree_with_line_splitting() {
    for raw in ["a\nb", "a\r\nb\r\n", "\n\na\n", "a::b\n#c\n  \nd", " \n x :: y \n"] {
        let lines: Vec<&str> =
            raw.trim().lines().map(|l| l.trim()).filter(|l| !l.is_empty() && !l.starts_with('#')).collect();
        assert_eq!(tasks(raw).len(), lines.len(), "{raw:?}");
    }
}
