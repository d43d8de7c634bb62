use opsdash::docker::{
    action_args, batch_inspect_args, classify, compose_args, container_name, inspect_args,
    inspect_ports_batch, list_args, list_containers_all, logs_args, pick_best_public_port,
    remote_host, rm_force_args, snapshot_lines, volume_rm_args, ContainerSummary, DockerMeta,
    Port,
};
use opsdash::inspect::{format_container_info, inspect_volumes};
use opsdash::text::join_lines;
use opsdash::json::Json;

fn port(private: Option<u16>, public: Option<u16>, kind: Option<&str>) -> Port {
    Port { ip: None, private_port: private, public_port: public, port_type: kind.map(|s| s.to_string()) }
}

fn summary(id: &str, names: &str, state: &str) -> ContainerSummary {
    ContainerSummary {
        id: id.to_string(),
        names: names.to_string(),
        state: state.to_string(),
        status: "Up".to_string(),
        ports: String::new(),
    }
}

fn s(text: &str) -> Json {
    Json::Str(text.to_string())
}

fn obj(fields: Vec<(&str, Json)>) -> Json {
    Json::Object(fields.into_iter().map(|(k, v)| (k.to_string(), v)).collect())
}

#[test]
fn container_name_takes_the_first_name_without_slashes() {
    assert_eq!(container_name("/web,/alias"), "web");
    assert_eq!(container_name("  //db  "), "db");
    assert_eq!(container_name("plain"), "plain");
    assert_eq!(container_name(""), "");
    assert_eq!(container_name(",x"), "");
    assert_eq!(container_name("/ a"), " a");
}

#[test]
fn classify_spots_colima_in_any_case() {
    assert_eq!(classify("Colima", ""), "colima");
    assert_eq!(classify("default", "unix:///var/run/docker.sock"), "docker");
    assert_eq!(classify("x", "unix:///Users/me/.COLIMA/default/docker.sock"), "colima");
    assert_eq!(classify("", ""), "docker");
    assert_eq!(classify("col", "ima"), "docker");
}

#[test]
fn best_port_prefers_known_private_ports() {
    let ports = vec![
        port(Some(5432), Some(5432), Some("tcp")),
        port(Some(8080), Some(18080), Some("tcp")),
        port(Some(3000), Some(13000), Some("tcp")),
    ];
    assert_eq!(pick_best_public_port(&ports), Some(13000));
    let ports = vec![port(Some(80), Some(1080), None), port(Some(8080), Some(18080), None)];
    assert_eq!(pick_best_public_port(&ports), Some(18080));
}

#[test]
fn best_port_then_prefers_known_public_ports() {
    let ports = vec![port(Some(1), Some(9999), Some("tcp")), port(Some(2), Some(8080), Some("tcp"))];
    assert_eq!(pick_best_public_port(&ports), Some(8080));
    let ports = vec![port(Some(1), Some(3000), None), port(Some(2), Some(80), None)];
    assert_eq!(pick_best_public_port(&ports), Some(80));
}

#[test]
fn best_port_falls_back_on_the_first_published_tcp_port() {
    let ports = vec![
        port(Some(53), Some(53), Some("udp")),
        port(Some(7), None, Some("tcp")),
        port(Some(1), Some(9999), Some("tcp")),
        port(Some(2), Some(9998), Some("tcp")),
    ];
    assert_eq!(pick_best_public_port(&ports), Some(9999));
}

#[test]
fn best_port_is_none_without_a_published_tcp_port() {
    assert_eq!(pick_best_public_port(&Vec::new()), None);
    let ports = vec![port(Some(3000), None, Some("tcp")), port(Some(3000), Some(3000), Some("udp"))];
    assert_eq!(pick_best_public_port(&ports), None);
}

#[test]
fn remote_host_reads_ssh_and_tcp_addresses() {
    assert_eq!(remote_host("ssh://user@example.com:22"), "example.com");
    assert_eq!(remote_host("tcp://10.0.0.5:2376"), "10.0.0.5");
    assert_eq!(remote_host("ssh://host"), "host");
    assert_eq!(remote_host("ssh://a@b@c:1//x"), "c");
    assert_eq!(remote_host("ssh://"), "");
    assert_eq!(remote_host("unix:///var/run/docker.sock"), "localhost");
    assert_eq!(remote_host(""), "localhost");
    assert_eq!(remote_host("ssh:/x"), "localhost");
}

#[test]
fn detect_reads_the_context() {
    let meta = DockerMeta::detect(
        "docker",
        Some("colima\n"),
        Some(r#"[{"Name":"colima","Endpoints":{"docker":{"Host":"unix:///x/.colima/docker.sock"}}}]"#),
        true,
    );
    assert_eq!(
        meta,
        DockerMeta {
            backend: "colima".to_string(),
            context_name: "colima".to_string(),
            socket_path: "unix:///x/.colima/docker.sock".to_string(),
            remote_host: "localhost".to_string(),
            available: true,
            docker_bin: "docker".to_string(),
        }
    );
    let remote = DockerMeta::detect(
        "podman",
        Some(" prod "),
        Some(r#"[{"Endpoints":{"docker":{"Host":"ssh://ops@build.example:2222"}}}]"#),
        false,
    );
    assert_eq!(remote.backend, "docker");
    assert_eq!(remote.context_name, "prod");
    assert_eq!(remote.remote_host, "build.example");
    assert_eq!(remote.socket_path, "ssh://ops@build.example:2222");
    assert!(!remote.available);
    assert_eq!(remote.docker_bin, "podman");
}

#[test]
fn detect_falls_back_when_commands_fail() {
    let none = DockerMeta::detect("docker", None, Some("[]"), true);
    assert_eq!(none.backend, "unknown");
    assert_eq!(none.context_name, "default");
    assert_eq!(none.socket_path, "");
    assert_eq!(none.remote_host, "localhost");
    let half = DockerMeta::detect("docker", Some("ctx"), None, true);
    assert_eq!(half.context_name, "ctx");
    assert_eq!(half.backend, "unknown");
    let bad = DockerMeta::detect("docker", Some("ctx"), Some("not json"), true);
    assert_eq!(bad.context_name, "ctx");
    assert_eq!(bad.backend, "unknown");
    assert_eq!(bad.remote_host, "localhost");
    let empty = DockerMeta::detect("docker", Some("colima"), Some("[]"), true);
    assert_eq!(empty.backend, "colima");
    assert_eq!(empty.socket_path, "");
    assert_eq!(empty.remote_host, "localhost");
}

#[test]
fn snapshot_lines_drops_blank_lines() {
    assert_eq!(snapshot_lines("  {a}\n\n {b} \r\n"), vec!["{a}", "{b}"]);
    assert!(snapshot_lines("").is_empty());
    assert!(snapshot_lines(" \n \n").is_empty());
    assert_eq!(snapshot_lines("one"), vec!["one"]);
}

#[test]
fn inspect_ports_batch_reads_every_mapping() {
    let out = r#"[
        {"Id":"abc","NetworkSettings":{"Ports":{
            "3000/tcp":[{"HostIp":"0.0.0.0","HostPort":"13000"}],
            "5432/tcp":null,
            "53/udp":[{"HostIp":"::","HostPort":"x"},{"HostPort":"+53"}],
            "odd":7,
            "9/sctp/extra":null}}},
        {"NoId":1},
        {"Id":"def"}
    ]"#;
    let table = inspect_ports_batch(out);
    assert_eq!(table.len(), 2);
    assert_eq!(table[0].0, "abc");
    assert_eq!(
        table[0].1,
        vec![
            Port {
                ip: Some("0.0.0.0".to_string()),
                private_port: Some(3000),
                public_port: Some(13000),
                port_type: Some("tcp".to_string()),
            },
            Port {
                ip: Some("::".to_string()),
                private_port: Some(53),
                public_port: None,
                port_type: Some("udp".to_string()),
            },
            Port {
                ip: None,
                private_port: Some(53),
                public_port: Some(53),
                port_type: Some("udp".to_string()),
            },
            Port {
                ip: None,
                private_port: Some(5432),
                public_port: None,
                port_type: Some("tcp".to_string()),
            },
            Port {
                ip: None,
                private_port: Some(9),
                public_port: None,
                port_type: Some("sctp".to_string()),
            },
        ]
    );
    assert_eq!(table[1].0, "def");
    assert!(table[1].1.is_empty());
}

#[test]
fn inspect_ports_batch_gives_nothing_for_bad_input() {
    assert!(inspect_ports_batch("nonsense").is_empty());
    assert!(inspect_ports_batch(r#"{"Id":"x"}"#).is_empty());
    assert!(inspect_ports_batch("").is_empty());
}

#[test]
fn a_port_key_without_protocol_counts_as_tcp() {
    let table = inspect_ports_batch(r#"[{"Id":"a","NetworkSettings":{"Ports":{"80":null,"x/udp":null}}}]"#);
    assert_eq!(
        table[0].1,
        vec![
            Port { ip: None, private_port: Some(80), public_port: None, port_type: Some("tcp".to_string()) },
            Port { ip: None, private_port: None, public_port: None, port_type: Some("udp".to_string()) },
        ]
    );
}

#[test]
fn list_containers_all_skips_bad_records_and_sorts_by_name() {
    let records = vec![
        Some(summary("1", "/Zeta", "  ")),
        None,
        Some(summary("2", "/alpha,/x", "running")),
        Some(summary("3", "/Beta", "exited")),
    ];
    let inspect = r#"[{"Id":"2","NetworkSettings":{"Ports":{"80/tcp":[{"HostIp":"0.0.0.0","HostPort":"8080"}]}}}]"#;
    let snap = list_containers_all(records, Some(inspect));
    let names: Vec<&str> = snap.iter().map(|(c, _)| c.names.as_str()).collect();
    assert_eq!(names, vec!["/alpha,/x", "/Beta", "/Zeta"]);
    assert_eq!(snap[0].0.state, "running");
    assert_eq!(snap[2].0.state, "unknown");
    assert_eq!(
        snap[0].1,
        vec![Port {
            ip: Some("0.0.0.0".to_string()),
            private_port: Some(80),
            public_port: Some(8080),
            port_type: Some("tcp".to_string()),
        }]
    );
    assert!(snap[1].1.is_empty());
    assert!(snap[2].1.is_empty());
}

#[test]
fn list_containers_all_without_inspection() {
    let snap = list_containers_all(vec![Some(summary("1", "/b", "x")), Some(summary("2", "/a", "y"))], None);
    assert_eq!(snap.len(), 2);
    assert_eq!(snap[0].0.id, "2");
    assert_eq!(snap[1].0.id, "1");
    assert!(list_containers_all(vec![None, None], None).is_empty());
}

#[test]
fn records_with_one_name_keep_their_order() {
    let snap = list_containers_all(
        vec![Some(summary("1", "/same", "a")), Some(summary("2", "/SAME", "b")), Some(summary("3", "/same", "c"))],
        None,
    );
    let ids: Vec<&str> = snap.iter().map(|(c, _)| c.id.as_str()).collect();
    assert_eq!(ids, vec!["1", "2", "3"]);
}

#[test]
fn the_last_inspection_of_an_id_counts() {
    let inspect = r#"[{"Id":"1","NetworkSettings":{"Ports":{"80/tcp":null}}},{"Id":"1","NetworkSettings":{"Ports":{"81/tcp":null}}}]"#;
    let snap = list_containers_all(vec![Some(summary("1", "/a", "x"))], Some(inspect));
    assert_eq!(snap[0].1.len(), 1);
    assert_eq!(snap[0].1[0].private_port, Some(81));
}

#[test]
fn batch_inspect_args_lists_the_readable_ids() {
    assert_eq!(
        batch_inspect_args(&vec![Some(summary("a", "", "")), None, Some(summary("b", "", ""))]),
        Some(vec!["inspect".to_string(), "a".to_string(), "b".to_string()])
    );
    assert_eq!(batch_inspect_args(&vec![None]), None);
    assert_eq!(batch_inspect_args(&Vec::new()), None);
}

#[test]
fn engine_arguments() {
    assert_eq!(
        compose_args("local", &vec!["up".to_string(), "-d".to_string()]),
        vec!["compose", "--profile", "local", "up", "-d"]
    );
    assert_eq!(action_args("pause", "abc"), vec!["pause", "abc"]);
    assert_eq!(rm_force_args("abc"), vec!["rm", "-f", "abc"]);
    assert_eq!(inspect_args("abc"), vec!["inspect", "abc"]);
    assert_eq!(volume_rm_args("data"), vec!["volume", "rm", "data"]);
    assert_eq!(logs_args("abc", 200), vec!["logs", "-f", "--tail", "200", "abc"]);
    assert_eq!(list_args(), vec!["ps", "-a", "--no-trunc", "--format", "{{json .}}"]);
}

fn sample_inspection() -> Json {
    Json::Array(vec![obj(vec![
        (
            "Config",
            obj(vec![
                ("Env", Json::Array(vec![s("B=2"), Json::Number(Some(1)), s("A=1"), s("a=0")])),
                ("Image", s("nginx:latest")),
            ]),
        ),
        ("Created", s("2024-01-01T00:00:00Z")),
        ("Id", s("0123456789abcdef")),
        (
            "Mounts",
            Json::Array(vec![
                obj(vec![
                    ("Destination", s("/data")),
                    ("Name", s("data")),
                    ("Source", s("/var/lib/docker/volumes/data/_data")),
                    ("Type", s("volume")),
                ]),
                obj(vec![("Destination", s("/etc/x")), ("Source", s("/home/x")), ("Type", s("bind"))]),
                obj(vec![("Name", s("cache")), ("Type", s("volume"))]),
                obj(vec![("Name", Json::Null), ("Type", s("volume"))]),
            ]),
        ),
        (
            "NetworkSettings",
            obj(vec![(
                "Ports",
                obj(vec![
                    ("443/tcp", Json::Null),
                    (
                        "80/tcp",
                        Json::Array(vec![
                            obj(vec![("HostIp", s("0.0.0.0")), ("HostPort", s("8080"))]),
                            obj(vec![("HostPort", s("8081"))]),
                            obj(vec![("HostIp", s("::")), ("HostPort", s(""))]),
                            obj(vec![("HostIp", s("::"))]),
                        ]),
                    ),
                    ("99/tcp", Json::Bool(true)),
                ]),
            )]),
        ),
        (
            "State",
            obj(vec![
                ("ExitCode", Json::Number(Some(-3))),
                ("Pid", Json::Number(Some(42))),
                ("Status", s("running")),
            ]),
        ),
    ])])
}

#[test]
fn container_info_lists_everything() {
    let expected = [
        "ID: 0123456789ab",
        "Image: nginx:latest",
        "Status: running (Pid: 42, Exit: -3)",
        "Created: 2024-01-01T00:00:00Z",
        "",
        "PORTS:",
        "  443/tcp (not exposed)",
        "  80/tcp -> 0.0.0.0:8080, 0.0.0.0:8081",
        "",
        "MOUNTS:",
        "  volume: /var/lib/docker/volumes/data/_data -> /data",
        "  bind: /home/x -> /etc/x",
        "  volume:  -> ",
        "  volume:  -> ",
        "",
        "ENV VARIABLES:",
        "  A=1",
        "  B=2",
        "  a=0",
    ]
    .join("\n");
    assert_eq!(format_container_info(&sample_inspection()), expected);
}

#[test]
fn container_info_of_an_empty_document() {
    let expected = "ID: \nImage: \nStatus: unknown (Pid: 0, Exit: 0)\nCreated: \n\nPORTS:\n  (none)\n\nMOUNTS:\n  (none)\n\nENV VARIABLES:\n  (none)";
    assert_eq!(format_container_info(&Json::Null), expected);
    assert_eq!(format_container_info(&Json::Array(Vec::new())), expected);
}

#[test]
fn container_info_reads_a_bare_object_too() {
    let doc = obj(vec![
        ("Config", obj(vec![("Env", Json::Array(vec![Json::Null]))])),
        ("Id", s("short")),
        ("NetworkSettings", obj(vec![("Ports", obj(vec![("80/tcp", Json::Array(Vec::new()))]))])),
    ]);
    let expected = "ID: short\nImage: \nStatus: unknown (Pid: 0, Exit: 0)\nCreated: \n\nPORTS:\n  80/tcp -> \n\nMOUNTS:\n  (none)\n\nENV VARIABLES:";
    assert_eq!(format_container_info(&doc), expected);
}

#[test]
fn inspect_volumes_names_the_volume_mounts() {
    assert_eq!(inspect_volumes(&sample_inspection()), vec!["data", "cache"]);
    assert!(inspect_volumes(&Json::Null).is_empty());
    assert!(inspect_volumes(&obj(vec![("Mounts", Json::Array(vec![obj(vec![
        ("Name", s("x")),
        ("Type", s("volume")),
    ])]))]))
    .is_empty());
}

#[test]
fn join_lines_puts_the_separator_between_lines() {
    assert_eq!(join_lines(&Vec::new(), ", "), "");
    assert_eq!(join_lines(&vec!["a".to_string()], ", "), "a");
    assert_eq!(join_lines(&vec!["a".to_string(), "".to_string(), "c".to_string()], ", "), "a, , c");
}

#[test]
fn json_members_are_found_by_key() {
    let doc = obj(vec![("a", Json::Number(Some(1))), ("b", s("x"))]);
    assert_eq!(doc.get("b"), Some(&s("x")));
    assert_eq!(doc.get("c"), None);
    assert_eq!(doc.get("a").and_then(|j| j.as_i64()), Some(1));
    assert_eq!(s("x").as_str(), Some(&"x".to_string()));
    assert_eq!(Json::Null.get("a"), None);
    let arr = Json::Array(vec![Json::Bool(true)]);
    assert_eq!(arr.get_index(0), Some(&Json::Bool(true)));
    assert_eq!(arr.get_index(1), None);
    assert_eq!(doc.get_index(0), None);
}

#[test]
fn container_name_agrees_with_its_description() {
    let samples = ["/web,/alias", "  //db  ", "", ",x", "/ a", "/a/b, /c", " /x ,y", "///", "a,b,c"];
    for raw in samples {
        let expected = raw.split(',').next().unwrap_or("").trim().trim_start_matches('/');
        assert_eq!(container_name(raw), expected, "{raw:?}");
    }
}

#[test]
fn remote_host_agrees_with_its_description() {
    let samples = [
        "ssh://user@example.com:22",
        "tcp://10.0.0.5:2376",
        "ssh://host",
        "ssh://a@b@c:1//x",
        "ssh://",
        "tcp://:1",
        "ssh://u@",
        "ssh:////x",
        "tcp://a//b//c",
    ];
    for host in samples {
        let expected = host
            .split("//")
            .nth(1)
            .and_then(|s| s.split('@').last())
            .and_then(|s| s.split(':').next())
            .unwrap_or("localhost");
        assert_eq!(remote_host(host), expected, "{host:?}");
    }
}
