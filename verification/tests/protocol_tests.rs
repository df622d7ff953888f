use gameserver_rs::control::{
    authorize, get_auth_bearer, html_with_site_url, lock_from_request, node_deletion_allowed,
    node_name_from_reply, normalize_base_path, oidc_callback_url, oidc_user, replace_str,
    resolve_token_perms, server_state_status, session_user, static_file_for_path, status_for_type,
    status_from_code, status_str, ConsoleData, LogLine, Status,
};
use gameserver_rs::databasespec::{K8sNode, K8sType, NodeStatus, NodeType, User, UserPerm, Intergrations};
use gameserver_rs::deploy::{
    context_entry_included, deployment_file, deployment_path, image_tag, push_repository,
    split_text, yaml_documents, DockerBuildError,
};
use gameserver_rs::frontend::{frontend_file_path, login_guard, serving_error_text, static_plan, Guard, StaticPlan};
use gameserver_rs::gameserver::{
    decide_node_command, definite_server_path, file_mode_step, find_subsequence, incoming_action,
    labeled_line, multipart_action, parse_u64, provider_json_path, resolve_address, select_range,
    server_name_payload, server_state_keywords, console_input, AddressError, FileStep,
    IncomingAction, MultipartAction, NodeCommand,
};
use gameserver_rs::orchestration::cluster_entry;
use gameserver_rs::properties::{enable_rcon_properties, split_lines};
use gameserver_rs::scan::json_object_spans;
use gameserver_rs::session::{
    connect_step, gather_stream_values, initial_attempt_done, node_facts, outgoing_bytes,
    ping_ok_payload, server_polling, session_opening, stream_line, ClusterAnswer, ConnectAction,
    ConnectOutcome, StreamValue,
};
use gameserver_rs::transport::{
    gate, start_server_message, transport_error_message, FilterRequest, MessagePayload, Outgoing,
    Ping, ServerStateRequest, StopServerRequest, TransportError,
};

#[test]
fn find_subsequence_finds_the_first_match() {
    assert_eq!(find_subsequence(b"abcabc", b"ca"), Some(2));
    assert_eq!(find_subsequence(b"abc", b""), None);
    assert_eq!(find_subsequence(b"ab", b"abc"), None);
    assert_eq!(find_subsequence(b"xyz", b"q"), None);
}

#[test]
fn file_mode_step_writes_up_to_the_delimiter() {
    let delim = b"<|END_OF_FILE|>";
    let mut buf = b"hello<|END_OF_FILE|>rest".to_vec();
    match file_mode_step(&mut buf, delim) {
        FileStep::Finished(w) => assert_eq!(w, b"hello".to_vec()),
        _ => panic!(),
    }
    assert_eq!(buf, b"rest".to_vec());
    let mut long = vec![b'a'; 40];
    match file_mode_step(&mut long, delim) {
        FileStep::Partial(w) => assert_eq!(w.len(), 40 - 16),
        _ => panic!(),
    }
    assert_eq!(long.len(), 16);
    let mut short = b"abc".to_vec();
    assert!(matches!(file_mode_step(&mut short, delim), FileStep::Wait));
    assert_eq!(short, b"abc".to_vec());
}

#[test]
fn select_range_clamps_to_the_entries() {
    let v = vec![1, 2, 3, 4, 5];
    assert_eq!(select_range(v.clone(), Some(1), Some(3)), vec![2, 3]);
    assert_eq!(select_range(v.clone(), None, None), v.clone());
    assert_eq!(select_range(v.clone(), Some(9), None), Vec::<i32>::new());
    assert_eq!(select_range(v.clone(), Some(3), Some(1)), Vec::<i32>::new());
    assert_eq!(select_range(v, Some(2), Some(99)), vec![3, 4, 5]);
}

#[test]
fn resolve_address_takes_the_port_from_the_address() {
    assert_eq!(resolve_address(Some("10.0.0.1:9000".to_string()), None), Ok("10.0.0.1:9000".to_string()));
    assert_eq!(resolve_address(Some("10.0.0.1:9000".to_string()), Some("7".to_string())), Ok("10.0.0.1:7".to_string()));
    assert_eq!(resolve_address(Some("host".to_string()), None), Ok("host:80".to_string()));
    assert_eq!(resolve_address(None, Some("1".to_string())), Err(AddressError::MissingIp));
}

#[test]
fn server_paths_live_under_server() {
    assert_eq!(definite_server_path("mc"), "server/mc");
    assert_eq!(definite_server_path("server/mc"), "server/mc");
    assert_eq!(provider_json_path(""), "server//provider.json");
}

#[test]
fn node_commands_are_decided_by_type_and_message() {
    assert!(matches!(decide_node_command("command", "stop_server"), NodeCommand::StopServer));
    assert!(matches!(decide_node_command("command", "start_server"), NodeCommand::StartServer));
    match decide_node_command("command", "delete_server") {
        NodeCommand::DeleteServerFiles { path } => assert_eq!(path, "server/"),
        _ => panic!(),
    }
    match decide_node_command("command", "dance") {
        NodeCommand::Unknown(m) => assert_eq!(m, "Unknown command: dance"),
        _ => panic!(),
    }
    match decide_node_command("console", "say hi") {
        NodeCommand::Console(l) => assert_eq!(l, "say hi"),
        _ => panic!(),
    }
    assert!(matches!(decide_node_command("other", "x"), NodeCommand::Ignore));
    assert_eq!(console_input("stop"), ("stop\n".to_string(), "Sent to server: stop".to_string()));
    assert_eq!(server_state_keywords(), ("help".to_string(), "All dimensions are saved".to_string()));
}

#[test]
fn parse_u64_reads_decimal_numbers() {
    assert_eq!(parse_u64("0"), Some(0));
    assert_eq!(parse_u64("+42"), Some(42));
    assert_eq!(parse_u64("18446744073709551615"), Some(u64::MAX));
    assert_eq!(parse_u64("18446744073709551616"), None);
    assert_eq!(parse_u64(""), None);
    assert_eq!(parse_u64("+"), None);
    assert_eq!(parse_u64("12a"), None);
    assert_eq!(parse_u64("-1"), None);
}

#[test]
fn multipart_and_incoming_lines() {
    match multipart_action("start_file", "a.txt") {
        MultipartAction::StartFile(p) => assert_eq!(p, "server/a.txt"),
        _ => panic!(),
    }
    assert!(matches!(multipart_action("end_file", ""), MultipartAction::EndFile));
    assert!(matches!(multipart_action("x", ""), MultipartAction::Ignore));
    match incoming_action(false, "{\"type\":\"start_file\",\"message\":\"f.bin\"}") {
        IncomingAction::StartFile(p) => assert_eq!(p, "f.bin"),
        _ => panic!(),
    }
    assert!(matches!(incoming_action(false, "{\"type\":\"start_file\"}"), IncomingAction::MissingPath));
    assert!(matches!(incoming_action(true, "{\"type\":\"end_file\"}"), IncomingAction::EndFile));
    assert!(matches!(incoming_action(true, "{\"type\":\"other\"}"), IncomingAction::Unmatched));
    assert!(matches!(incoming_action(true, "plain text"), IncomingAction::Write));
    assert!(matches!(incoming_action(false, "plain text"), IncomingAction::Invalid));
}

#[test]
fn node_reports() {
    assert_eq!(labeled_line("Install", "ok"), "[Install] ok");
    let p = server_name_payload(Ok("host1".to_string()));
    assert_eq!((p.kind.as_str(), p.message.as_str(), p.authcode.as_str()), ("command", "host1", "0"));
    assert_eq!(server_name_payload(Err("no host".to_string())).message, "no host");
}

#[test]
fn json_object_spans_skip_braces_in_strings() {
    let s = b"x {\"a\":\"}\"} y {\"b\":{\"c\":1}} {open";
    assert_eq!(json_object_spans(s), vec![(2, 11), (14, 27)]);
    assert_eq!(json_object_spans(b"no objects"), vec![]);
}

#[test]
fn enable_rcon_rewrites_properties() {
    let out = enable_rcon_properties("enable-rcon=false\nmotd=hi\n");
    assert_eq!(out, "enable-rcon=true\nmotd=hi\nrcon.password=changeme\nrcon.port=25575\n");
    let kept = enable_rcon_properties("rcon.password=secret\nrcon.port=1\nenable-rcon=true");
    assert_eq!(kept, "rcon.password=secret\nrcon.port=1\nenable-rcon=true\n");
    assert_eq!(split_lines("a\r\nb\n"), vec!["a".to_string(), "b".to_string()]);
}

#[test]
fn transport_gates_requests() {
    assert_eq!(gate(true, 1, true), Err(TransportError::HighPriority));
    assert_eq!(gate(true, 0, false), Err(TransportError::NoStream));
    assert_eq!(gate(false, 5, true), Ok(()));
    assert_eq!(transport_error_message(TransportError::NoStream), "no stream");
    assert_eq!(transport_error_message(TransportError::HighPriority), "high priority task is occuring and cant be interfered with");
    assert!(StopServerRequest {}.plan(1, true).is_err());
    let stop = StopServerRequest {}.plan(0, true).unwrap();
    match stop.body {
        Outgoing::Payload(p) => assert_eq!((p.kind.as_str(), p.message.as_str(), p.authcode.as_str()), ("command", "stop_server", "")),
        _ => panic!(),
    }
    assert!(matches!(start_server_message(0, false), Err(TransportError::NoStream)));
    assert!(matches!(Ping {}.plan(0, true).unwrap().body, Outgoing::Simple(_)));
    assert_eq!(ServerStateRequest {}.plan(2), Err(TransportError::HighPriority));
    assert!(FilterRequest { filter: gameserver_rs::databasespec::Filters::NoFilter }.plan(0, true).unwrap().newline == false);
}

#[test]
fn session_decisions() {
    let up = connect_step(ConnectOutcome::Connected, true);
    assert_eq!((up.status, up.announce_end, up.action), (Status::Up, false, ConnectAction::Serve));
    let refused = connect_step(ConnectOutcome::Refused, true);
    assert_eq!((refused.status, refused.announce_end, refused.action), (Status::Down, true, ConnectAction::Retry));
    assert_eq!(connect_step(ConnectOutcome::TimedOut, true).action, ConnectAction::GiveUp);
    assert_eq!(connect_step(ConnectOutcome::TimedOut, false).action, ConnectAction::Retry);
    assert_eq!(outgoing_bytes(b"x".to_vec(), 0), b"x\n".to_vec());
    assert_eq!(outgoing_bytes(b"x".to_vec(), 3), b"x".to_vec());
    assert_eq!(stream_line("  hi \n"), Some("hi".to_string()));
    assert_eq!(stream_line("  \n"), None);
    assert!(server_polling("server-process"));
    assert!(!server_polling("node"));
    assert!(initial_attempt_done(true, false));
    assert!(!initial_attempt_done(true, true));
    assert_eq!(session_opening("pw".to_string(), "1.2.3.4".to_string(), true).len(), 3);
    assert!(session_opening("pw".to_string(), "1.2.3.4".to_string(), false).is_empty());
    let ok = ping_ok_payload();
    assert_eq!((ok.kind.as_str(), ok.message.as_str(), ok.authcode.as_str()), ("status", "ping_ok", "0"));
}

#[test]
fn node_facts_follow_the_cluster() {
    let f = node_facts(None);
    assert_eq!((f.nodestatus, f.k8s_type), (NodeStatus::Enabled, K8sType::NoType));
    assert!(matches!(f.nodetype, NodeType::Custom(None)));
    let g = node_facts(Some(ClusterAnswer { confirmed_in_time: Some(true), is_gameserver: true, k8s_type: K8sType::Pod }));
    assert_eq!((g.nodestatus, g.k8s_type), (NodeStatus::ImmutablyEnabled, K8sType::Pod));
    assert!(matches!(g.nodetype, NodeType::Inbuilt));
    let e = cluster_entry(&K8sNode { name: "k".to_string(), ip: "1".to_string(), gameserver: "g".to_string(), k8s_type: K8sType::Node });
    assert_eq!((e.name.as_str(), e.k8s_type), ("k", K8sType::Node));
}

#[test]
fn gathered_values_drop_duplicates_and_listed_lines() {
    let list = "{\"list\":1}".to_string();
    let quoted = "\"{\\\"list\\\":1}\"".to_string();
    let consoles = vec![
        ConsoleData { authcode: "0".to_string(), data: quoted.clone(), kind: "out".to_string() },
        ConsoleData { authcode: "0".to_string(), data: "line".to_string(), kind: "out".to_string() },
    ];
    let payload = || MessagePayload { kind: "server_state".to_string(), message: "true".to_string(), authcode: "0".to_string() };
    let values = gather_stream_values(
        "{\"start_keyword\":\"a\",\"stop_keyword\":\"b\",\"name\":\"n\"}",
        vec![list.clone(), list.clone()],
        consoles,
        vec![LogLine { data: quoted.clone() }, LogLine { data: "log".to_string() }],
        vec![payload(), payload()],
        vec!["{}".to_string(), "{}".to_string()],
        vec!["pong".to_string()],
        vec![],
    );
    assert_eq!(values.len(), 7);
    match &values[0] {
        StreamValue::Console(c) => assert_eq!((c.data.as_str(), c.kind.as_str()), (list.as_str(), "list_item")),
        _ => panic!(),
    }
    match &values[1] {
        StreamValue::Console(c) => assert_eq!(c.data, "line"),
        _ => panic!(),
    }
    assert!(matches!(&values[2], StreamValue::Log(l) if l.data == "log"));
    match &values[3] {
        StreamValue::Console(c) => {
            assert_eq!(c.kind, "info");
            assert!(c.data.contains("start_keyword"));
        }
        _ => panic!(),
    }
    assert!(matches!(&values[4], StreamValue::Payload(_)));
    assert!(matches!(&values[5], StreamValue::Json(j) if j == "{}"));
    assert!(matches!(&values[6], StreamValue::Simple(_)));
}

#[test]
fn deploy_decisions() {
    assert_eq!(image_tag(Some("reg:5000")), "reg:5000/gameserver:latest");
    assert_eq!(image_tag(None), "/gameserver:latest");
    assert_eq!(push_repository(Some("reg")), Some("reg/gameserver".to_string()));
    assert_eq!(push_repository(None), None);
    assert_eq!(deployment_file(true), "deployment-dev.yaml");
    assert_eq!(deployment_file(false), "deployment.yaml");
    assert_eq!(deployment_path("deployment.yaml"), "/usr/src/app/src/gameserver/deployment.yaml");
    let comps = |v: &[&str]| v.iter().map(|s| s.to_string()).collect::<Vec<String>>();
    assert!(context_entry_included(Some("src/main.rs"), &comps(&["src", "main.rs"]), true, false, false));
    assert!(!context_entry_included(Some("target/x"), &comps(&["target", "x"]), true, false, false));
    assert!(!context_entry_included(Some("gameserver/target"), &comps(&["gameserver", "target"]), false, true, false));
    assert!(!context_entry_included(Some("server/w"), &comps(&["server", "w"]), true, false, false));
    assert!(!context_entry_included(Some(".git"), &comps(&[".git"]), false, true, false));
    assert!(!context_entry_included(Some("a/.hidden"), &comps(&["a", ".hidden"]), true, false, false));
    assert!(!context_entry_included(Some("link"), &comps(&["link"]), true, false, true));
    assert_eq!(split_text("a---b---", "---"), vec!["a".to_string(), "b".to_string(), "".to_string()]);
    assert_eq!(yaml_documents("---\nkind: A\n---\n\n---\nkind: B\n"), vec!["kind: A".to_string(), "kind: B".to_string()]);
    assert_eq!(DockerBuildError { message: "boom".to_string() }.describe(), "Docker build error: boom");
}

#[test]
fn frontend_decisions() {
    assert_eq!(frontend_file_path("app.js"), "src/frontend/build/app.js");
    assert_eq!(frontend_file_path("/etc/x"), "/etc/x");
    match static_plan("index.html", true) {
        StaticPlan::Page { path } => assert_eq!(path, "src/frontend/build/index.html"),
        _ => panic!(),
    }
    match static_plan("style.css", true) {
        StaticPlan::Asset { path, content_type } => {
            assert_eq!(path, "src/frontend/build/style.css");
            assert_eq!(content_type, "text/css");
        }
        _ => panic!(),
    }
    match static_plan("nothing.png", false) {
        StaticPlan::Page { path } => assert_eq!(path, "src/frontend/build/index.html"),
        _ => panic!(),
    }
    match static_plan("blob", true) {
        StaticPlan::Asset { content_type, .. } => assert_eq!(content_type, "application/octet-stream"),
        _ => panic!(),
    }
    assert_eq!(serving_error_text("x"), "Error serving `x`");
    assert_eq!(login_guard("/oidc/callback", false), Guard::Pass);
    assert_eq!(login_guard("/files", true), Guard::Pass);
    assert_eq!(login_guard("/files", false), Guard::ToLogin);
}

#[test]
fn control_decisions() {
    assert_eq!(status_str(Status::Healthy), "healthy");
    assert_eq!(status_for_type("", Status::Up, Status::Down), (Status::Up, false));
    assert_eq!(status_for_type("server-process", Status::Up, Status::Down), (Status::Up, true));
    assert_eq!(status_for_type("node", Status::Up, Status::Down), (Status::Down, false));
    assert_eq!(status_for_type("manual-click", Status::Up, Status::Down), (Status::Unknown, false));
    assert_eq!(status_from_code(1), Status::Up);
    assert_eq!(status_from_code(9), Status::Unknown);
    assert_eq!(server_state_status("true"), Status::Up);
    assert_eq!(server_state_status("nope"), Status::Down);
    assert_eq!(lock_from_request(false, "true"), (true, 201));
    assert_eq!(lock_from_request(true, "x"), (true, 422));
    assert_eq!(get_auth_bearer(Some("Bearer abc")), Some("abc".to_string()));
    assert_eq!(get_auth_bearer(Some("Basic abc")), None);
    assert_eq!(resolve_token_perms("t", Some("t")).len(), 1);
    assert!(resolve_token_perms("t", Some("u")).is_empty());
    let manager = vec!["manager".to_string()];
    let perms = vec![UserPerm { perm: "manager".to_string(), scope: "all".to_string() }];
    assert!(authorize(Some(&perms), None, None, &manager));
    assert!(!authorize(None, Some("x"), Some("y"), &manager));
    assert!(authorize(None, Some("y"), Some("y"), &manager));
    assert_eq!(normalize_base_path(Some(" app/ ")), "/app");
    assert_eq!(normalize_base_path(Some("/")), "/");
    assert_eq!(normalize_base_path(None), "");
    assert_eq!(oidc_callback_url("example.org"), "http://example.org/oidc/callback");
    assert_eq!(oidc_callback_url("https://e.org"), "https://e.org/oidc/callback");
    assert_eq!(static_file_for_path("/"), "index.html");
    assert_eq!(static_file_for_path("/a/b.js"), "a/b.js");
    assert_eq!(replace_str("aXbX", "X", "--"), "a--b--");
    assert_eq!(html_with_site_url("<a href=\"[[SITE_URL]]/x\">", "/app"), "<a href=\"/app/x\">");
    assert!(node_deletion_allowed(K8sType::Unknown));
    assert!(!node_deletion_allowed(K8sType::Pod));
    assert_eq!(node_name_from_reply(None), "main");
    let u = oidc_user(false, None, Some("a@b".to_string()), None);
    assert_eq!(u.username, "a@b");
    assert!(u.user_perms.is_empty());
    let v = oidc_user(true, None, Some("a@b".to_string()), Some(perms.clone()));
    assert_eq!(v.username, "");
    assert_eq!(v.user_perms.len(), 1);
    let s = session_user(&User { username: "x".to_string(), password_hash: Some("h".to_string()), user_perms: perms });
    assert!(s.password_hash.is_none());
}

#[test]
fn lowercase_names_are_read_without_case() {
    assert_eq!(K8sType::from_serialized("POD"), K8sType::Pod);
    assert!(matches!(NodeType::from_serialized_kind(Some("Inbuilt")), NodeType::Inbuilt));
    assert_eq!(Intergrations::from_name("minecraft"), Intergrations::Minecraft);
    assert_eq!(Intergrations::Other.to_name(), "unknown");
}

#[test]
fn server_description_lines_are_written_back_as_json() {
    let values = gather_stream_values(
        "{ \"stop_keyword\": \"b\", \"start_keyword\": \"a\", \"name\": \"n\" }",
        vec![],
        vec![],
        vec![],
        vec![],
        vec![],
        vec![],
        vec![],
    );
    assert_eq!(values.len(), 1);
    match &values[0] {
        StreamValue::Console(c) => {
            assert_eq!(c.kind, "info");
            assert_eq!(c.data, "{\"name\":\"n\",\"start_keyword\":\"a\",\"stop_keyword\":\"b\"}");
        }
        _ => panic!(),
    }
    let partial = gather_stream_values("{\"start_keyword\":\"a\",\"name\":\"n\"}", vec![], vec![], vec![], vec![], vec![], vec![], vec![]);
    assert!(partial.is_empty());
}
