use gameserver_rs::control::{ConsoleData, Status};
use gameserver_rs::databasespec::{
    parse_user_perm, parse_user_perms, K8sType, Node, NodeStatus, NodeType, Server, ServerMetadata,
    UserPerm,
};
use gameserver_rs::handlers::{
    ping_request, rcon_connect_error, rcon_response, stop_server_request, CurrentNode, Panel,
    RconStep,
};
use gameserver_rs::session::{ConsoleInner, NodeFacts, StreamKeywords, StreamValue};
use gameserver_rs::store::JsonBackendContent;
use gameserver_rs::transport::{
    begin_transfer, end_transfer, gate, migrate_message, MessagePayload, Outgoing, SimpleMessage,
    TransportError,
};

fn panel() -> Panel {
    Panel {
        database: JsonBackendContent::default_content(),
        current_server: None,
        current_node: CurrentNode {
            name: "node-a".to_string(),
            ip: "10.0.0.2".to_string(),
            status: Status::Down,
            nodetype: NodeType::Main,
            k8s_type: K8sType::NoType,
        },
        lock: false,
        additional_nodes: vec![],
    }
}

fn facts() -> NodeFacts {
    NodeFacts { nodestatus: NodeStatus::Enabled, nodetype: NodeType::Custom(None), k8s_type: K8sType::NoType }
}

fn keywords() -> StreamKeywords {
    StreamKeywords { start: "old-start".to_string(), stop: "old-stop".to_string() }
}

fn no_command() -> ConsoleInner {
    ConsoleInner { command: None }
}

fn payload(kind: &str, message: &str) -> StreamValue {
    StreamValue::Payload(MessagePayload {
        kind: kind.to_string(),
        message: message.to_string(),
        authcode: "0".to_string(),
    })
}

fn console(data: &str) -> StreamValue {
    StreamValue::Console(ConsoleData { authcode: "0".to_string(), data: data.to_string(), kind: "console".to_string() })
}

#[test]
fn permission_texts_round_trip() {
    let p = UserPerm { perm: "servers".to_string(), scope: "all".to_string() };
    assert_eq!(p.to_text(), "servers:all");
    let back = parse_user_perm(&p.to_text()).unwrap();
    assert_eq!(back.perm, "servers");
    assert_eq!(back.scope, "all");
    let odd = parse_user_perm("a:b:c").unwrap();
    assert_eq!(odd.perm, "a");
    assert_eq!(odd.scope, "b:c");
    assert!(parse_user_perm("nocolon").is_none());
}

#[test]
fn permission_lists_skip_texts_without_colon() {
    let raw = vec!["admin:all".to_string(), "broken".to_string(), "nodes:".to_string()];
    let perms = parse_user_perms(&raw);
    assert_eq!(perms.len(), 2);
    assert_eq!(perms[0].perm, "admin");
    assert_eq!(perms[0].scope, "all");
    assert_eq!(perms[1].perm, "nodes");
    assert_eq!(perms[1].scope, "");
}

#[test]
fn transfers_hold_the_stream_until_they_end() {
    assert_eq!(begin_transfer(true), Ok(1));
    assert_eq!(begin_transfer(false), Err(TransportError::NoStream));
    assert_eq!(gate(true, 1, true), Err(TransportError::HighPriority));
    let idle = end_transfer();
    assert_eq!(idle, 0);
    assert_eq!(gate(true, idle, true), Ok(()));
}

#[test]
fn migrate_message_sends_the_request_without_newline() {
    let m = migrate_message("{\"kind\":\"migrate\"}".to_string(), 0, true).unwrap();
    assert!(!m.newline);
    match m.body {
        Outgoing::Json(j) => assert_eq!(j, "{\"kind\":\"migrate\"}"),
        _ => panic!("expected JSON"),
    }
    assert_eq!(migrate_message("{}".to_string(), 1, true).unwrap_err(), TransportError::HighPriority);
    assert_eq!(migrate_message("{}".to_string(), 0, false).unwrap_err(), TransportError::NoStream);
}

#[test]
fn rcon_steps_follow_the_settings() {
    let mut p = panel();
    assert!(matches!(p.ensure_rcon_step(true), RconStep::Ready));
    p.database.settings.enabled_rcon = false;
    match p.ensure_rcon_step(false) {
        RconStep::Unavailable(m) => assert_eq!(m, "RCON not enabled or settings not available"),
        _ => panic!("expected unavailable"),
    }
    p.database.settings.enabled_rcon = true;
    p.database.settings.rcon_url = "127.0.0.1:25575".to_string();
    p.database.settings.rcon_password = "pw".to_string();
    match p.ensure_rcon_step(false) {
        RconStep::Connect { url, password } => {
            assert_eq!(url, "127.0.0.1:25575");
            assert_eq!(password, "pw");
        }
        _ => panic!("expected a connection"),
    }
    assert_eq!(rcon_connect_error("refused"), "RCON connection failed: refused");
}

#[test]
fn rcon_answers() {
    let ok = rcon_response(true, Ok("There are 0 players".to_string())).unwrap();
    assert_eq!(ok.kind, "rcon_response");
    assert_eq!(ok.message, "There are 0 players");
    assert_eq!(rcon_response(true, Err("io".to_string())).unwrap_err(), 500);
    assert_eq!(rcon_response(false, Ok("x".to_string())).unwrap_err(), 503);
}

#[test]
fn ping_and_stop_requests() {
    assert_eq!(ping_request(false, "", 0, true).0, 401);
    let (code, msg) = ping_request(true, "", 0, true);
    assert_eq!(code, 200);
    assert!(msg.is_some());
    assert_eq!(ping_request(true, "", 1, true).0, 500);
    assert_eq!(ping_request(true, "hello", 0, true).0, 501);
    assert_eq!(stop_server_request(false, 0, true).0, 401);
    let (code, msg) = stop_server_request(true, 0, true);
    assert_eq!(code, 201);
    assert!(msg.is_some());
    let (code, msg) = stop_server_request(true, 0, false);
    assert_eq!(code, 201);
    assert!(msg.is_none());
}

#[test]
fn browser_input_waits_for_the_lock() {
    let mut p = panel();
    assert!(p.browser_input_allowed());
    p.lock = true;
    assert!(!p.browser_input_allowed());
}

#[test]
fn stream_values_set_status_and_answer_pings() {
    let mut p = panel();
    let mut k = keywords();
    let before = p.database.nodes.len();
    assert!(!p.apply_stream_value(&payload("server_state", "true"), &no_command(), "10.0.0.9", &facts(), &mut k));
    assert_eq!(p.current_node.status, Status::Up);
    assert!(!p.apply_stream_value(&payload("server_state", "nonsense"), &no_command(), "10.0.0.9", &facts(), &mut k));
    assert_eq!(p.current_node.status, Status::Down);
    assert!(p.apply_stream_value(&payload("status", "pong"), &no_command(), "10.0.0.9", &facts(), &mut k));
    let simple = StreamValue::Simple(SimpleMessage { message: "pong".to_string() });
    assert!(p.apply_stream_value(&simple, &no_command(), "10.0.0.9", &facts(), &mut k));
    assert_eq!(p.current_node.status, Status::Down);
    assert_eq!(k.start, "old-start");
    assert_eq!(p.database.nodes.len(), before);
}

#[test]
fn described_server_sets_keywords_and_names_a_nameless_server() {
    let mut p = panel();
    p.current_server = Some(Server {
        servername: String::new(),
        provider: "minecraft".to_string(),
        providertype: "vanilla".to_string(),
        location: "eu".to_string(),
        node: Node {
            nodename: "n".to_string(),
            ip: "1.1.1.1".to_string(),
            nodestatus: NodeStatus::Unknown,
            nodetype: NodeType::Main,
            k8s_type: K8sType::NoType,
        },
        sandbox: false,
        server_metadata: ServerMetadata { start_keyword: None, stop_keyword: None },
    });
    let mut k = keywords();
    let line = console("{\"start_keyword\":\"Done\",\"stop_keyword\":\"Stopping\",\"name\":\"survival\"}");
    assert!(!p.apply_stream_value(&line, &no_command(), "10.0.0.9", &facts(), &mut k));
    assert_eq!(k.start, "Done");
    assert_eq!(k.stop, "Stopping");
    assert_eq!(p.current_server.as_ref().unwrap().servername, "survival");
    let again = console("{\"start_keyword\":\"A\",\"stop_keyword\":\"B\",\"name\":\"other\"}");
    p.apply_stream_value(&again, &no_command(), "10.0.0.9", &facts(), &mut k);
    assert_eq!(k.start, "A");
    assert_eq!(p.current_server.as_ref().unwrap().servername, "survival");
}

#[test]
fn reporting_node_is_stored_once() {
    let mut p = panel();
    let mut k = keywords();
    let before = p.database.nodes.len();
    let line = console("{\"type\":\"command\",\"message\":\"worker-1\"}");
    let inner = ConsoleInner {
        command: Some(MessagePayload {
            kind: "command".to_string(),
            message: "worker-1".to_string(),
            authcode: "0".to_string(),
        }),
    };
    p.apply_stream_value(&line, &inner, "10.0.0.9", &facts(), &mut k);
    assert_eq!(p.database.nodes.len(), before + 1);
    let stored = p.database.nodes.last().unwrap();
    assert_eq!(stored.nodename, "worker-1");
    assert_eq!(stored.ip, "10.0.0.9");
    assert_eq!(stored.nodestatus, NodeStatus::Enabled);
    p.apply_stream_value(&line, &inner, "10.0.0.9", &facts(), &mut k);
    assert_eq!(p.database.nodes.len(), before + 1);
    let other_kind = ConsoleInner {
        command: Some(MessagePayload {
            kind: "console".to_string(),
            message: "worker-2".to_string(),
            authcode: "0".to_string(),
        }),
    };
    p.apply_stream_value(&line, &other_kind, "10.0.0.9", &facts(), &mut k);
    assert_eq!(p.database.nodes.len(), before + 1);
}
