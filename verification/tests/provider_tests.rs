use gameserver_rs::control::Status;
use gameserver_rs::credentials::{sign_in_check, verify_password};
use gameserver_rs::database::{get_from_database, retrive_user};
use gameserver_rs::databasespec::{
    Button, Element, Intergration, IntergrationSettings, Intergrations, K8sType, ModifyElementData,
    Node, NodeStatus, NodeType, Server, User,
};
use gameserver_rs::gameserver::{
    create_server_plan, drain_line, start_server_plan, take_file_chunk, StartPlan,
};
use gameserver_rs::handlers::{CurrentNode, Panel};
use gameserver_rs::integrations::{create_intergration, IntergrationStore};
use gameserver_rs::providers::{
    create_custom_provider, custom_from_config, get_provider, Custom, Provider, ProviderConfig,
    ProviderType, TargetOs,
};
use gameserver_rs::status::{resolve_database_error_into_statuscode, DatabaseError};
use gameserver_rs::store::JsonBackendContent;
use gameserver_rs::transport::{
    create_server_message, integration_key_message, MetadataTypes, Outgoing, StateActionType,
    TransportError,
};

fn modify(element: Element) -> ModifyElementData {
    ModifyElementData { element, jwt: String::new(), require_auth: false }
}

fn panel() -> Panel {
    Panel {
        database: JsonBackendContent::default_content(),
        current_server: None,
        current_node: CurrentNode {
            name: "node-a".to_string(),
            ip: "10.0.0.2".to_string(),
            status: Status::Up,
            nodetype: NodeType::Main,
            k8s_type: K8sType::NoType,
        },
        lock: false,
        additional_nodes: vec![],
    }
}

#[test]
fn built_in_providers_by_name() {
    let m = get_provider("minecraft").unwrap();
    assert_eq!(m.name, "minecraft");
    assert!(m.config.is_empty());
    let c = get_provider("custom").unwrap();
    assert_eq!(c.name, "custom");
    assert!(get_provider("factorio").is_none());
}

#[test]
fn minecraft_commands_per_os() {
    let m = get_provider("minecraft").unwrap();
    let start = m.start(TargetOs::Linux).unwrap();
    assert_eq!(start.program, "java");
    assert_eq!(start.args, vec!["-Xmx1024M", "-Xms1024M", "-jar", "server.jar", "nogui"]);
    assert_eq!(start.current_dir.as_deref(), Some("server"));
    let pre = m.pre_hook(TargetOs::Windows).unwrap();
    assert_eq!(pre.program, "powershell");
    assert_eq!(pre.args, vec!["-Command", "choco install -y wget"]);
    assert!(m.install(TargetOs::Other).is_none());
    assert!(m.start(TargetOs::Other).is_none());
}

#[test]
fn custom_provider_runs_its_lines_in_a_shell() {
    let p = create_custom_provider(None, Some("make install"), None, Some("./run"));
    assert_eq!(p.name, "custom");
    assert_eq!(p.config, vec![
        ("install".to_string(), "make install".to_string()),
        ("start".to_string(), "./run".to_string()),
    ]);
    assert!(p.pre_hook(TargetOs::Linux).is_none());
    let install = p.install(TargetOs::Linux).unwrap();
    assert_eq!(install.program, "sh");
    assert_eq!(install.args, vec!["-c", "make install"]);
    let start = p.start(TargetOs::Windows).unwrap();
    assert_eq!(start.program, "powershell");
    assert_eq!(start.args, vec!["-Command", "./run"]);
}

#[test]
fn custom_commands_survive_the_configuration() {
    let custom = Custom::new().with_pre_hook("a".to_string()).with_start("b".to_string());
    let back = Custom::from_provider_type(ProviderType::from_custom(custom));
    assert_eq!(back.pre_hook_cmd.as_deref(), Some("a"));
    assert_eq!(back.install_cmd, None);
    assert_eq!(back.post_hook_cmd, None);
    assert_eq!(back.start_cmd.as_deref(), Some("b"));
    let from_file = custom_from_config(ProviderConfig {
        pre_hook: None,
        install: None,
        post_hook: Some("echo done".to_string()),
        start: None,
    });
    assert_eq!(from_file.config, vec![("post_hook".to_string(), "echo done".to_string())]);
}

#[test]
fn provider_configuration_keeps_one_entry_per_key() {
    let p = ProviderType::new("custom".to_string())
        .with_config("start".to_string(), "one".to_string())
        .with_config("install".to_string(), "two".to_string())
        .with_config("start".to_string(), "three".to_string());
    assert_eq!(p.config.len(), 2);
    assert_eq!(p.get_config("start").map(|s| s.as_str()), Some("three"));
    assert_eq!(p.get_config("install").map(|s| s.as_str()), Some("two"));
    assert!(p.get_config("post_hook").is_none());
}

#[test]
fn creation_plan_lists_the_available_stages() {
    let m = get_provider("minecraft").unwrap();
    let plan = create_server_plan(&m, TargetOs::Linux);
    let labels: Vec<&str> = plan.iter().map(|s| s.label.as_str()).collect();
    assert_eq!(labels, vec!["Pre-hook", "Install", "Post-hook", "Server"]);
    assert!(plan[3].background);
    assert!(!plan[0].background);
    let c = create_custom_provider(None, None, None, Some("./run"));
    let plan = create_server_plan(&c, TargetOs::Linux);
    assert_eq!(plan.len(), 1);
    assert_eq!(plan[0].label, "Server");
    assert!(create_server_plan(&m, TargetOs::Other).is_empty());
}

#[test]
fn start_plan_refusals_and_launch() {
    match start_server_plan(true, None, TargetOs::Linux) {
        StartPlan::Refuse(m) => assert_eq!(m, "Server is already running. Use 'stop_server' first."),
        _ => panic!(),
    }
    match start_server_plan(false, None, TargetOs::Linux) {
        StartPlan::Refuse(m) => assert_eq!(m, "Failed to get provider for server"),
        _ => panic!(),
    }
    let empty = create_custom_provider(None, None, None, None);
    match start_server_plan(false, Some(empty), TargetOs::Linux) {
        StartPlan::Refuse(m) => assert_eq!(m, "No start command available for this provider"),
        _ => panic!(),
    }
    match start_server_plan(false, get_provider("minecraft"), TargetOs::Linux) {
        StartPlan::Launch(cmd) => assert_eq!(cmd.program, "java"),
        _ => panic!(),
    }
}

#[test]
fn file_chunks_come_from_the_front() {
    let mut buf = b"abcdef".to_vec();
    assert_eq!(take_file_chunk(&mut buf, 4), b"abcd".to_vec());
    assert_eq!(buf, b"ef".to_vec());
    assert_eq!(take_file_chunk(&mut buf, 4), b"ef".to_vec());
    assert!(buf.is_empty());
}

#[test]
fn admin_lookup_and_sign_in() {
    assert!(retrive_user("guest".to_string(), "admin", "secret").is_none());
    let admin = retrive_user("admin".to_string(), "admin", "secret").unwrap();
    assert_eq!(admin.username, "admin");
    let hash = admin.password_hash.unwrap();
    assert_eq!(verify_password("secret".to_string(), hash.clone()).unwrap(), true);
    assert_eq!(verify_password("wrong".to_string(), hash.clone()).unwrap(), false);
    let user = |h: &str| User { username: "admin".to_string(), password_hash: Some(h.to_string()), user_perms: vec![] };
    let ok = sign_in_check(Some(user(&hash)), "secret".to_string()).unwrap();
    assert_eq!(ok.username, "admin");
    assert!(ok.password_hash.is_none());
    assert_eq!(sign_in_check(Some(user(&hash)), "wrong".to_string()).unwrap_err(), 401);
    assert_eq!(sign_in_check(None, "secret".to_string()).unwrap_err(), 401);
    assert_eq!(sign_in_check(Some(user("not a hash")), "secret".to_string()).unwrap_err(), 500);
}

#[test]
fn kubernetes_types_by_exact_name() {
    assert_eq!(K8sType::try_from_name("Pod"), Some(K8sType::Pod));
    assert_eq!(K8sType::try_from_name("None"), Some(K8sType::NoType));
    assert_eq!(K8sType::try_from_name("pod"), None);
}

#[test]
fn only_the_default_server_is_empty() {
    assert!(Server::empty().is_empty_server());
    let mut s = Server::empty();
    s.location = "eu".to_string();
    assert!(!s.is_empty_server());
}

#[test]
fn listing_handlers_need_authorisation() {
    let mut p = panel();
    assert_eq!(p.get_servers(false).unwrap_err(), 401);
    assert!(p.get_servers(true).unwrap().is_empty());
    assert_eq!(p.get_buttons(true).unwrap().len(), 6);
    let b = Button { name: "Settings".to_string(), link: "/elsewhere".to_string(), button_type: "x".to_string() };
    assert_eq!(p.edit_buttons(false, modify(Element::Button(b))), Err(401));
    let b = Button { name: "Settings".to_string(), link: "/elsewhere".to_string(), button_type: "x".to_string() };
    assert_eq!(p.edit_buttons(true, modify(Element::Button(b))), Ok(201));
    let shown = p.get_buttons(true).unwrap();
    assert!(shown.iter().any(|b| b.name == "Settings" && b.link == "/elsewhere"));
    let missing = Button { name: "Nope".to_string(), link: "/".to_string(), button_type: "x".to_string() };
    assert_eq!(p.edit_buttons(true, modify(Element::Button(missing))), Ok(201));
    assert_eq!(p.get_buttons(true).unwrap().len(), 6);
    assert_eq!(p.edit_buttons(true, modify(Element::String("x".to_string()))), Err(500));
}

#[test]
fn removing_nodes_by_element() {
    let mut db = JsonBackendContent::default_content();
    let n = Node {
        nodename: "w".to_string(),
        ip: "1.2.3.4".to_string(),
        nodestatus: NodeStatus::Enabled,
        nodetype: NodeType::Custom(None),
        k8s_type: K8sType::NoType,
    };
    let same = Node { nodename: "w".to_string(), ip: String::new(), nodestatus: NodeStatus::Unknown, nodetype: NodeType::Unknown, k8s_type: K8sType::NoType };
    assert_eq!(db.create_nodes_in_db(modify(Element::Node(n))), Ok(201));
    assert_eq!(db.remove_node_in_db(modify(Element::Node(same))), Ok(201));
    assert!(db.nodes.is_empty());
    assert_eq!(db.remove_node_in_db(modify(Element::String("w".to_string()))), Err(DatabaseError::StatusCode(500)));
    assert_eq!(resolve_database_error_into_statuscode(DatabaseError::StatusCode(409)), 409);
}

#[test]
fn integrations_by_name() {
    let mut store = IntergrationStore::new();
    let i = Intergration { status: "ok".to_string(), kind: Intergrations::Minecraft, settings: IntergrationSettings::Object(vec![]) };
    create_intergration(&mut store, true, modify(Element::Intergration(i))).unwrap();
    assert_eq!(store.retrieve_intergrations("minecraft".to_string()).unwrap().status, "ok");
    assert!(store.retrieve_intergrations("factorio".to_string()).is_none());
}

#[test]
fn creation_and_hook_messages() {
    assert_eq!(StateActionType::default_action(), StateActionType::Immediate);
    let m = create_server_message(MetadataTypes::String("x".to_string()), true).unwrap();
    assert!(!m.newline);
    match m.body {
        Outgoing::WithMetadata(p) => {
            assert_eq!(p.kind, "command");
            assert_eq!(p.message, "create_server");
            assert_eq!(p.authcode, "");
            assert!(matches!(p.metadata, MetadataTypes::String(ref s) if s == "x"));
        }
        _ => panic!(),
    }
    assert_eq!(create_server_message(MetadataTypes::NoMetadata, false).unwrap_err(), TransportError::NoStream);
    let h = integration_key_message("{\"a\":1}".to_string(), 0, true).unwrap();
    assert!(h.newline);
    assert!(matches!(h.body, Outgoing::Json(ref j) if j == "{\"a\":1}"));
    assert_eq!(integration_key_message("{}".to_string(), 1, true).unwrap_err(), TransportError::HighPriority);
}

#[test]
fn draining_a_line_keeps_what_follows() {
    let mut buf = b"one\ntwo\n".to_vec();
    drain_line(&mut buf, 3);
    assert_eq!(buf, b"two\n".to_vec());
    drain_line(&mut buf, 10);
    assert!(buf.is_empty());
}

#[test]
fn the_minimal_lookup_stores_nobody() {
    assert!(get_from_database("admin".to_string()).is_none());
}
