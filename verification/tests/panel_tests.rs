use gameserver_rs::control::{IncomingMessage, Status};
use gameserver_rs::databasespec::{
    Element, Filters, Intergration, IntergrationSettings, Intergrations, K8sType, ModifyElementData,
    Node, NodeStatus, NodeType, Server, ServerMetadata, SettingValue, UserPerm,
};
use gameserver_rs::handlers::{
    ensure_admin_user, CurrentNode, NodeEntry, Panel, SettingsChange,
};
use gameserver_rs::integrations::{
    create_intergration, delete_intergration, get_integrations, intergration_hooks,
    modify_intergration, setting_json, IntergrationStore,
};
use gameserver_rs::store::{AdminConfig, JsonBackendContent};
use gameserver_rs::transport::MetadataTypes;

fn panel() -> Panel {
    Panel {
        database: JsonBackendContent::default_content(),
        current_server: None,
        current_node: CurrentNode {
            name: "node-a".to_string(),
            ip: "10.0.0.2".to_string(),
            status: Status::Up,
            nodetype: NodeType::Main,
            k8s_type: K8sType::NoType,
        },
        lock: false,
        additional_nodes: vec![],
    }
}

fn node(name: &str, ip: &str, k8s_type: K8sType) -> Node {
    Node { nodename: name.to_string(), ip: ip.to_string(), nodestatus: NodeStatus::Unknown, nodetype: NodeType::Custom(None), k8s_type }
}

fn server(name: &str, provider: &str, sandbox: bool) -> Server {
    Server {
        servername: name.to_string(),
        provider: provider.to_string(),
        providertype: "vanilla".to_string(),
        location: "eu".to_string(),
        node: node("n", "1.1.1.1", K8sType::NoType),
        sandbox,
        server_metadata: ServerMetadata { start_keyword: Some("go".to_string()), stop_keyword: None },
    }
}

fn modify(element: Element) -> ModifyElementData {
    ModifyElementData { element, jwt: String::new(), require_auth: false }
}

fn is_server_meta(m: &MetadataTypes, name: &str, sandbox_expected: bool) -> bool {
    match m {
        MetadataTypes::Server { servername, provider, location, sandbox, .. } => {
            servername == name && provider == "minecraft" && location == "eu" && *sandbox == sandbox_expected
        }
        _ => false,
    }
}

#[test]
fn add_server_stores_and_describes_it() {
    let mut p = panel();
    let r = p.add_server(true, modify(Element::Server(server("s1", "minecraft", false))));
    match r {
        Ok((200, Some(m))) => assert!(is_server_meta(&m, "s1", false)),
        _ => panic!("unexpected answer"),
    }
    assert_eq!(p.current_server.as_ref().unwrap().servername, "s1");
    assert!(p.get_server(true, "s1").is_ok());
}

#[test]
fn add_server_forces_the_sandbox_when_settings_say_so() {
    let mut p = panel();
    p.database.settings.force_sandbox = true;
    match p.add_server(true, modify(Element::Server(server("s1", "minecraft", false)))) {
        Ok((200, Some(m))) => assert!(is_server_meta(&m, "s1", true)),
        _ => panic!("unexpected answer"),
    }
}

#[test]
fn add_server_errors() {
    let mut p = panel();
    assert!(matches!(p.add_server(false, modify(Element::Server(server("s", "minecraft", false)))), Err(401)));
    assert!(matches!(p.add_server(true, modify(Element::String("s".to_string()))), Ok((400, None))));
    p.database.settings.disable_custom_servers = true;
    assert!(matches!(p.add_server(true, modify(Element::Server(server("c", "custom", false)))), Err(401)));
    assert!(p.current_server.is_none());
    assert!(matches!(p.add_server(true, modify(Element::Server(server("s", "minecraft", false)))), Ok((200, _))));
    assert!(matches!(p.add_server(true, modify(Element::Server(server("s", "minecraft", false)))), Err(409)));
    assert!(matches!(p.add_server(true, modify(Element::Server(server("", "minecraft", false)))), Err(500)));
}

#[test]
fn set_server_takes_the_current_node() {
    let mut p = panel();
    p.add_server(true, modify(Element::Server(server("s1", "minecraft", true)))).unwrap();
    p.current_server = None;
    match p.set_server(true, modify(Element::String("s1".to_string()))) {
        Ok((200, Some(m))) => assert!(is_server_meta(&m, "s1", true)),
        _ => panic!("unexpected answer"),
    }
    let cur = p.current_server.as_ref().unwrap();
    assert_eq!(cur.node.nodename, "node-a");
    assert_eq!(cur.node.ip, "10.0.0.2");
    assert_eq!(cur.node.nodestatus, NodeStatus::Unknown);
    assert!(cur.server_metadata.start_keyword.is_none());
    assert!(matches!(p.set_server(true, modify(Element::String("nope".to_string()))), Err(404)));
    assert!(matches!(p.set_server(true, modify(Element::Node(node("x", "y", K8sType::NoType)))), Ok((500, None))));
    assert!(matches!(p.set_server(false, modify(Element::String("s1".to_string()))), Err(401)));
}

#[test]
fn get_server_defaults_to_the_current_one() {
    let mut p = panel();
    p.add_server(true, modify(Element::Server(server("s1", "minecraft", false)))).unwrap();
    assert_eq!(p.get_server(true, "").unwrap().servername, "s1");
    p.current_server = None;
    assert!(matches!(p.get_server(true, ""), Err(404)));
    assert!(matches!(p.get_server(false, "s1"), Err(401)));
}

#[test]
fn delete_server_removes_the_named_server() {
    let mut p = panel();
    p.add_server(true, modify(Element::Server(server("s1", "minecraft", false)))).unwrap();
    let meta = MetadataTypes::DeleteServer { delete_server_name: "s1".to_string(), delete_server_files: true };
    assert_eq!(p.delete_server(true, &meta), Ok(201));
    assert!(p.database.servers.is_empty());
    assert_eq!(p.delete_server(true, &MetadataTypes::NoMetadata), Ok(201));
    assert_eq!(p.delete_server(false, &meta), Err(401));
}

#[test]
fn delete_node_keeps_cluster_nodes() {
    let mut p = panel();
    p.add_node(true, modify(Element::Node(node("pod", "1.1.1.1", K8sType::Pod)))).unwrap();
    p.add_node(true, modify(Element::Node(node("free", "2.2.2.2", K8sType::NoType)))).unwrap();
    assert_eq!(p.delete_node(true, &Element::Node(node("pod", "", K8sType::NoType))), Err(503));
    assert_eq!(p.delete_node(true, &Element::Node(node("free", "", K8sType::Pod))), Ok(201));
    assert_eq!(p.delete_node(true, &Element::Node(node("free", "", K8sType::Pod))), Err(500));
    assert_eq!(p.delete_node(true, &Element::String("pod".to_string())), Err(500));
    assert_eq!(p.database.nodes.len(), 1);
}

#[test]
fn add_node_maps_refusals_to_500() {
    let mut p = panel();
    assert_eq!(p.add_node(true, modify(Element::Node(node("n", "", K8sType::NoType)))), Err(500));
    assert_eq!(p.add_node(false, modify(Element::Node(node("n", "1", K8sType::NoType)))), Err(401));
}

#[test]
fn button_reset_toggles_and_restores() {
    let mut p = panel();
    assert_eq!(p.button_reset(true, "toggle"), 201);
    assert!(p.database.settings.toggled_default_buttons);
    assert_eq!(p.button_reset(true, "restore"), 201);
    assert_eq!(p.button_reset(true, "other"), 500);
    assert_eq!(p.button_reset(false, "toggle"), 401);
}

#[test]
fn get_status_reports_the_buttons_flag() {
    let mut p = panel();
    let m: IncomingMessage = p.get_status(true, "buttons").unwrap();
    assert_eq!((m.message.as_str(), m.message_type.as_str(), m.authcode.as_str()), ("false", "status", "0"));
    p.button_reset(true, "toggle");
    assert_eq!(p.get_status(true, "buttons").unwrap().message, "true");
    assert_eq!(p.get_status(true, "node").unwrap().message, "");
    assert!(p.get_status(false, "buttons").is_err());
}

#[test]
fn fetch_current_node_needs_a_name() {
    let mut p = panel();
    let n = p.fetch_current_node(true).unwrap();
    assert_eq!(n.nodename, "node-a");
    assert_eq!(n.nodestatus, NodeStatus::Unknown);
    p.current_node.name = String::new();
    assert!(matches!(p.fetch_current_node(true), Err(500)));
}

#[test]
fn set_lock_reads_a_boolean() {
    let mut p = panel();
    assert_eq!(p.set_lock(true, "true"), 201);
    assert!(p.lock);
    assert_eq!(p.set_lock(true, "yes"), 422);
    assert!(p.lock);
    assert_eq!(p.set_lock(false, "false"), 401);
    assert!(p.lock);
}

#[test]
fn user_handlers_delegate_to_the_store() {
    let mut p = panel();
    let e = || modify(Element::User { password: "pw".to_string(), user: "u".to_string(), user_perms: vec![] });
    assert_eq!(p.create_user(true, e()), Ok(201));
    assert_eq!(p.create_user(true, e()), Err(500));
    assert_eq!(p.users(true).unwrap().len(), 1);
    assert_eq!(p.edit_user(true, e()), Ok(201));
    assert_eq!(p.delete_user(true, e()), Ok(201));
    assert!(p.users(true).unwrap().is_empty());
    assert_eq!(p.delete_user(false, e()), Err(401));
}

#[test]
fn get_nodes_merges_cluster_and_stored_nodes() {
    let mut p = panel();
    p.add_node(true, modify(Element::Node(node("a", "1.1.1.1", K8sType::Pod)))).unwrap();
    p.add_node(true, modify(Element::Node(node("b", "2.2.2.2", K8sType::Pod)))).unwrap();
    let cluster = vec![NodeEntry { name: "a".to_string(), ip: "9.9.9.9".to_string(), nodetype: NodeType::Unknown, k8s_type: K8sType::Node }];
    let listed = p.get_nodes(true, true, cluster).unwrap();
    let names: Vec<&str> = listed.iter().map(|n| n.nodename.as_str()).collect();
    assert_eq!(names, vec!["a", "b"]);
    assert_eq!(listed[0].ip, "9.9.9.9");
    assert_eq!(listed[1].k8s_type, K8sType::NoType);
    assert!(listed.iter().all(|n| n.nodestatus == NodeStatus::Unknown));
    assert_eq!(p.additional_nodes.len(), 2);
    p.get_nodes(true, true, vec![]).unwrap();
    assert_eq!(p.additional_nodes.len(), 2);
}

#[test]
fn get_nodes_lists_nothing_without_a_cluster_client() {
    let mut p = panel();
    p.add_node(true, modify(Element::Node(node("a", "1.1.1.1", K8sType::NoType)))).unwrap();
    assert!(p.get_nodes(true, false, vec![]).unwrap().is_empty());
    assert!(p.additional_nodes.is_empty());
    assert_eq!(p.get_nodes(false, false, vec![]).unwrap_err(), 401);
}

#[test]
fn set_settings_applies_changes_in_order() {
    let mut p = panel();
    let r = p.set_settings(true, vec![
        SettingsChange::Filter(Filters::AlternatingLine),
        SettingsChange::RconUrl("a:1".to_string()),
        SettingsChange::RconUrl("b:2".to_string()),
    ]);
    assert_eq!(r, Ok((201, Some(Filters::AlternatingLine))));
    assert_eq!(p.database.settings.rcon_url, "b:2");
    assert_eq!(p.database.settings.rcon_password, "testing");
    assert_eq!(p.set_settings(true, vec![SettingsChange::ForceSandbox(true)]), Ok((201, None)));
    assert!(p.database.settings.force_sandbox);
    assert_eq!(p.set_settings(false, vec![]), Err(401));
}

#[test]
fn ensure_admin_user_creates_the_admin() {
    let mut db = JsonBackendContent::default_content();
    ensure_admin_user(&mut db, &AdminConfig { enabled: false, user: "root".to_string(), password: "pw".to_string() });
    assert!(db.users.is_empty());
    ensure_admin_user(&mut db, &AdminConfig { enabled: true, user: "root".to_string(), password: "pw".to_string() });
    assert_eq!(db.users.len(), 1);
    assert_eq!(db.users[0].user_perms[0].perm, "admin");
}

#[test]
fn adopt_and_change_node() {
    let mut p = panel();
    p.adopt_current_node(None, "3.3.3.3".to_string());
    assert_eq!(p.current_node.name, "main");
    assert_eq!(p.current_node.status, Status::Down);
    p.adopt_current_node(Some("n1".to_string()), "3.3.3.3".to_string());
    assert_eq!(p.current_node.name, "n1");
    p.add_node(true, modify(Element::Node(node("n1", "4.4.4.4", K8sType::NoType)))).unwrap();
    assert_eq!(p.change_node(true, "n1".to_string()), Ok("4.4.4.4".to_string()));
    assert_eq!(p.change_node(true, "zz".to_string()), Err(500));
}

fn settings(entries: Vec<(&str, SettingValue)>) -> IntergrationSettings {
    IntergrationSettings::Object(entries.into_iter().map(|(k, v)| (k.to_string(), v)).collect())
}

fn minecraft(settings: IntergrationSettings) -> Intergration {
    Intergration { status: "ok".to_string(), kind: Intergrations::Minecraft, settings }
}

#[test]
fn integration_create_find_conflict_remove() {
    let mut store = IntergrationStore::new();
    let r = create_intergration(&mut store, true, modify(Element::Intergration(minecraft(settings(vec![]))))).unwrap();
    assert_eq!((r.status, r.success, r.text.as_str()), (201, true, "Integration created successfully"));
    assert!(store.get_from_intergrations_database("minecraft").is_some());
    let again = create_intergration(&mut store, true, modify(Element::Intergration(minecraft(settings(vec![]))))).unwrap();
    assert_eq!((again.status, again.success, again.text.as_str()), (409, false, "Integration already exists"));
    let bad = create_intergration(&mut store, true, modify(Element::String("x".to_string()))).unwrap();
    assert_eq!((bad.status, bad.text.as_str()), (400, "Invalid request data"));
    assert_eq!(get_integrations(&store, true).unwrap().len(), 1);
    assert_eq!(delete_intergration(&mut store, true, modify(Element::Intergration(minecraft(settings(vec![]))))), Ok(201));
    assert_eq!(delete_intergration(&mut store, true, modify(Element::Intergration(minecraft(settings(vec![]))))), Err(500));
    assert!(store.intergrations.is_empty());
    assert!(create_intergration(&mut store, false, modify(Element::String("x".to_string()))).is_err());
}

#[test]
fn turning_a_flag_on_sends_its_hook() {
    let stored = settings(vec![
        ("_enable_rcon_hook", SettingValue::Other("{\"kind\":\"MinecraftEnableRcon\"}".to_string())),
        ("enable_rcon", SettingValue::Bool(false)),
        ("enable_other", SettingValue::Bool(false)),
    ]);
    let requested = settings(vec![("enable_rcon", SettingValue::Bool(true)), ("enable_other", SettingValue::Bool(true))]);
    let hooks = intergration_hooks(&stored, &requested);
    assert_eq!(hooks.len(), 1);
    assert_eq!(setting_json(&hooks[0]), "{\"kind\":\"MinecraftEnableRcon\"}");
    let off = settings(vec![("enable_rcon", SettingValue::Bool(false))]);
    assert!(intergration_hooks(&stored, &off).is_empty());
    assert_eq!(setting_json(&SettingValue::Bool(true)), "true");
}

#[test]
fn modify_integration_reports_hooks_and_edits() {
    let mut store = IntergrationStore::new();
    let stored = settings(vec![
        ("enable_rcon", SettingValue::Bool(false)),
        ("_enable_rcon_hook", SettingValue::Bool(true)),
    ]);
    create_intergration(&mut store, true, modify(Element::Intergration(minecraft(stored)))).unwrap();
    let requested = settings(vec![("enable_rcon", SettingValue::Bool(true))]);
    let (reply, hooks) = modify_intergration(&mut store, true, modify(Element::Intergration(minecraft(requested)))).unwrap();
    assert_eq!((reply.status, reply.success, reply.text.as_str()), (201, true, "Integration modified successfully"));
    assert_eq!(hooks, vec!["true".to_string()]);
    match &store.intergrations[0].settings {
        IntergrationSettings::Object(v) => assert_eq!(v.len(), 1),
        _ => panic!(),
    }
    let other = Intergration { status: "x".to_string(), kind: Intergrations::Other, settings: settings(vec![]) };
    let (reply, hooks) = modify_intergration(&mut store, true, modify(Element::Intergration(other))).unwrap();
    assert_eq!((reply.status, reply.success, reply.text.as_str()), (500, false, "Internal server error"));
    assert!(hooks.is_empty());
    assert!(matches!(modify_intergration(&mut store, true, modify(Element::String("x".to_string()))), Err(500)));
    let _ = UserPerm { perm: String::new(), scope: String::new() };
}
