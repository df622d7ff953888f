use gameserver_rs::databasespec::{
    Button, Element, K8sType, ModifyElementData, Node, NodeStatus, NodeType, Server,
    ServerMetadata, UserPerm,
};
use gameserver_rs::status::DatabaseError;
use gameserver_rs::store::{AdminConfig, JsonBackend, JsonBackendContent};

fn user_element(user: &str, password: &str, user_perms: Vec<UserPerm>, require_auth: bool) -> ModifyElementData {
    ModifyElementData {
        element: Element::User {
            user: user.to_owned(),
            password: password.to_owned(),
            user_perms,
        },
        require_auth,
        jwt: "".to_owned(),
    }
}

fn test_node(name: &str, ip: &str, k8s_type: K8sType) -> Node {
    Node {
        nodename: name.to_string(),
        ip: ip.to_string(),
        nodestatus: NodeStatus::Unknown,
        nodetype: NodeType::Custom(None),
        k8s_type,
    }
}

fn test_server(name: &str) -> Server {
    Server {
        servername: name.to_string(),
        provider: "".to_string(),
        providertype: "".to_string(),
        location: "test".to_string(),
        sandbox: false,
        node: test_node("test", "127.0.0.1:8080", K8sType::Unknown),
        server_metadata: ServerMetadata::empty(),
    }
}

fn no_admin() -> AdminConfig {
    AdminConfig { enabled: false, user: String::new(), password: String::new() }
}

#[test]
fn remove_user() {
    let mut database = JsonBackendContent::default_content();
    let _ = database.create_user_in_db(user_element("kk", "ddd", vec![], true)).expect("Failed");
    let remove_user_result = database.remove_user_in_db(user_element("kk", "ddd", vec![], false));
    assert!(remove_user_result.is_ok());
}

#[test]
fn create_user_perms() {
    let mut database = JsonBackendContent::default_content();
    let perms = vec![UserPerm { perm: "test".to_string(), scope: "all".to_string() }];
    let _ = database.create_user_in_db(user_element("kk", "ddd", perms, true));
    let retrieved_user_option = database.retrieve_user("kk".to_string(), &no_admin());
    if let Some(retrieved_user) = retrieved_user_option {
        assert_eq!(retrieved_user.user_perms.len(), 1);
        assert_eq!(retrieved_user.user_perms[0].perm, "test".to_string());
        assert_eq!(retrieved_user.user_perms[0].scope, "all".to_string());
    } else {
        panic!();
    }
}

#[test]
fn create_user() {
    let mut database = JsonBackendContent::default_content();
    let create_user_result = database.create_user_in_db(user_element("kk", "ddd", vec![], true));
    assert!(create_user_result.is_ok());
}

#[test]
fn duplicate_user() {
    let mut database = JsonBackendContent::default_content();
    let _ = database.create_user_in_db(user_element("A", "test", vec![], true));
    let result_b = database.create_user_in_db(user_element("A", "test", vec![], true));
    assert!(result_b.is_err());
}

#[test]
fn create_node() {
    let mut database = JsonBackendContent::default_content();
    let node = ModifyElementData {
        element: Element::Node(test_node("main", "127.0.0.1:8083", K8sType::Unknown)),
        jwt: "".to_string(),
        require_auth: true,
    };
    let result = database.create_nodes_in_db(node);
    assert!(result.is_ok());
}

#[test]
fn create_server() {
    let mut database = JsonBackendContent::default_content();
    let server = ModifyElementData {
        element: Element::Server(test_server("test")),
        jwt: "".to_string(),
        require_auth: false,
    };
    let result = database.create_server_in_db(server);
    if result.is_err() {
        assert!(false);
    } else {
        assert!(true);
    }
}

#[test]
fn create_server_without_name() {
    let mut database = JsonBackendContent::default_content();
    let server = ModifyElementData {
        element: Element::Server(test_server("")),
        jwt: "".to_string(),
        require_auth: false,
    };
    let result = database.create_server_in_db(server);
    assert!(result.is_err());
}

#[test]
fn json_backend_defaults_to_credentials_file() {
    assert_eq!(JsonBackend::new(None).file, "credentials.json");
    assert_eq!(JsonBackend::new(Some("db.json".to_string())).file, "db.json");
}

#[test]
fn default_content_has_six_default_buttons() {
    let c = JsonBackendContent::default_content();
    let names: Vec<&str> = c.buttons.iter().map(|b| b.name.as_str()).collect();
    assert_eq!(names, vec!["Filebrowser", "Statistics", "Workflows", "Intergrations", "Backups", "Settings"]);
    assert!(c.buttons.iter().all(|b| b.link.is_empty() && b.button_type == "default"));
    assert_eq!(c.toggled_buttons.len(), 6);
    assert!(c.users.is_empty() && c.nodes.is_empty() && c.servers.is_empty());
    assert!(c.settings.enabled_rcon);
    assert_eq!(c.settings.rcon_url, "localhost:25575");
    assert_eq!(c.settings.rcon_password, "testing");
}

#[test]
fn created_user_signs_in_with_its_password() {
    let mut database = JsonBackendContent::default_content();
    database.create_user_in_db(user_element("ann", "secret", vec![], true)).unwrap();
    let user = database.get_from_database("ann").expect("stored");
    let hash = user.password_hash.clone().expect("hashed");
    assert_ne!(hash, "secret");
    assert_eq!(gameserver_rs::credentials::verify_password("secret".to_string(), hash.clone()).unwrap(), true);
    assert_eq!(gameserver_rs::credentials::verify_password("wrong".to_string(), hash).unwrap(), false);
}

#[test]
fn user_with_empty_password_is_refused() {
    let mut database = JsonBackendContent::default_content();
    let r = database.create_user_in_db(user_element("ann", "", vec![], true));
    assert_eq!(r, Err(DatabaseError::StatusCode(500)));
    assert!(database.users.is_empty());
}

#[test]
fn removing_a_created_user_restores_the_users() {
    let mut database = JsonBackendContent::default_content();
    database.create_user_in_db(user_element("a", "x", vec![], true)).unwrap();
    database.create_user_in_db(user_element("b", "y", vec![], true)).unwrap();
    assert_eq!(database.remove_user_in_db(user_element("b", "", vec![], false)), Ok(201));
    assert_eq!(database.users.len(), 1);
    assert_eq!(database.users[0].username, "a");
    assert!(database.get_from_database("b").is_none());
}

#[test]
fn editing_a_user_changes_only_its_permissions_without_password() {
    let mut database = JsonBackendContent::default_content();
    database.create_user_in_db(user_element("a", "x", vec![], true)).unwrap();
    let before = database.users[0].password_hash.clone();
    let perms = vec![UserPerm { perm: "manager".to_string(), scope: "all".to_string() }];
    assert_eq!(database.edit_user_in_db(user_element("a", "", perms, false)), Ok(201));
    assert_eq!(database.users[0].password_hash, before);
    assert_eq!(database.users[0].user_perms[0].perm, "manager");
    assert_eq!(database.edit_user_in_db(user_element("nobody", "", vec![], false)), Ok(201));
}

#[test]
fn retrieve_user_prefers_the_enabled_admin() {
    let database = JsonBackendContent::default_content();
    let admin = AdminConfig { enabled: true, user: "root".to_string(), password: "pw".to_string() };
    let u = database.retrieve_user("root".to_string(), &admin).expect("admin");
    assert_eq!(u.user_perms[0].perm, "admin");
    assert_eq!(u.user_perms[0].scope, "all");
    assert!(gameserver_rs::credentials::verify_password("pw".to_string(), u.password_hash.unwrap()).unwrap());
    assert!(database.retrieve_user("root".to_string(), &no_admin()).is_none());
}

#[test]
fn duplicate_server_is_refused() {
    let mut database = JsonBackendContent::default_content();
    let e = || ModifyElementData { element: Element::Server(test_server("s")), jwt: String::new(), require_auth: false };
    assert_eq!(database.create_server_in_db(e()), Ok(201));
    assert_eq!(database.create_server_in_db(e()), Err(DatabaseError::StatusCode(500)));
    assert_eq!(database.servers.len(), 1);
}

#[test]
fn edit_server_takes_provider_and_location() {
    let mut database = JsonBackendContent::default_content();
    database.create_server_in_db(ModifyElementData { element: Element::Server(test_server("s")), jwt: String::new(), require_auth: false }).unwrap();
    let mut changed = test_server("s");
    changed.provider = "minecraft".to_string();
    changed.location = "eu".to_string();
    changed.sandbox = true;
    assert_eq!(database.edit_server_in_db(ModifyElementData { element: Element::Server(changed), jwt: String::new(), require_auth: false }), Ok(201));
    let s = database.get_from_servers_database("s").unwrap();
    assert_eq!(s.provider, "minecraft");
    assert_eq!(s.location, "eu");
    assert!(!s.sandbox);
    let missing = ModifyElementData { element: Element::Server(test_server("t")), jwt: String::new(), require_auth: false };
    assert_eq!(database.edit_server_in_db(missing), Err(DatabaseError::StatusCode(500)));
}

#[test]
fn custom_node_without_address_is_refused() {
    let mut database = JsonBackendContent::default_content();
    let e = ModifyElementData { element: Element::Node(test_node("n", "", K8sType::NoType)), jwt: String::new(), require_auth: false };
    assert_eq!(database.create_nodes_in_db(e), Err(DatabaseError::StatusCode(500)));
}

#[test]
fn removing_a_missing_node_is_refused() {
    let mut database = JsonBackendContent::default_content();
    assert_eq!(database.remove_node_in_db_directly(test_node("n", "1.2.3.4", K8sType::NoType)), Err(DatabaseError::StatusCode(500)));
    let e = ModifyElementData { element: Element::Node(test_node("n", "1.2.3.4", K8sType::NoType)), jwt: String::new(), require_auth: false };
    database.create_nodes_in_db(e).unwrap();
    assert_eq!(database.remove_node_in_db_directly(test_node("n", "", K8sType::NoType)), Ok(201));
    assert!(database.nodes.is_empty());
}

#[test]
fn edit_node_changes_address_and_status() {
    let mut database = JsonBackendContent::default_content();
    database.create_nodes_in_db(ModifyElementData { element: Element::Node(test_node("n", "1.2.3.4", K8sType::Pod)), jwt: String::new(), require_auth: false }).unwrap();
    let mut changed = test_node("n", "5.6.7.8", K8sType::NoType);
    changed.nodestatus = NodeStatus::Enabled;
    assert_eq!(database.edit_node_in_db(ModifyElementData { element: Element::Node(changed), jwt: String::new(), require_auth: false }), Ok(201));
    let n = database.get_from_nodes_database("n").unwrap();
    assert_eq!(n.ip, "5.6.7.8");
    assert_eq!(n.nodestatus, NodeStatus::Enabled);
    assert_eq!(n.k8s_type, K8sType::Pod);
}

#[test]
fn toggling_buttons_twice_restores_them() {
    let mut database = JsonBackendContent::default_content();
    database.buttons.push(Button { name: "Docs".to_string(), link: "/docs".to_string(), button_type: "custom".to_string() });
    let before: Vec<String> = database.buttons.iter().map(|b| b.name.clone()).collect();
    assert_eq!(database.toggle_default_buttons(), 201);
    assert!(database.toggle_button_state());
    assert_eq!(database.buttons.len(), 6);
    assert_eq!(database.toggle_default_buttons(), 201);
    assert!(!database.toggle_button_state());
    let after: Vec<String> = database.buttons.iter().map(|b| b.name.clone()).collect();
    assert_eq!(before, after);
}

#[test]
fn reset_buttons_restores_defaults() {
    let mut database = JsonBackendContent::default_content();
    database.buttons.clear();
    assert_eq!(database.reset_buttons(), 201);
    assert_eq!(database.buttons.len(), 6);
    assert_eq!(database.toggled_buttons.len(), 6);
}

#[test]
fn edit_button_matches_name_without_case() {
    let mut database = JsonBackendContent::default_content();
    let e = ModifyElementData {
        element: Element::Button(Button { name: "SETTINGS".to_string(), link: "/s".to_string(), button_type: "x".to_string() }),
        jwt: String::new(),
        require_auth: false,
    };
    assert_eq!(database.edit_button_in_db(e), Ok(201));
    let b = database.get_from_buttons_database("Settings").unwrap();
    assert_eq!(b.link, "/s");
    assert_eq!(b.button_type, "custom");
    let wrong = ModifyElementData { element: Element::String("x".to_string()), jwt: String::new(), require_auth: false };
    assert_eq!(database.edit_button_in_db(wrong), Err(DatabaseError::StatusCode(500)));
}

#[test]
fn fetch_all_returns_stored_records_in_order() {
    let mut database = JsonBackendContent::default_content();
    database.create_server_in_db(ModifyElementData { element: Element::Server(test_server("a")), jwt: String::new(), require_auth: false }).unwrap();
    database.create_server_in_db(ModifyElementData { element: Element::Server(test_server("b")), jwt: String::new(), require_auth: false }).unwrap();
    let names: Vec<String> = database.fetch_all_servers().into_iter().map(|s| s.servername).collect();
    assert_eq!(names, vec!["a".to_string(), "b".to_string()]);
    assert_eq!(database.fetch_all_buttons().len(), 6);
    assert!(database.retrieve_server("b".to_string()).is_some());
    assert!(database.retrieve_nodes("x".to_string()).is_none());
}
