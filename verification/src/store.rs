//! The panel's store: users, nodes, servers, buttons and settings, as the
//! JSON database file holds them, with the operations the panel performs on
//! them. Reading and writing the file is left to the caller; every
//! operation here works on the content in memory.
use vstd::prelude::*;
use crate::databasespec::{
    User,
    UserView,
    UserPerm,
    Node,
    NodeView,
    NodeType,
    Server,
    ServerView,
    Button,
    ButtonView,
    Settings,
    SettingsView,
    Element,
    ElementView,
    ModifyElementData,
    default_settings_view,
    perms_view,
};
use crate::keyed::{
    has_key,
    first_key_at,
    lookup,
    drop_keyed,
    lemma_key_index_at,
    lemma_key_index_none,
};
use crate::status::{DatabaseError, CREATED, INTERNAL_SERVER_ERROR};
use crate::credentials::{bcrypt_verify, hash_password};
use crate::text::{str_eq, owned, to_lowercase, lowercase_of};

verus! {

/// Where the JSON database lives.
pub struct JsonBackend {
    pub file: String,
}

impl JsonBackend {
    /// The database file used when none is named: `credentials.json`.
    pub fn default_backend() -> (r: JsonBackend)
        ensures
            r.file@ == "credentials.json"@,
    {
        JsonBackend { file: owned("credentials.json") }
    }

    /// The database at `file`, or the default one.
    pub fn new(file: Option<String>) -> (r: JsonBackend)
        ensures
            file matches Some(f) ==> r.file@ == f@,
            file is None ==> r.file@ == "credentials.json"@,
    {
        match file {
            Some(f) => JsonBackend { file: f },
            None => JsonBackend::default_backend(),
        }
    }
}

/// What the database file holds.
pub struct JsonBackendContent {
    pub users: Vec<User>,
    pub nodes: Vec<Node>,
    pub servers: Vec<Server>,
    pub buttons: Vec<Button>,
    pub toggled_buttons: Vec<Button>,
    pub settings: Settings,
}

pub struct ContentView {
    pub users: Seq<UserView>,
    pub nodes: Seq<NodeView>,
    pub servers: Seq<ServerView>,
    pub buttons: Seq<ButtonView>,
    pub toggled_buttons: Seq<ButtonView>,
    pub settings: SettingsView,
}

pub open spec fn users_view(v: Seq<User>) -> Seq<UserView> {
    v.map_values(|u: User| u@)
}

pub open spec fn nodes_view(v: Seq<Node>) -> Seq<NodeView> {
    v.map_values(|n: Node| n@)
}

pub open spec fn servers_view(v: Seq<Server>) -> Seq<ServerView> {
    v.map_values(|s: Server| s@)
}

pub open spec fn buttons_view(v: Seq<Button>) -> Seq<ButtonView> {
    v.map_values(|b: Button| b@)
}

impl View for JsonBackendContent {
    type V = ContentView;

    open spec fn view(&self) -> ContentView {
        ContentView {
            users: users_view(self.users@),
            nodes: nodes_view(self.nodes@),
            servers: servers_view(self.servers@),
            buttons: buttons_view(self.buttons@),
            toggled_buttons: buttons_view(self.toggled_buttons@),
            settings: self.settings@,
        }
    }
}

/// Users are found by their name.
pub open spec fn user_key() -> spec_fn(UserView) -> Seq<char> {
    |u: UserView| u.username
}

/// Nodes are found by their name.
pub open spec fn node_key() -> spec_fn(NodeView) -> Seq<char> {
    |n: NodeView| n.nodename
}

/// Servers are found by their name.
pub open spec fn server_key() -> spec_fn(ServerView) -> Seq<char> {
    |s: ServerView| s.servername
}

/// Buttons are found by their exact name.
pub open spec fn button_key() -> spec_fn(ButtonView) -> Seq<char> {
    |b: ButtonView| b.name
}

/// Buttons are edited by their name compared without case.
pub open spec fn button_folded_key() -> spec_fn(ButtonView) -> Seq<char> {
    |b: ButtonView| lowercase_of(b.name)
}

/// One of the buttons a fresh panel shows.
pub open spec fn default_button(name: Seq<char>) -> ButtonView {
    ButtonView { name, link: Seq::empty(), button_type: "default"@ }
}

/// The buttons a fresh panel shows, in order.
pub open spec fn default_buttons_view() -> Seq<ButtonView> {
    seq![
        default_button("Filebrowser"@),
        default_button("Statistics"@),
        default_button("Workflows"@),
        default_button("Intergrations"@),
        default_button("Backups"@),
        default_button("Settings"@),
    ]
}

/// The content of a fresh database.
pub open spec fn default_content_view() -> ContentView {
    ContentView {
        users: Seq::empty(),
        nodes: Seq::empty(),
        servers: Seq::empty(),
        buttons: default_buttons_view(),
        toggled_buttons: default_buttons_view(),
        settings: default_settings_view(),
    }
}

fn default_button_named(name: &str) -> (r: Button)
    ensures
        r@ == default_button(name@),
{
    Button { name: owned(name), link: String::new(), button_type: owned("default") }
}

/// The buttons a fresh panel shows.
pub fn default_buttons() -> (r: Vec<Button>)
    ensures
        buttons_view(r@) == default_buttons_view(),
{
    let mut v: Vec<Button> = Vec::new();
    v.push(default_button_named("Filebrowser"));
    v.push(default_button_named("Statistics"));
    v.push(default_button_named("Workflows"));
    v.push(default_button_named("Intergrations"));
    v.push(default_button_named("Backups"));
    v.push(default_button_named("Settings"));
    assert(buttons_view(v@) =~= default_buttons_view());
    v
}

/// The admin account that the environment may configure.
pub struct AdminConfig {
    pub enabled: bool,
    pub user: String,
    pub password: String,
}

/// The permission the admin account holds: `admin` over `all`.
pub open spec fn admin_perms_view() -> Seq<crate::databasespec::UserPermView> {
    seq![crate::databasespec::UserPermView { perm: "admin"@, scope: "all"@ }]
}

/// The admin permission list.
pub fn admin_perms() -> (r: Vec<UserPerm>)
    ensures
        perms_view(r@) == admin_perms_view(),
{
    let mut v: Vec<UserPerm> = Vec::new();
    v.push(UserPerm { perm: owned("admin"), scope: owned("all") });
    assert(perms_view(v@) =~= admin_perms_view());
    v
}

/// What looking a user up gives: the configured admin account when it is
/// enabled and named (with `hash`, the outcome of hashing its password),
/// otherwise the first stored user of that name.
pub open spec fn retrieve_user_outcome(
    c: ContentView,
    username: Seq<char>,
    enabled: bool,
    admin_user: Seq<char>,
    hash: Option<Seq<char>>,
) -> Option<UserView> {
    if username == admin_user && enabled {
        Some(UserView { username, password_hash: hash, user_perms: admin_perms_view() })
    } else {
        lookup(c.users, user_key(), username)
    }
}

/// Creating a user: the element must be a user with a non-empty password
/// and a name no stored user has; `hash` is the outcome of hashing the
/// password, which must have succeeded. The new user goes last.
pub open spec fn create_user_outcome(c: ContentView, e: ElementView, hash: Option<Seq<char>>) -> (
    ContentView,
    Result<u16, DatabaseError>,
) {
    match e {
        ElementView::User { password, user, user_perms } => {
            if password.len() == 0 || has_key(c.users, user_key(), user) {
                (c, Err(DatabaseError::StatusCode(500)))
            } else {
                match hash {
                    None => (c, Err(DatabaseError::StatusCode(500))),
                    Some(h) => (
                        ContentView {
                            users: c.users.push(
                                UserView { username: user, password_hash: Some(h), user_perms },
                            ),
                            ..c
                        },
                        Ok(201),
                    ),
                }
            }
        },
        _ => (c, Err(DatabaseError::StatusCode(500))),
    }
}

/// Removing a user: every stored user of the element's name goes.
pub open spec fn remove_user_outcome(c: ContentView, e: ElementView) -> (
    ContentView,
    Result<u16, DatabaseError>,
) {
    match e {
        ElementView::User { user, .. } => (
            ContentView { users: drop_keyed(c.users, user_key(), user), ..c },
            Ok(201),
        ),
        _ => (c, Err(DatabaseError::StatusCode(500))),
    }
}

/// Editing a user: the first stored user of the element's name takes the
/// element's permissions, and a new hash (`hash`, the outcome of hashing)
/// when the element's password is not empty.
pub open spec fn edit_user_outcome(c: ContentView, e: ElementView, hash: Option<Seq<char>>) -> (
    ContentView,
    Result<u16, DatabaseError>,
) {
    match e {
        ElementView::User { password, user, user_perms } => match lookup(
            c.users,
            user_key(),
            user,
        ) {
            Some(old) => {
                let i = crate::keyed::key_index(c.users, user_key(), user).unwrap();
                let edited = UserView {
                    username: user,
                    password_hash: if password.len() == 0 {
                        old.password_hash
                    } else {
                        hash
                    },
                    user_perms,
                };
                (ContentView { users: c.users.update(i, edited), ..c }, Ok(201))
            },
            None => (c, Ok(201)),
        },
        _ => (c, Err(DatabaseError::StatusCode(500))),
    }
}

/// Creating a server: it needs a name that no stored server has.
pub open spec fn create_server_outcome(c: ContentView, e: ElementView) -> (
    ContentView,
    Result<u16, DatabaseError>,
) {
    match e {
        ElementView::Server(s) => {
            if s.servername.len() == 0 || has_key(c.servers, server_key(), s.servername) {
                (c, Err(DatabaseError::StatusCode(500)))
            } else {
                (ContentView { servers: c.servers.push(s), ..c }, Ok(201))
            }
        },
        _ => (c, Err(DatabaseError::StatusCode(500))),
    }
}

/// Removing a server: every stored server of that name goes.
pub open spec fn remove_server_outcome(c: ContentView, e: ElementView) -> (
    ContentView,
    Result<u16, DatabaseError>,
) {
    match e {
        ElementView::Server(s) => (
            ContentView { servers: drop_keyed(c.servers, server_key(), s.servername), ..c },
            Ok(201),
        ),
        _ => (c, Err(DatabaseError::StatusCode(500))),
    }
}

/// A stored server after an edit by `new`: provider, provider type and
/// location are taken over where the names agree.
pub open spec fn edited_server(x: ServerView, new: ServerView) -> ServerView {
    if x.servername == new.servername {
        ServerView {
            provider: new.provider,
            providertype: new.providertype,
            location: new.location,
            ..x
        }
    } else {
        x
    }
}

/// Editing a server: every stored server of that name is edited; there
/// must be one.
pub open spec fn edit_server_outcome(c: ContentView, e: ElementView) -> (
    ContentView,
    Result<u16, DatabaseError>,
) {
    match e {
        ElementView::Server(s) => {
            if has_key(c.servers, server_key(), s.servername) {
                (
                    ContentView {
                        servers: c.servers.map_values(|x: ServerView| edited_server(x, s)),
                        ..c
                    },
                    Ok(201),
                )
            } else {
                (c, Err(DatabaseError::StatusCode(500)))
            }
        },
        _ => (c, Err(DatabaseError::StatusCode(500))),
    }
}

/// Creating a node: its name must be new, and a custom node needs an
/// address.
pub open spec fn create_node_outcome(c: ContentView, e: ElementView) -> (
    ContentView,
    Result<u16, DatabaseError>,
) {
    match e {
        ElementView::Node(n) => {
            if has_key(c.nodes, node_key(), n.nodename) || (n.nodetype is Custom && n.ip.len()
                == 0) {
                (c, Err(DatabaseError::StatusCode(500)))
            } else {
                (ContentView { nodes: c.nodes.push(n), ..c }, Ok(201))
            }
        },
        _ => (c, Err(DatabaseError::StatusCode(500))),
    }
}

/// Removing a node by its name: there must be one.
pub open spec fn remove_node_outcome(c: ContentView, n: NodeView) -> (
    ContentView,
    Result<u16, DatabaseError>,
) {
    if has_key(c.nodes, node_key(), n.nodename) {
        (ContentView { nodes: drop_keyed(c.nodes, node_key(), n.nodename), ..c }, Ok(201))
    } else {
        (c, Err(DatabaseError::StatusCode(500)))
    }
}

/// A stored node after an edit by `new`: address, type and status are taken
/// over where the names agree.
pub open spec fn edited_node(x: NodeView, new: NodeView) -> NodeView {
    if x.nodename == new.nodename {
        NodeView { ip: new.ip, nodetype: new.nodetype, nodestatus: new.nodestatus, ..x }
    } else {
        x
    }
}

/// Editing a node: every stored node of that name is edited; there must be
/// one.
pub open spec fn edit_node_outcome(c: ContentView, e: ElementView) -> (
    ContentView,
    Result<u16, DatabaseError>,
) {
    match e {
        ElementView::Node(n) => {
            if has_key(c.nodes, node_key(), n.nodename) {
                (
                    ContentView {
                        nodes: c.nodes.map_values(|x: NodeView| edited_node(x, n)),
                        ..c
                    },
                    Ok(201),
                )
            } else {
                (c, Err(DatabaseError::StatusCode(500)))
            }
        },
        _ => (c, Err(DatabaseError::StatusCode(500))),
    }
}

/// Switching between the default buttons and the custom ones: when the
/// defaults are not shown, the kept set becomes the defaults first; then the
/// shown and kept sets trade places and the flag flips.
pub open spec fn toggle_buttons_outcome(c: ContentView) -> ContentView {
    let kept = if !c.settings.toggled_default_buttons {
        default_buttons_view()
    } else {
        c.toggled_buttons
    };
    ContentView {
        buttons: kept,
        toggled_buttons: c.buttons,
        settings: SettingsView {
            toggled_default_buttons: !c.settings.toggled_default_buttons,
            ..c.settings
        },
        ..c
    }
}

/// Restoring the buttons: both sets become the defaults.
pub open spec fn reset_buttons_outcome(c: ContentView) -> ContentView {
    ContentView { buttons: default_buttons_view(), toggled_buttons: default_buttons_view(), ..c }
}

/// Editing a button: the first shown button whose name agrees without case
/// takes the element's link and becomes a custom button.
pub open spec fn edit_button_outcome(c: ContentView, e: ElementView) -> (
    ContentView,
    Result<u16, DatabaseError>,
) {
    match e {
        ElementView::Button(b) => match crate::keyed::key_index(
            c.buttons,
            button_folded_key(),
            lowercase_of(b.name),
        ) {
            Some(i) => (
                ContentView {
                    buttons: c.buttons.update(
                        i,
                        ButtonView { link: b.link, button_type: "custom"@, ..c.buttons[i] },
                    ),
                    ..c
                },
                Ok(201),
            ),
            None => (c, Ok(201)),
        },
        _ => (c, Err(DatabaseError::StatusCode(500))),
    }
}

/// The outcome of hashing a password agrees with bcrypt's check.
pub open spec fn hash_fits(password: Seq<char>, hash: Option<Seq<char>>) -> bool {
    hash matches Some(h) ==> bcrypt_verify(password, h) == Some(true)
}

/// The password that an element carries, if it is a user.
pub open spec fn element_password(e: ElementView) -> Seq<char> {
    match e {
        ElementView::User { password, .. } => password,
        _ => Seq::empty(),
    }
}

fn user_position(users: &Vec<User>, name: &str) -> (r: Option<usize>)
    ensures
        match r {
            Some(i) => first_key_at(users_view(users@), user_key(), name@, i as int),
            None => !has_key(users_view(users@), user_key(), name@),
        },
{
    let mut i: usize = 0;
    while i < users.len()
        invariant
            i <= users@.len(),
            forall|j: int| 0 <= j < i ==> users@[j].username@ != name@,
        decreases users@.len() - i,
    {
        if str_eq(users[i].username.as_str(), name) {
            return Some(i);
        }
        i = i + 1;
    }
    None
}

fn node_position(nodes: &Vec<Node>, name: &str) -> (r: Option<usize>)
    ensures
        match r {
            Some(i) => first_key_at(nodes_view(nodes@), node_key(), name@, i as int),
            None => !has_key(nodes_view(nodes@), node_key(), name@),
        },
{
    let mut i: usize = 0;
    while i < nodes.len()
        invariant
            i <= nodes@.len(),
            forall|j: int| 0 <= j < i ==> nodes@[j].nodename@ != name@,
        decreases nodes@.len() - i,
    {
        if str_eq(nodes[i].nodename.as_str(), name) {
            return Some(i);
        }
        i = i + 1;
    }
    None
}

fn server_position(servers: &Vec<Server>, name: &str) -> (r: Option<usize>)
    ensures
        match r {
            Some(i) => first_key_at(servers_view(servers@), server_key(), name@, i as int),
            None => !has_key(servers_view(servers@), server_key(), name@),
        },
{
    let mut i: usize = 0;
    while i < servers.len()
        invariant
            i <= servers@.len(),
            forall|j: int| 0 <= j < i ==> servers@[j].servername@ != name@,
        decreases servers@.len() - i,
    {
        if str_eq(servers[i].servername.as_str(), name) {
            return Some(i);
        }
        i = i + 1;
    }
    None
}

fn button_position(buttons: &Vec<Button>, name: &str) -> (r: Option<usize>)
    ensures
        match r {
            Some(i) => first_key_at(buttons_view(buttons@), button_key(), name@, i as int),
            None => !has_key(buttons_view(buttons@), button_key(), name@),
        },
{
    let mut i: usize = 0;
    while i < buttons.len()
        invariant
            i <= buttons@.len(),
            forall|j: int| 0 <= j < i ==> buttons@[j].name@ != name@,
        decreases buttons@.len() - i,
    {
        if str_eq(buttons[i].name.as_str(), name) {
            return Some(i);
        }
        i = i + 1;
    }
    None
}

fn button_position_folded(buttons: &Vec<Button>, folded: &str) -> (r: Option<usize>)
    ensures
        match r {
            Some(i) => first_key_at(buttons_view(buttons@), button_folded_key(), folded@, i as int),
            None => !has_key(buttons_view(buttons@), button_folded_key(), folded@),
        },
{
    let mut i: usize = 0;
    while i < buttons.len()
        invariant
            i <= buttons@.len(),
            forall|j: int| 0 <= j < i ==> lowercase_of(buttons@[j].name@) != folded@,
        decreases buttons@.len() - i,
    {
        let lower = to_lowercase(buttons[i].name.as_str());
        if str_eq(lower.as_str(), folded) {
            return Some(i);
        }
        i = i + 1;
    }
    None
}

fn users_without(users: &Vec<User>, name: &str) -> (r: Vec<User>)
    ensures
        users_view(r@) == drop_keyed(users_view(users@), user_key(), name@),
{
    let mut out: Vec<User> = Vec::new();
    let mut i: usize = 0;
    while i < users.len()
        invariant
            i <= users@.len(),
            users_view(out@) == drop_keyed(
                users_view(users@.subrange(0, i as int)),
                user_key(),
                name@,
            ),
        decreases users@.len() - i,
    {
        let ghost before = users_view(users@.subrange(0, i as int));
        let ghost after = users_view(users@.subrange(0, i + 1));
        assert(after.drop_last() =~= before);
        assert(after.last() == users@[i as int]@);
        if !str_eq(users[i].username.as_str(), name) {
            out.push(users[i].clone());
            assert(users_view(out@) =~= drop_keyed(before, user_key(), name@).push(
                users@[i as int]@,
            ));
        }
        i = i + 1;
    }
    assert(users@.subrange(0, users@.len() as int) =~= users@);
    out
}

fn servers_without(servers: &Vec<Server>, name: &str) -> (r: Vec<Server>)
    ensures
        servers_view(r@) == drop_keyed(servers_view(servers@), server_key(), name@),
{
    let mut out: Vec<Server> = Vec::new();
    let mut i: usize = 0;
    while i < servers.len()
        invariant
            i <= servers@.len(),
            servers_view(out@) == drop_keyed(
                servers_view(servers@.subrange(0, i as int)),
                server_key(),
                name@,
            ),
        decreases servers@.len() - i,
    {
        let ghost before = servers_view(servers@.subrange(0, i as int));
        let ghost after = servers_view(servers@.subrange(0, i + 1));
        assert(after.drop_last() =~= before);
        assert(after.last() == servers@[i as int]@);
        if !str_eq(servers[i].servername.as_str(), name) {
            out.push(servers[i].clone());
            assert(servers_view(out@) =~= drop_keyed(before, server_key(), name@).push(
                servers@[i as int]@,
            ));
        }
        i = i + 1;
    }
    assert(servers@.subrange(0, servers@.len() as int) =~= servers@);
    out
}

fn nodes_without(nodes: &Vec<Node>, name: &str) -> (r: Vec<Node>)
    ensures
        nodes_view(r@) == drop_keyed(nodes_view(nodes@), node_key(), name@),
{
    let mut out: Vec<Node> = Vec::new();
    let mut i: usize = 0;
    while i < nodes.len()
        invariant
            i <= nodes@.len(),
            nodes_view(out@) == drop_keyed(
                nodes_view(nodes@.subrange(0, i as int)),
                node_key(),
                name@,
            ),
        decreases nodes@.len() - i,
    {
        let ghost before = nodes_view(nodes@.subrange(0, i as int));
        let ghost after = nodes_view(nodes@.subrange(0, i + 1));
        assert(after.drop_last() =~= before);
        assert(after.last() == nodes@[i as int]@);
        if !str_eq(nodes[i].nodename.as_str(), name) {
            out.push(nodes[i].clone());
            assert(nodes_view(out@) =~= drop_keyed(before, node_key(), name@).push(
                nodes@[i as int]@,
            ));
        }
        i = i + 1;
    }
    assert(nodes@.subrange(0, nodes@.len() as int) =~= nodes@);
    out
}

impl JsonBackendContent {
    /// The content of a fresh database: no users, nodes or servers, the
    /// default buttons shown and kept, and the default settings.
    pub fn default_content() -> (r: JsonBackendContent)
        ensures
            r@ == default_content_view(),
    {
        let r = JsonBackendContent {
            users: Vec::new(),
            nodes: Vec::new(),
            servers: Vec::new(),
            buttons: default_buttons(),
            toggled_buttons: default_buttons(),
            settings: Settings::default_settings(),
        };
        assert(r@.users =~= Seq::<UserView>::empty());
        assert(r@.nodes =~= Seq::<NodeView>::empty());
        assert(r@.servers =~= Seq::<ServerView>::empty());
        r
    }

    /// The first stored user of that name.
    pub fn get_from_database(&self, username: &str) -> (r: Option<User>)
        ensures
            match r {
                Some(u) => lookup(self@.users, user_key(), username@) == Some(u@),
                None => lookup(self@.users, user_key(), username@) == None::<UserView>,
            },
    {
        match user_position(&self.users, username) {
            Some(i) => {
                proof {
                    lemma_key_index_at(self@.users, user_key(), username@, i as int);
                }
                Some(self.users[i].clone())
            },
            None => {
                proof {
                    lemma_key_index_none(self@.users, user_key(), username@);
                }
                None
            },
        }
    }

    /// Looks a user up, with the configured admin account taking precedence
    /// when it is enabled and named; the admin's password is hashed afresh.
    pub fn retrieve_user(&self, username: String, admin: &AdminConfig) -> (r: Option<User>)
        ensures
            exists|h: Option<Seq<char>>|
                #![trigger hash_fits(admin.password@, h)]
                hash_fits(admin.password@, h) && match r {
                    Some(u) => retrieve_user_outcome(
                        self@,
                        username@,
                        admin.enabled,
                        admin.user@,
                        h,
                    ) == Some(u@),
                    None => retrieve_user_outcome(
                        self@,
                        username@,
                        admin.enabled,
                        admin.user@,
                        h,
                    ) == None::<UserView>,
                },
    {
        if str_eq(username.as_str(), admin.user.as_str()) && admin.enabled {
            let hashed = hash_password(admin.password.as_str());
            let password_hash = match hashed {
                Ok(h) => Some(h),
                Err(_) => None,
            };
            let ghost h = crate::databasespec::opt_view(password_hash);
            let u = User { username, password_hash, user_perms: admin_perms() };
            assert(hash_fits(admin.password@, h));
            Some(u)
        } else {
            let r = self.get_from_database(username.as_str());
            assert(hash_fits(admin.password@, None));
            r
        }
    }

    /// Creates a user from a user element, hashing its password.
    pub fn create_user_in_db(&mut self, element: ModifyElementData) -> (r: Result<
        u16,
        DatabaseError,
    >)
        ensures
            exists|h: Option<Seq<char>>|
                #![trigger hash_fits(element_password(element.element@), h)]
                hash_fits(element_password(element.element@), h) && (final(self)@, r)
                    == create_user_outcome(old(self)@, element.element@, h),
    {
        let ghost e = element.element@;
        let hash = match &element.element {
            Element::User { password, user, .. } => {
                if password.as_str().unicode_len() == 0 || user_position(
                    &self.users,
                    user.as_str(),
                ).is_some() {
                    None
                } else {
                    match hash_password(password.as_str()) {
                        Ok(h) => Some(h),
                        Err(_) => None,
                    }
                }
            },
            _ => None,
        };
        let ghost hv = crate::databasespec::opt_view(hash);
        assert(hash_fits(element_password(e), hv));
        self.apply_create_user(element, hash)
    }

    /// Stores a new user from a user element once its password has been
    /// hashed (`hash` is the outcome of hashing it).
    pub fn apply_create_user(&mut self, element: ModifyElementData, hash: Option<String>) -> (r:
        Result<u16, DatabaseError>)
        ensures
            (final(self)@, r) == create_user_outcome(
                old(self)@,
                element.element@,
                crate::databasespec::opt_view(hash),
            ),
    {
        match element.element {
            Element::User { password, user, user_perms } => {
                if password.as_str().unicode_len() == 0 {
                    return Err(DatabaseError::StatusCode(INTERNAL_SERVER_ERROR));
                }
                if user_position(&self.users, user.as_str()).is_some() {
                    return Err(DatabaseError::StatusCode(INTERNAL_SERVER_ERROR));
                }
                match hash {
                    None => Err(DatabaseError::StatusCode(INTERNAL_SERVER_ERROR)),
                    Some(h) => {
                        let u = User { username: user, password_hash: Some(h), user_perms };
                        let ghost uv = u@;
                        self.users.push(u);
                        assert(self@.users =~= old(self)@.users.push(uv));
                        Ok(CREATED)
                    },
                }
            },
            _ => Err(DatabaseError::StatusCode(INTERNAL_SERVER_ERROR)),
        }
    }

    /// Removes every user of the element's name.
    pub fn remove_user_in_db(&mut self, element: ModifyElementData) -> (r: Result<
        u16,
        DatabaseError,
    >)
        ensures
            (final(self)@, r) == remove_user_outcome(old(self)@, element.element@),
    {
        match &element.element {
            Element::User { user, .. } => {
                let kept = users_without(&self.users, user.as_str());
                self.users = kept;
                Ok(CREATED)
            },
            _ => Err(DatabaseError::StatusCode(INTERNAL_SERVER_ERROR)),
        }
    }

    /// Edits the first user of the element's name: its permissions, and its
    /// hash when the element carries a password.
    pub fn edit_user_in_db(&mut self, element: ModifyElementData) -> (r: Result<
        u16,
        DatabaseError,
    >)
        ensures
            exists|h: Option<Seq<char>>|
                #![trigger hash_fits(element_password(element.element@), h)]
                hash_fits(element_password(element.element@), h) && (final(self)@, r)
                    == edit_user_outcome(old(self)@, element.element@, h),
    {
        let ghost e = element.element@;
        match element.element {
            Element::User { password, user, user_perms } => {
                match user_position(&self.users, user.as_str()) {
                    None => {
                        proof {
                            lemma_key_index_none(self@.users, user_key(), user@);
                        }
                        assert(hash_fits(element_password(e), None));
                        assert((self@, Ok::<u16, DatabaseError>(CREATED)) == edit_user_outcome(
                            old(self)@,
                            e,
                            None,
                        ));
                        Ok(CREATED)
                    },
                    Some(i) => {
                        proof {
                            lemma_key_index_at(self@.users, user_key(), user@, i as int);
                        }
                        let hash = if password.as_str().unicode_len() == 0 {
                            None
                        } else {
                            match hash_password(password.as_str()) {
                                Ok(h) => Some(h),
                                Err(_) => None,
                            }
                        };
                        let ghost hv = crate::databasespec::opt_view(hash);
                        assert(hash_fits(element_password(e), hv));
                        let old_hash = crate::databasespec::clone_opt(
                            &self.users[i].password_hash,
                        );
                        let new_hash = if password.as_str().unicode_len() == 0 {
                            old_hash
                        } else {
                            hash
                        };
                        let edited = User { username: user, password_hash: new_hash, user_perms };
                        let ghost ev = edited@;
                        self.users.set(i, edited);
                        assert(self@.users =~= old(self)@.users.update(i as int, ev));
                        assert(lookup(old(self)@.users, user_key(), user@) == Some(
                            old(self)@.users[i as int],
                        ));
                        assert((self@, Ok::<u16, DatabaseError>(CREATED)) == edit_user_outcome(
                            old(self)@,
                            e,
                            hv,
                        ));
                        Ok(CREATED)
                    },
                }
            },
            _ => {
                assert(hash_fits(element_password(e), None));
                Err(DatabaseError::StatusCode(INTERNAL_SERVER_ERROR))
            },
        }
    }

    /// The first stored server of that name.
    pub fn get_from_servers_database(&self, servername: &str) -> (r: Option<Server>)
        ensures
            match r {
                Some(s) => lookup(self@.servers, server_key(), servername@) == Some(s@),
                None => lookup(self@.servers, server_key(), servername@) == None::<ServerView>,
            },
    {
        match server_position(&self.servers, servername) {
            Some(i) => {
                proof {
                    lemma_key_index_at(self@.servers, server_key(), servername@, i as int);
                }
                Some(self.servers[i].clone())
            },
            None => {
                proof {
                    lemma_key_index_none(self@.servers, server_key(), servername@);
                }
                None
            },
        }
    }

    /// Stores a new server; it needs a name no stored server has.
    pub fn create_server_in_db(&mut self, element: ModifyElementData) -> (r: Result<
        u16,
        DatabaseError,
    >)
        ensures
            (final(self)@, r) == create_server_outcome(old(self)@, element.element@),
    {
        match element.element {
            Element::Server(s) => {
                if s.servername.as_str().unicode_len() == 0 {
                    return Err(DatabaseError::StatusCode(INTERNAL_SERVER_ERROR));
                }
                if server_position(&self.servers, s.servername.as_str()).is_some() {
                    return Err(DatabaseError::StatusCode(INTERNAL_SERVER_ERROR));
                }
                let ghost sv = s@;
                self.servers.push(s);
                assert(self@.servers =~= old(self)@.servers.push(sv));
                Ok(CREATED)
            },
            _ => Err(DatabaseError::StatusCode(INTERNAL_SERVER_ERROR)),
        }
    }

    /// Removes every server of the element's name.
    pub fn remove_server_in_db(&mut self, element: ModifyElementData) -> (r: Result<
        u16,
        DatabaseError,
    >)
        ensures
            (final(self)@, r) == remove_server_outcome(old(self)@, element.element@),
    {
        match &element.element {
            Element::Server(s) => {
                let kept = servers_without(&self.servers, s.servername.as_str());
                self.servers = kept;
                Ok(CREATED)
            },
            _ => Err(DatabaseError::StatusCode(INTERNAL_SERVER_ERROR)),
        }
    }

    /// Edits every server of the element's name (provider, provider type
    /// and location); there must be one.
    pub fn edit_server_in_db(&mut self, element: ModifyElementData) -> (r: Result<
        u16,
        DatabaseError,
    >)
        ensures
            (final(self)@, r) == edit_server_outcome(old(self)@, element.element@),
    {
        match &element.element {
            Element::Server(s) => {
                if server_position(&self.servers, s.servername.as_str()).is_none() {
                    return Err(DatabaseError::StatusCode(INTERNAL_SERVER_ERROR));
                }
                let mut i: usize = 0;
                while i < self.servers.len()
                    invariant
                        i <= self.servers@.len(),
                        self.servers@.len() == old(self).servers@.len(),
                        forall|j: int|
                            0 <= j < i ==> self.servers@[j]@ == edited_server(
                                old(self).servers@[j]@,
                                s@,
                            ),
                        forall|j: int| i <= j < self.servers@.len() ==> self.servers@[j]
                            == old(self).servers@[j],
                        self.users == old(self).users,
                        self.nodes == old(self).nodes,
                        self.buttons == old(self).buttons,
                        self.toggled_buttons == old(self).toggled_buttons,
                        self.settings == old(self).settings,
                    decreases self.servers@.len() - i,
                {
                    if str_eq(self.servers[i].servername.as_str(), s.servername.as_str()) {
                        let x = self.servers[i].clone();
                        let edited = Server {
                            servername: x.servername,
                            provider: s.provider.clone(),
                            providertype: s.providertype.clone(),
                            location: s.location.clone(),
                            node: x.node,
                            sandbox: x.sandbox,
                            server_metadata: x.server_metadata,
                        };
                        self.servers.set(i, edited);
                    }
                    i = i + 1;
                }
                assert(self@.servers =~= old(self)@.servers.map_values(
                    |x: ServerView| edited_server(x, s@),
                ));
                Ok(CREATED)
            },
            _ => Err(DatabaseError::StatusCode(INTERNAL_SERVER_ERROR)),
        }
    }

    /// The first stored node of that name.
    pub fn get_from_nodes_database(&self, nodename: &str) -> (r: Option<Node>)
        ensures
            match r {
                Some(n) => lookup(self@.nodes, node_key(), nodename@) == Some(n@),
                None => lookup(self@.nodes, node_key(), nodename@) == None::<NodeView>,
            },
    {
        match node_position(&self.nodes, nodename) {
            Some(i) => {
                proof {
                    lemma_key_index_at(self@.nodes, node_key(), nodename@, i as int);
                }
                Some(self.nodes[i].clone())
            },
            None => {
                proof {
                    lemma_key_index_none(self@.nodes, node_key(), nodename@);
                }
                None
            },
        }
    }

    /// Stores a new node; its name must be new, and a custom node needs an
    /// address.
    pub fn create_nodes_in_db(&mut self, element: ModifyElementData) -> (r: Result<
        u16,
        DatabaseError,
    >)
        ensures
            (final(self)@, r) == create_node_outcome(old(self)@, element.element@),
    {
        match element.element {
            Element::Node(n) => {
                if node_position(&self.nodes, n.nodename.as_str()).is_some() {
                    return Err(DatabaseError::StatusCode(INTERNAL_SERVER_ERROR));
                }
                if matches!(n.nodetype, NodeType::Custom(_)) && n.ip.as_str().unicode_len()
                    == 0 {
                    return Err(DatabaseError::StatusCode(INTERNAL_SERVER_ERROR));
                }
                let ghost nv = n@;
                self.nodes.push(n);
                assert(self@.nodes =~= old(self)@.nodes.push(nv));
                Ok(CREATED)
            },
            _ => Err(DatabaseError::StatusCode(INTERNAL_SERVER_ERROR)),
        }
    }

    /// Removes every node of the given node's name; there must be one.
    pub fn remove_node_in_db_directly(&mut self, node: Node) -> (r: Result<u16, DatabaseError>)
        ensures
            (final(self)@, r) == remove_node_outcome(old(self)@, node@),
    {
        if node_position(&self.nodes, node.nodename.as_str()).is_none() {
            return Err(DatabaseError::StatusCode(INTERNAL_SERVER_ERROR));
        }
        let kept = nodes_without(&self.nodes, node.nodename.as_str());
        self.nodes = kept;
        Ok(CREATED)
    }

    /// Removes the nodes named by a node element; there must be one.
    pub fn remove_node_in_db(&mut self, element: ModifyElementData) -> (r: Result<
        u16,
        DatabaseError,
    >)
        ensures
            match element.element@ {
                ElementView::Node(n) => (final(self)@, r) == remove_node_outcome(old(self)@, n),
                _ => final(self)@ == old(self)@ && r == Err::<u16, DatabaseError>(
                    DatabaseError::StatusCode(500),
                ),
            },
    {
        match element.element {
            Element::Node(n) => self.remove_node_in_db_directly(n),
            _ => Err(DatabaseError::StatusCode(INTERNAL_SERVER_ERROR)),
        }
    }

    /// Edits every node of the element's name (address, type, status);
    /// there must be one.
    pub fn edit_node_in_db(&mut self, element: ModifyElementData) -> (r: Result<
        u16,
        DatabaseError,
    >)
        ensures
            (final(self)@, r) == edit_node_outcome(old(self)@, element.element@),
    {
        match &element.element {
            Element::Node(n) => {
                if node_position(&self.nodes, n.nodename.as_str()).is_none() {
                    return Err(DatabaseError::StatusCode(INTERNAL_SERVER_ERROR));
                }
                let mut i: usize = 0;
                while i < self.nodes.len()
                    invariant
                        i <= self.nodes@.len(),
                        self.nodes@.len() == old(self).nodes@.len(),
                        forall|j: int|
                            0 <= j < i ==> self.nodes@[j]@ == edited_node(
                                old(self).nodes@[j]@,
                                n@,
                            ),
                        forall|j: int| i <= j < self.nodes@.len() ==> self.nodes@[j] == old(
                            self,
                        ).nodes@[j],
                        self.users == old(self).users,
                        self.servers == old(self).servers,
                        self.buttons == old(self).buttons,
                        self.toggled_buttons == old(self).toggled_buttons,
                        self.settings == old(self).settings,
                    decreases self.nodes@.len() - i,
                {
                    if str_eq(self.nodes[i].nodename.as_str(), n.nodename.as_str()) {
                        let x = self.nodes[i].clone();
                        let edited = Node {
                            nodename: x.nodename,
                            ip: n.ip.clone(),
                            nodestatus: n.nodestatus,
                            nodetype: n.nodetype.clone(),
                            k8s_type: x.k8s_type,
                        };
                        self.nodes.set(i, edited);
                    }
                    i = i + 1;
                }
                assert(self@.nodes =~= old(self)@.nodes.map_values(
                    |x: NodeView| edited_node(x, n@),
                ));
                Ok(CREATED)
            },
            _ => Err(DatabaseError::StatusCode(INTERNAL_SERVER_ERROR)),
        }
    }

    /// The first shown button of that exact name.
    pub fn get_from_buttons_database(&self, name: &str) -> (r: Option<Button>)
        ensures
            match r {
                Some(b) => lookup(self@.buttons, button_key(), name@) == Some(b@),
                None => lookup(self@.buttons, button_key(), name@) == None::<ButtonView>,
            },
    {
        match button_position(&self.buttons, name) {
            Some(i) => {
                proof {
                    lemma_key_index_at(self@.buttons, button_key(), name@, i as int);
                }
                Some(self.buttons[i].clone())
            },
            None => {
                proof {
                    lemma_key_index_none(self@.buttons, button_key(), name@);
                }
                None
            },
        }
    }

    /// Whether the default buttons are the ones shown.
    pub fn toggle_button_state(&self) -> (r: bool)
        ensures
            r == self@.settings.toggled_default_buttons,
    {
        self.settings.toggled_default_buttons
    }

    /// Switches between the default buttons and the custom ones.
    pub fn toggle_default_buttons(&mut self) -> (r: u16)
        ensures
            final(self)@ == toggle_buttons_outcome(old(self)@),
            r == CREATED,
    {
        if !self.settings.toggled_default_buttons {
            self.toggled_buttons = default_buttons();
        }
        std::mem::swap(&mut self.buttons, &mut self.toggled_buttons);
        self.settings.toggled_default_buttons = !self.settings.toggled_default_buttons;
        CREATED
    }

    /// Restores the default buttons, shown and kept.
    pub fn reset_buttons(&mut self) -> (r: u16)
        ensures
            final(self)@ == reset_buttons_outcome(old(self)@),
            r == CREATED,
    {
        self.buttons = default_buttons();
        self.toggled_buttons = default_buttons();
        CREATED
    }

    /// Gives the first shown button whose name agrees (without case) the
    /// element's link, making it a custom button.
    pub fn edit_button_in_db(&mut self, element: ModifyElementData) -> (r: Result<
        u16,
        DatabaseError,
    >)
        ensures
            (final(self)@, r) == edit_button_outcome(old(self)@, element.element@),
    {
        match &element.element {
            Element::Button(b) => {
                let folded = to_lowercase(b.name.as_str());
                match button_position_folded(&self.buttons, folded.as_str()) {
                    Some(i) => {
                        proof {
                            lemma_key_index_at(
                                self@.buttons,
                                button_folded_key(),
                                folded@,
                                i as int,
                            );
                        }
                        let x = self.buttons[i].clone();
                        let edited = Button {
                            name: x.name,
                            link: b.link.clone(),
                            button_type: owned("custom"),
                        };
                        let ghost ev = edited@;
                        self.buttons.set(i, edited);
                        assert(self@.buttons =~= old(self)@.buttons.update(i as int, ev));
                        Ok(CREATED)
                    },
                    None => {
                        proof {
                            lemma_key_index_none(self@.buttons, button_folded_key(), folded@);
                        }
                        Ok(CREATED)
                    },
                }
            },
            _ => Err(DatabaseError::StatusCode(INTERNAL_SERVER_ERROR)),
        }
    }

    /// Every stored user, in order.
    pub fn fetch_all(&self) -> (r: Vec<User>)
        ensures
            users_view(r@) == self@.users,
    {
        let mut out: Vec<User> = Vec::new();
        let mut i: usize = 0;
        while i < self.users.len()
            invariant
                i <= self.users@.len(),
                users_view(out@) == users_view(self.users@.subrange(0, i as int)),
            decreases self.users@.len() - i,
        {
            out.push(self.users[i].clone());
            assert(users_view(self.users@.subrange(0, i + 1)) =~= users_view(
                self.users@.subrange(0, i as int),
            ).push(self.users@[i as int]@));
            i = i + 1;
        }
        assert(self.users@.subrange(0, self.users@.len() as int) =~= self.users@);
        out
    }

    /// Every stored server, in order.
    pub fn fetch_all_servers(&self) -> (r: Vec<Server>)
        ensures
            servers_view(r@) == self@.servers,
    {
        let mut out: Vec<Server> = Vec::new();
        let mut i: usize = 0;
        while i < self.servers.len()
            invariant
                i <= self.servers@.len(),
                servers_view(out@) == servers_view(self.servers@.subrange(0, i as int)),
            decreases self.servers@.len() - i,
        {
            out.push(self.servers[i].clone());
            assert(servers_view(self.servers@.subrange(0, i + 1)) =~= servers_view(
                self.servers@.subrange(0, i as int),
            ).push(self.servers@[i as int]@));
            i = i + 1;
        }
        assert(self.servers@.subrange(0, self.servers@.len() as int) =~= self.servers@);
        out
    }

    /// Every stored node, in order.
    pub fn fetch_all_nodes(&self) -> (r: Vec<Node>)
        ensures
            nodes_view(r@) == self@.nodes,
    {
        let mut out: Vec<Node> = Vec::new();
        let mut i: usize = 0;
        while i < self.nodes.len()
            invariant
                i <= self.nodes@.len(),
                nodes_view(out@) == nodes_view(self.nodes@.subrange(0, i as int)),
            decreases self.nodes@.len() - i,
        {
            out.push(self.nodes[i].clone());
            assert(nodes_view(self.nodes@.subrange(0, i + 1)) =~= nodes_view(
                self.nodes@.subrange(0, i as int),
            ).push(self.nodes@[i as int]@));
            i = i + 1;
        }
        assert(self.nodes@.subrange(0, self.nodes@.len() as int) =~= self.nodes@);
        out
    }

    /// Every shown button, in order.
    pub fn fetch_all_buttons(&self) -> (r: Vec<Button>)
        ensures
            buttons_view(r@) == self@.buttons,
    {
        let mut out: Vec<Button> = Vec::new();
        let mut i: usize = 0;
        while i < self.buttons.len()
            invariant
                i <= self.buttons@.len(),
                buttons_view(out@) == buttons_view(self.buttons@.subrange(0, i as int)),
            decreases self.buttons@.len() - i,
        {
            out.push(self.buttons[i].clone());
            assert(buttons_view(self.buttons@.subrange(0, i + 1)) =~= buttons_view(
                self.buttons@.subrange(0, i as int),
            ).push(self.buttons@[i as int]@));
            i = i + 1;
        }
        assert(self.buttons@.subrange(0, self.buttons@.len() as int) =~= self.buttons@);
        out
    }

    /// The first stored server of that name.
    pub fn retrieve_server(&self, servername: String) -> (r: Option<Server>)
        ensures
            match r {
                Some(s) => lookup(self@.servers, server_key(), servername@) == Some(s@),
                None => lookup(self@.servers, server_key(), servername@) == None::<ServerView>,
            },
    {
        self.get_from_servers_database(servername.as_str())
    }

    /// The first stored node of that name.
    pub fn retrieve_nodes(&self, nodename: String) -> (r: Option<Node>)
        ensures
            match r {
                Some(n) => lookup(self@.nodes, node_key(), nodename@) == Some(n@),
                None => lookup(self@.nodes, node_key(), nodename@) == None::<NodeView>,
            },
    {
        self.get_from_nodes_database(nodename.as_str())
    }

    /// Replaces the settings.
    pub fn set_settings(&mut self, settings: Settings)
        ensures
            final(self)@ == (ContentView { settings: settings@, ..old(self)@ }),
    {
        self.settings = settings;
    }

    /// The settings.
    pub fn get_settings(&self) -> (r: Settings)
        ensures
            r@ == self@.settings,
    {
        self.settings.clone()
    }
}

/// A store of the panel's settings.
pub trait SettingsDatabase {
    /// The settings the store holds.
    spec fn stored_settings(&self) -> SettingsView;

    /// Replaces the settings.
    fn set_settings(&mut self, value: Settings)
        ensures
            final(self).stored_settings() == value@,
    ;

    /// The settings.
    fn get_settings(&self) -> (r: Settings)
        ensures
            r@ == self.stored_settings(),
    ;
}

impl SettingsDatabase for JsonBackendContent {
    open spec fn stored_settings(&self) -> SettingsView {
        self@.settings
    }

    fn set_settings(&mut self, value: Settings) {
        JsonBackendContent::set_settings(self, value)
    }

    fn get_settings(&self) -> (r: Settings) {
        JsonBackendContent::get_settings(self)
    }
}

} // verus!
