//! What the panel's requests do to its state: the store, the current server
//! and node, and which messages go to the node afterwards. Authentication is
//! decided before (see `control::authorize`); sending the messages is the
//! caller's.
use vstd::prelude::*;
use crate::databasespec::{
    Node,
    NodeView,
    NodeType,
    NodeTypeView,
    NodeStatus,
    K8sType,
    Server,
    ServerView,
    ServerMetadata,
    ServerMetadataView,
    Element,
    ElementView,
    ModifyElementData,
    User,
    Button,
    Settings,
    SettingsView,
    empty_server_view,
    Filters,
    FileSystemDrivers,
};
use crate::store::{
    JsonBackendContent,
    ContentView,
    server_key,
    node_key,
    create_server_outcome,
    remove_server_outcome,
    remove_node_outcome,
    create_node_outcome,
    toggle_buttons_outcome,
    reset_buttons_outcome,
    edit_button_outcome,
    create_user_outcome,
    edit_user_outcome,
    remove_user_outcome,
    hash_fits,
    element_password,
    users_view,
    servers_view,
    buttons_view,
    AdminConfig,
    admin_perms,
    admin_perms_view,
};
use crate::keyed::{has_key, lookup, lemma_has_key_found};
use crate::transport::{MetadataTypes, MetadataView};
use crate::control::{Status, IncomingMessage, lock_from_request, bool_of, node_deletion_allowed};
use crate::status::{
    DatabaseError,
    OK,
    CREATED,
    BAD_REQUEST,
    UNAUTHORIZED,
    NOT_FOUND,
    CONFLICT,
    INTERNAL_SERVER_ERROR,
    SERVICE_UNAVAILABLE,
    UNPROCESSABLE_ENTITY,
};
use crate::text::{str_eq, owned};

verus! {

/// The node the panel is connected to.
pub struct CurrentNode {
    pub name: String,
    pub ip: String,
    pub status: Status,
    pub nodetype: NodeType,
    pub k8s_type: K8sType,
}

pub struct CurrentNodeView {
    pub name: Seq<char>,
    pub ip: Seq<char>,
    pub status: Status,
    pub nodetype: NodeTypeView,
    pub k8s_type: K8sType,
}

impl View for CurrentNode {
    type V = CurrentNodeView;

    open spec fn view(&self) -> CurrentNodeView {
        CurrentNodeView {
            name: self.name@,
            ip: self.ip@,
            status: self.status,
            nodetype: self.nodetype@,
            k8s_type: self.k8s_type,
        }
    }
}

/// The state the panel's requests work on.
pub struct Panel {
    pub database: JsonBackendContent,
    pub current_server: Option<Server>,
    pub current_node: CurrentNode,
    pub lock: bool,
    pub additional_nodes: Vec<NodeEntry>,
}

/// A node the panel lists: its name, address and types.
pub struct NodeEntry {
    pub name: String,
    pub ip: String,
    pub nodetype: NodeType,
    pub k8s_type: K8sType,
}

pub struct NodeEntryView {
    pub name: Seq<char>,
    pub ip: Seq<char>,
    pub nodetype: NodeTypeView,
    pub k8s_type: K8sType,
}

impl View for NodeEntry {
    type V = NodeEntryView;

    open spec fn view(&self) -> NodeEntryView {
        NodeEntryView {
            name: self.name@,
            ip: self.ip@,
            nodetype: self.nodetype@,
            k8s_type: self.k8s_type,
        }
    }
}

impl Clone for NodeEntry {
    fn clone(&self) -> (r: Self)
        ensures
            r@ == self@,
    {
        NodeEntry {
            name: self.name.clone(),
            ip: self.ip.clone(),
            nodetype: self.nodetype.clone(),
            k8s_type: self.k8s_type,
        }
    }
}

pub open spec fn entries_view(v: Seq<NodeEntry>) -> Seq<NodeEntryView> {
    v.map_values(|e: NodeEntry| e@)
}

/// Some entry of `l` has that name.
pub open spec fn has_entry_named(l: Seq<NodeEntryView>, name: Seq<char>) -> bool {
    exists|i: int| 0 <= i < l.len() && l[i].name == name
}

/// `l` with each entry of `extra` added, in order, unless an entry of that
/// name is there already.
pub open spec fn merge_entries(l: Seq<NodeEntryView>, extra: Seq<NodeEntryView>) -> Seq<
    NodeEntryView,
>
    decreases extra.len(),
{
    if extra.len() == 0 {
        l
    } else {
        let m = merge_entries(l, extra.drop_last());
        if has_entry_named(m, extra.last().name) {
            m
        } else {
            m.push(extra.last())
        }
    }
}

/// The entry of a stored node: its name, address and type, and no
/// Kubernetes type.
pub open spec fn stored_entry(n: NodeView) -> NodeEntryView {
    NodeEntryView { name: n.nodename, ip: n.ip, nodetype: n.nodetype, k8s_type: K8sType::NoType }
}

/// The node record a listed entry is answered as (status unknown).
pub open spec fn entry_node(e: NodeEntryView) -> NodeView {
    NodeView {
        nodename: e.name,
        ip: e.ip,
        nodestatus: NodeStatus::Unknown,
        nodetype: e.nodetype,
        k8s_type: e.k8s_type,
    }
}

/// The nodes listed: the cluster's, then each stored node whose name is not
/// listed yet.
pub open spec fn listed_entries(cluster: Seq<NodeEntryView>, stored: Seq<NodeView>) -> Seq<
    NodeEntryView,
> {
    merge_entries(cluster, stored.map_values(|n: NodeView| stored_entry(n)))
}

fn has_named(l: &Vec<NodeEntry>, name: &str) -> (r: bool)
    ensures
        r == has_entry_named(entries_view(l@), name@),
{
    let mut i: usize = 0;
    while i < l.len()
        invariant
            i <= l@.len(),
            forall|j: int| 0 <= j < i ==> l@[j].name@ != name@,
        decreases l@.len() - i,
    {
        if str_eq(l[i].name.as_str(), name) {
            assert(entries_view(l@)[i as int].name == name@);
            return true;
        }
        i = i + 1;
    }
    assert(!has_entry_named(entries_view(l@), name@)) by {
        assert forall|j: int| 0 <= j < l@.len() implies entries_view(l@)[j].name != name@ by {
            assert(entries_view(l@)[j] == l@[j]@);
        }
    }
    false
}

/// Adds to `l` each entry of `extra` whose name `l` does not have yet.
pub fn merge_node_entries(l: &mut Vec<NodeEntry>, extra: &Vec<NodeEntry>)
    ensures
        entries_view(final(l)@) == merge_entries(entries_view(old(l)@), entries_view(extra@)),
{
    let ghost ev = entries_view(extra@);
    let mut i: usize = 0;
    while i < extra.len()
        invariant
            i <= extra@.len(),
            ev == entries_view(extra@),
            entries_view(l@) == merge_entries(entries_view(old(l)@), ev.subrange(0, i as int)),
        decreases extra@.len() - i,
    {
        let ghost sub = ev.subrange(0, i + 1);
        assert(sub.drop_last() =~= ev.subrange(0, i as int));
        assert(sub.last() == extra@[i as int]@);
        if !has_named(l, extra[i].name.as_str()) {
            let ghost before = entries_view(l@);
            l.push(extra[i].clone());
            assert(entries_view(l@) =~= before.push(extra@[i as int]@));
        }
        i = i + 1;
    }
    assert(ev.subrange(0, ev.len() as int) =~= ev);
}

pub open spec fn opt_server_view(o: Option<Server>) -> Option<ServerView> {
    match o {
        Some(s) => Some(s@),
        None => None,
    }
}

/// What a request answers: a status, and the metadata of the server that
/// the node is to be told about, if any; or an error status.
pub open spec fn reply_view(r: Result<(u16, Option<MetadataTypes>), u16>) -> Result<
    (u16, Option<MetadataView>),
    u16,
> {
    match r {
        Ok((c, Some(m))) => Ok((c, Some(m@))),
        Ok((c, None)) => Ok((c, None)),
        Err(c) => Err(c),
    }
}

/// The metadata that describes a server to a node, with the sandbox flag
/// that applies.
pub open spec fn server_metadata_view(s: ServerView, sandbox: bool) -> MetadataView {
    MetadataView::Server {
        servername: s.servername,
        provider: s.provider,
        providertype: s.providertype,
        location: s.location,
        sandbox,
        server_metadata: s.server_metadata,
    }
}

/// Builds the metadata that describes `s` to a node.
pub fn server_metadata(s: &Server, sandbox: bool) -> (r: MetadataTypes)
    ensures
        r@ == server_metadata_view(s@, sandbox),
{
    MetadataTypes::Server {
        servername: s.servername.clone(),
        provider: s.provider.clone(),
        providertype: s.providertype.clone(),
        location: s.location.clone(),
        sandbox,
        server_metadata: s.server_metadata.clone(),
    }
}

/// Adding a server. Refused without authorisation, and for a custom server
/// when custom servers are disabled; anything but a server is a bad
/// request. Otherwise the server becomes the current one, and it is stored
/// unless its name is taken (conflict) or the store refuses it. A stored
/// server is described to the node, sandboxed if the settings force it.
pub open spec fn add_server_outcome(
    db: ContentView,
    current: Option<ServerView>,
    authorized: bool,
    e: ElementView,
) -> (ContentView, Option<ServerView>, Result<(u16, Option<MetadataView>), u16>) {
    if !authorized {
        (db, current, Err(UNAUTHORIZED))
    } else {
        match e {
            ElementView::Server(s) => {
                if db.settings.disable_custom_servers && s.provider == "custom"@ {
                    (db, current, Err(UNAUTHORIZED))
                } else if has_key(db.servers, server_key(), s.servername) {
                    (db, Some(s), Err(CONFLICT))
                } else {
                    let (stored, res) = create_server_outcome(db, e);
                    match res {
                        Ok(_) => (
                            stored,
                            Some(s),
                            Ok(
                                (
                                    OK,
                                    Some(
                                        server_metadata_view(
                                            s,
                                            db.settings.force_sandbox || s.sandbox,
                                        ),
                                    ),
                                ),
                            ),
                        ),
                        Err(_) => (stored, Some(s), Err(INTERNAL_SERVER_ERROR)),
                    }
                }
            },
            _ => (db, current, Ok((BAD_REQUEST, None))),
        }
    }
}

/// The current server after choosing a stored one: its name, provider,
/// type, location and sandbox flag, on the current node (status unknown),
/// without keywords.
pub open spec fn chosen_server_view(s: ServerView, node: CurrentNodeView) -> ServerView {
    ServerView {
        servername: s.servername,
        provider: s.provider,
        providertype: s.providertype,
        location: s.location,
        node: NodeView {
            nodename: node.name,
            ip: node.ip,
            nodestatus: NodeStatus::Unknown,
            nodetype: node.nodetype,
            k8s_type: node.k8s_type,
        },
        sandbox: s.sandbox,
        server_metadata: ServerMetadataView { start_keyword: None, stop_keyword: None },
    }
}

/// Choosing the current server by name. Refused without authorisation; a
/// name that no stored server has is not found; an element that is not a
/// name is answered with an internal error. The chosen server is described
/// to the node.
pub open spec fn set_server_outcome(
    db: ContentView,
    current: Option<ServerView>,
    node: CurrentNodeView,
    authorized: bool,
    e: ElementView,
) -> (Option<ServerView>, Result<(u16, Option<MetadataView>), u16>) {
    if !authorized {
        (current, Err(UNAUTHORIZED))
    } else {
        match e {
            ElementView::String(name) => match lookup(db.servers, server_key(), name) {
                Some(s) => (
                    Some(chosen_server_view(s, node)),
                    Ok((OK, Some(server_metadata_view(s, s.sandbox)))),
                ),
                None => (current, Err(NOT_FOUND)),
            },
            _ => (current, Ok((INTERNAL_SERVER_ERROR, None))),
        }
    }
}

/// The name of the server a lookup is for: the current server's when the
/// request names none and there is a current server.
pub open spec fn server_target(current: Option<ServerView>, requested: Seq<char>) -> Seq<char> {
    match current {
        Some(s) => if requested.len() == 0 {
            s.servername
        } else {
            requested
        },
        None => requested,
    }
}

impl Panel {
    /// Adds a server (see `add_server_outcome`).
    pub fn add_server(&mut self, authorized: bool, request: ModifyElementData) -> (r: Result<
        (u16, Option<MetadataTypes>),
        u16,
    >)
        ensures
            (final(self).database@, opt_server_view(final(self).current_server), reply_view(r))
                == add_server_outcome(
                old(self).database@,
                opt_server_view(old(self).current_server),
                authorized,
                request.element@,
            ),
            final(self).current_node == old(self).current_node,
            final(self).lock == old(self).lock,
            final(self).additional_nodes == old(self).additional_nodes,
    {
        if !authorized {
            return Err(UNAUTHORIZED);
        }
        let server = match &request.element {
            Element::Server(s) => s.clone(),
            _ => {
                return Ok((BAD_REQUEST, None));
            },
        };
        if self.database.settings.disable_custom_servers && str_eq(
            server.provider.as_str(),
            "custom",
        ) {
            return Err(UNAUTHORIZED);
        }
        self.current_server = Some(server.clone());
        if self.database.get_from_servers_database(server.servername.as_str()).is_some() {
            return Err(CONFLICT);
        }
        proof {
            if has_key(self.database@.servers, server_key(), server@.servername) {
                lemma_has_key_found(self.database@.servers, server_key(), server@.servername);
            }
        }
        let ghost before = self.database@;
        match self.database.create_server_in_db(request) {
            Ok(_) => {},
            Err(_) => {
                return Err(INTERNAL_SERVER_ERROR);
            },
        }
        assert(self.database@.settings == before.settings);
        let sandbox = self.database.settings.force_sandbox || server.sandbox;
        Ok((OK, Some(server_metadata(&server, sandbox))))
    }

    /// Chooses the current server (see `set_server_outcome`); the store is
    /// not changed.
    pub fn set_server(&mut self, authorized: bool, request: ModifyElementData) -> (r: Result<
        (u16, Option<MetadataTypes>),
        u16,
    >)
        ensures
            (opt_server_view(final(self).current_server), reply_view(r)) == set_server_outcome(
                old(self).database@,
                opt_server_view(old(self).current_server),
                old(self).current_node@,
                authorized,
                request.element@,
            ),
            final(self).database == old(self).database,
            final(self).current_node == old(self).current_node,
            final(self).lock == old(self).lock,
            final(self).additional_nodes == old(self).additional_nodes,
    {
        if !authorized {
            return Err(UNAUTHORIZED);
        }
        match &request.element {
            Element::String(servername) => {
                match self.database.get_from_servers_database(servername.as_str()) {
                    Some(s) => {
                        let chosen = Server {
                            servername: s.servername.clone(),
                            provider: s.provider.clone(),
                            providertype: s.providertype.clone(),
                            location: s.location.clone(),
                            node: Node {
                                nodename: self.current_node.name.clone(),
                                ip: self.current_node.ip.clone(),
                                nodestatus: NodeStatus::Unknown,
                                nodetype: self.current_node.nodetype.clone(),
                                k8s_type: self.current_node.k8s_type,
                            },
                            sandbox: s.sandbox,
                            server_metadata: ServerMetadata::empty(),
                        };
                        self.current_server = Some(chosen);
                        let meta = server_metadata(&s, s.sandbox);
                        Ok((OK, Some(meta)))
                    },
                    None => Err(NOT_FOUND),
                }
            },
            _ => Ok((INTERNAL_SERVER_ERROR, None)),
        }
    }

    /// Looks up a server by name; an empty name means the current server,
    /// if there is one. Refused without authorisation; not found when no
    /// stored server has the name.
    pub fn get_server(&self, authorized: bool, element: &str) -> (r: Result<Server, u16>)
        ensures
            !authorized ==> r == Err::<Server, u16>(UNAUTHORIZED),
            authorized ==> match lookup(
                self.database@.servers,
                server_key(),
                server_target(opt_server_view(self.current_server), element@),
            ) {
                Some(s) => r matches Ok(x) && x@ == s,
                None => r == Err::<Server, u16>(NOT_FOUND),
            },
    {
        if !authorized {
            return Err(UNAUTHORIZED);
        }
        let target: &str = match &self.current_server {
            Some(s) => if element.unicode_len() == 0 {
                s.servername.as_str()
            } else {
                element
            },
            None => element,
        };
        match self.database.get_from_servers_database(target) {
            Some(s) => Ok(s),
            None => Err(NOT_FOUND),
        }
    }
}

/// A store error answered as an internal error; a success passes its
/// status through.
pub open spec fn store_reply(res: Result<u16, DatabaseError>) -> Result<u16, u16> {
    match res {
        Ok(c) => Ok(c),
        Err(_) => Err(INTERNAL_SERVER_ERROR),
    }
}

fn to_reply(res: Result<u16, DatabaseError>) -> (r: Result<u16, u16>)
    ensures
        r == store_reply(res),
{
    match res {
        Ok(c) => Ok(c),
        Err(_) => Err(INTERNAL_SERVER_ERROR),
    }
}

/// Deleting a node: only a node element names one; it must be stored,
/// and only a node that Kubernetes does not manage may go (else the
/// service is unavailable).
pub open spec fn delete_node_outcome(db: ContentView, authorized: bool, e: ElementView) -> (
    ContentView,
    Result<u16, u16>,
) {
    if !authorized {
        (db, Err(UNAUTHORIZED))
    } else {
        match e {
            ElementView::Node(n) => match lookup(db.nodes, node_key(), n.nodename) {
                Some(stored) => if stored.k8s_type == K8sType::NoType || stored.k8s_type
                    == K8sType::Unknown {
                    let (after, res) = remove_node_outcome(db, stored);
                    (after, store_reply(res))
                } else {
                    (db, Err(SERVICE_UNAVAILABLE))
                },
                None => (db, Err(INTERNAL_SERVER_ERROR)),
            },
            _ => (db, Err(INTERNAL_SERVER_ERROR)),
        }
    }
}

/// The server element that removing a server by name stands for.
pub open spec fn named_server_view(name: Seq<char>) -> ServerView {
    ServerView { servername: name, ..empty_server_view() }
}

/// The answer to a status request: `status` with code `0`, carrying for
/// `buttons` whether the default buttons are shown.
pub open spec fn status_reply_fits(r: IncomingMessage, message_type: Seq<char>, toggled: bool) -> bool {
    &&& r.message_type@ == "status"@
    &&& r.authcode@ == "0"@
    &&& r.message@ == if message_type == "buttons"@ {
        if toggled {
            "true"@
        } else {
            "false"@
        }
    } else {
        Seq::<char>::empty()
    }
}

impl Panel {
    /// Deletes a server: a deletion request removes the named server from
    /// the store; 201 whatever the metadata, after which the node is sent
    /// the same metadata.
    pub fn delete_server(&mut self, authorized: bool, metadata: &MetadataTypes) -> (r: Result<
        u16,
        u16,
    >)
        ensures
            !authorized ==> r == Err::<u16, u16>(UNAUTHORIZED) && final(self).database
                == old(self).database,
            authorized ==> match metadata@ {
                MetadataView::DeleteServer { delete_server_name, .. } => {
                    let (after, res) = remove_server_outcome(
                        old(self).database@,
                        ElementView::Server(named_server_view(delete_server_name)),
                    );
                    &&& final(self).database@ == after
                    &&& r == match res {
                        Ok(_) => Ok::<u16, u16>(CREATED),
                        Err(_) => Err(INTERNAL_SERVER_ERROR),
                    }
                },
                _ => final(self).database == old(self).database && r == Ok::<u16, u16>(CREATED),
            },
            final(self).current_server == old(self).current_server,
            final(self).current_node == old(self).current_node,
            final(self).lock == old(self).lock,
            final(self).additional_nodes == old(self).additional_nodes,
    {
        if !authorized {
            return Err(UNAUTHORIZED);
        }
        match metadata {
            MetadataTypes::DeleteServer { delete_server_name, .. } => {
                let mut server = Server::empty();
                server.servername = delete_server_name.clone();
                let res = self.database.remove_server_in_db(
                    ModifyElementData {
                        element: Element::Server(server),
                        jwt: String::new(),
                        require_auth: false,
                    },
                );
                if res.is_err() {
                    return Err(INTERNAL_SERVER_ERROR);
                }
            },
            _ => {},
        }
        Ok(CREATED)
    }

    /// Deletes a node (see `delete_node_outcome`).
    pub fn delete_node(&mut self, authorized: bool, element: &Element) -> (r: Result<u16, u16>)
        ensures
            (final(self).database@, r) == delete_node_outcome(
                old(self).database@,
                authorized,
                element@,
            ),
            final(self).current_server == old(self).current_server,
            final(self).current_node == old(self).current_node,
            final(self).lock == old(self).lock,
            final(self).additional_nodes == old(self).additional_nodes,
    {
        if !authorized {
            return Err(UNAUTHORIZED);
        }
        match element {
            Element::Node(n) => {
                match self.database.retrieve_nodes(n.nodename.clone()) {
                    Some(stored) => {
                        if node_deletion_allowed(stored.k8s_type) {
                            let res = self.database.remove_node_in_db_directly(stored);
                            to_reply(res)
                        } else {
                            Err(SERVICE_UNAVAILABLE)
                        }
                    },
                    None => Err(INTERNAL_SERVER_ERROR),
                }
            },
            _ => Err(INTERNAL_SERVER_ERROR),
        }
    }

    /// Adds a node to the store; a refusal is an internal error.
    pub fn add_node(&mut self, authorized: bool, request: ModifyElementData) -> (r: Result<
        u16,
        u16,
    >)
        ensures
            !authorized ==> r == Err::<u16, u16>(UNAUTHORIZED) && final(self).database
                == old(self).database,
            authorized ==> {
                let (after, res) = create_node_outcome(old(self).database@, request.element@);
                final(self).database@ == after && r == store_reply(res)
            },
            final(self).current_server == old(self).current_server,
            final(self).current_node == old(self).current_node,
            final(self).lock == old(self).lock,
            final(self).additional_nodes == old(self).additional_nodes,
    {
        if !authorized {
            return Err(UNAUTHORIZED);
        }
        let res = self.database.create_nodes_in_db(request);
        to_reply(res)
    }

    /// The buttons request: `toggle` switches between the default and the
    /// custom buttons, `restore` restores the defaults (both 201); any other
    /// text is an internal error.
    pub fn button_reset(&mut self, authorized: bool, message: &str) -> (r: u16)
        ensures
            !authorized ==> r == UNAUTHORIZED && final(self).database == old(self).database,
            authorized && message@ == "toggle"@ ==> r == CREATED && final(self).database@
                == toggle_buttons_outcome(old(self).database@),
            authorized && message@ == "restore"@ ==> r == CREATED && final(self).database@
                == reset_buttons_outcome(old(self).database@),
            authorized && message@ != "toggle"@ && message@ != "restore"@ ==> r
                == INTERNAL_SERVER_ERROR && final(self).database == old(self).database,
            final(self).current_server == old(self).current_server,
            final(self).current_node == old(self).current_node,
            final(self).lock == old(self).lock,
            final(self).additional_nodes == old(self).additional_nodes,
    {
        if !authorized {
            return UNAUTHORIZED;
        }
        proof {
            reveal_strlit("toggle");
            reveal_strlit("restore");
            assert("toggle"@.len() != "restore"@.len());
        }
        if str_eq(message, "toggle") {
            self.database.toggle_default_buttons()
        } else if str_eq(message, "restore") {
            self.database.reset_buttons()
        } else {
            INTERNAL_SERVER_ERROR
        }
    }

    /// Edits a button; a refusal is an internal error.
    pub fn edit_buttons(&mut self, authorized: bool, request: ModifyElementData) -> (r: Result<
        u16,
        u16,
    >)
        ensures
            !authorized ==> r == Err::<u16, u16>(UNAUTHORIZED) && final(self).database
                == old(self).database,
            authorized ==> {
                let (after, res) = edit_button_outcome(old(self).database@, request.element@);
                final(self).database@ == after && r == store_reply(res)
            },
            final(self).current_server == old(self).current_server,
            final(self).current_node == old(self).current_node,
            final(self).lock == old(self).lock,
            final(self).additional_nodes == old(self).additional_nodes,
    {
        if !authorized {
            return Err(UNAUTHORIZED);
        }
        let res = self.database.edit_button_in_db(request);
        to_reply(res)
    }

    /// The status request (see `status_reply_fits`).
    pub fn get_status(&self, authorized: bool, message_type: &str) -> (r: Result<
        IncomingMessage,
        u16,
    >)
        ensures
            !authorized ==> r == Err::<IncomingMessage, u16>(UNAUTHORIZED),
            authorized ==> (r matches Ok(m) && status_reply_fits(
                m,
                message_type@,
                self.database@.settings.toggled_default_buttons,
            )),
    {
        if !authorized {
            return Err(UNAUTHORIZED);
        }
        let mut reply = IncomingMessage {
            message: String::new(),
            message_type: owned("status"),
            authcode: owned("0"),
        };
        if str_eq(message_type, "buttons") {
            if self.database.toggle_button_state() {
                reply.message = owned("true");
            } else {
                reply.message = owned("false");
            }
        }
        Ok(reply)
    }

    /// The current node as a node record (status unknown); an internal
    /// error while the panel has no node.
    pub fn fetch_current_node(&self, authorized: bool) -> (r: Result<Node, u16>)
        ensures
            !authorized ==> r == Err::<Node, u16>(UNAUTHORIZED),
            authorized && self.current_node.name@.len() == 0 ==> r == Err::<Node, u16>(
                INTERNAL_SERVER_ERROR,
            ),
            authorized && self.current_node.name@.len() > 0 ==> (r matches Ok(n) && n@ == (
            NodeView {
                nodename: self.current_node.name@,
                ip: self.current_node.ip@,
                nodestatus: NodeStatus::Unknown,
                nodetype: self.current_node.nodetype@,
                k8s_type: self.current_node.k8s_type,
            })),
    {
        if !authorized {
            return Err(UNAUTHORIZED);
        }
        if self.current_node.name.as_str().unicode_len() == 0 {
            Err(INTERNAL_SERVER_ERROR)
        } else {
            Ok(
                Node {
                    nodename: self.current_node.name.clone(),
                    ip: self.current_node.ip.clone(),
                    nodestatus: NodeStatus::Unknown,
                    nodetype: self.current_node.nodetype.clone(),
                    k8s_type: self.current_node.k8s_type,
                },
            )
        }
    }

    /// Sets the console lock from a request's text (`true` or `false`,
    /// 201); any other text leaves it and is unprocessable.
    pub fn set_lock(&mut self, authorized: bool, message: &str) -> (r: u16)
        ensures
            !authorized ==> r == UNAUTHORIZED && final(self).lock == old(self).lock,
            authorized ==> match bool_of(message@) {
                Some(b) => final(self).lock == b && r == CREATED,
                None => final(self).lock == old(self).lock && r == UNPROCESSABLE_ENTITY,
            },
            final(self).database == old(self).database,
            final(self).current_server == old(self).current_server,
            final(self).current_node == old(self).current_node,
            final(self).additional_nodes == old(self).additional_nodes,
    {
        if !authorized {
            return UNAUTHORIZED;
        }
        let (lock, code) = lock_from_request(self.lock, message);
        self.lock = lock;
        code
    }

    /// Creates a user; a refusal is an internal error.
    pub fn create_user(&mut self, authorized: bool, request: ModifyElementData) -> (r: Result<
        u16,
        u16,
    >)
        ensures
            !authorized ==> r == Err::<u16, u16>(UNAUTHORIZED) && final(self).database
                == old(self).database,
            authorized ==> exists|h: Option<Seq<char>>|
                #![trigger hash_fits(element_password(request.element@), h)]
                hash_fits(element_password(request.element@), h) && {
                    let (after, res) = create_user_outcome(
                        old(self).database@,
                        request.element@,
                        h,
                    );
                    final(self).database@ == after && r == store_reply(res)
                },
            final(self).current_server == old(self).current_server,
            final(self).current_node == old(self).current_node,
            final(self).lock == old(self).lock,
            final(self).additional_nodes == old(self).additional_nodes,
    {
        if !authorized {
            return Err(UNAUTHORIZED);
        }
        let res = self.database.create_user_in_db(request);
        to_reply(res)
    }

    /// Edits a user; a refusal is an internal error.
    pub fn edit_user(&mut self, authorized: bool, request: ModifyElementData) -> (r: Result<
        u16,
        u16,
    >)
        ensures
            !authorized ==> r == Err::<u16, u16>(UNAUTHORIZED) && final(self).database
                == old(self).database,
            authorized ==> exists|h: Option<Seq<char>>|
                #![trigger hash_fits(element_password(request.element@), h)]
                hash_fits(element_password(request.element@), h) && {
                    let (after, res) = edit_user_outcome(old(self).database@, request.element@, h);
                    final(self).database@ == after && r == store_reply(res)
                },
            final(self).current_server == old(self).current_server,
            final(self).current_node == old(self).current_node,
            final(self).lock == old(self).lock,
            final(self).additional_nodes == old(self).additional_nodes,
    {
        if !authorized {
            return Err(UNAUTHORIZED);
        }
        let res = self.database.edit_user_in_db(request);
        to_reply(res)
    }

    /// Deletes a user; a refusal is an internal error.
    pub fn delete_user(&mut self, authorized: bool, request: ModifyElementData) -> (r: Result<
        u16,
        u16,
    >)
        ensures
            !authorized ==> r == Err::<u16, u16>(UNAUTHORIZED) && final(self).database
                == old(self).database,
            authorized ==> {
                let (after, res) = remove_user_outcome(old(self).database@, request.element@);
                final(self).database@ == after && r == store_reply(res)
            },
            final(self).current_server == old(self).current_server,
            final(self).current_node == old(self).current_node,
            final(self).lock == old(self).lock,
            final(self).additional_nodes == old(self).additional_nodes,
    {
        if !authorized {
            return Err(UNAUTHORIZED);
        }
        let res = self.database.remove_user_in_db(request);
        to_reply(res)
    }

    /// Every stored user.
    pub fn users(&self, authorized: bool) -> (r: Result<Vec<User>, u16>)
        ensures
            !authorized ==> r == Err::<Vec<User>, u16>(UNAUTHORIZED),
            authorized ==> (r matches Ok(v) && users_view(v@) == self.database@.users),
    {
        if !authorized {
            return Err(UNAUTHORIZED);
        }
        Ok(self.database.fetch_all())
    }

    /// Every stored server.
    pub fn get_servers(&self, authorized: bool) -> (r: Result<Vec<Server>, u16>)
        ensures
            !authorized ==> r == Err::<Vec<Server>, u16>(UNAUTHORIZED),
            authorized ==> (r matches Ok(v) && servers_view(v@) == self.database@.servers),
    {
        if !authorized {
            return Err(UNAUTHORIZED);
        }
        Ok(self.database.fetch_all_servers())
    }

    /// Every shown button.
    pub fn get_buttons(&self, authorized: bool) -> (r: Result<Vec<Button>, u16>)
        ensures
            !authorized ==> r == Err::<Vec<Button>, u16>(UNAUTHORIZED),
            authorized ==> (r matches Ok(v) && buttons_view(v@) == self.database@.buttons),
    {
        if !authorized {
            return Err(UNAUTHORIZED);
        }
        Ok(self.database.fetch_all_buttons())
    }

    /// The settings.
    pub fn get_settings(&self, authorized: bool) -> (r: Result<Settings, u16>)
        ensures
            !authorized ==> r == Err::<Settings, u16>(UNAUTHORIZED),
            authorized ==> (r matches Ok(s) && s@ == self.database@.settings),
    {
        if !authorized {
            return Err(UNAUTHORIZED);
        }
        Ok(self.database.get_settings())
    }

    /// Lists the nodes of the cluster: nothing where the panel has no
    /// cluster client (`has_cluster_client`); else the cluster's nodes
    /// (`cluster_nodes`), then each stored node whose name is not listed yet.
    /// The panel remembers every listed node it did not know by name.
    pub fn get_nodes(
        &mut self,
        authorized: bool,
        has_cluster_client: bool,
        cluster_nodes: Vec<NodeEntry>,
    ) -> (r: Result<Vec<Node>, u16>)
        ensures
            !authorized ==> r == Err::<Vec<Node>, u16>(UNAUTHORIZED) && final(self).additional_nodes
                == old(self).additional_nodes,
            authorized && !has_cluster_client ==> (r matches Ok(v) && v@.len() == 0)
                && final(self).additional_nodes == old(self).additional_nodes,
            authorized && has_cluster_client ==> {
                let listed = listed_entries(
                    entries_view(cluster_nodes@),
                    old(self).database@.nodes,
                );
                &&& entries_view(final(self).additional_nodes@) == merge_entries(
                    entries_view(old(self).additional_nodes@),
                    listed,
                )
                &&& r matches Ok(v) && v@.map_values(|n: Node| n@) == listed.map_values(
                    |e: NodeEntryView| entry_node(e),
                )
            },
            final(self).database == old(self).database,
            final(self).current_server == old(self).current_server,
            final(self).current_node == old(self).current_node,
            final(self).lock == old(self).lock,
    {
        if !authorized {
            return Err(UNAUTHORIZED);
        }
        if !has_cluster_client {
            return Ok(Vec::new());
        }
        let mut list = cluster_nodes;
        let stored = self.database.fetch_all_nodes();
        let mut from_store: Vec<NodeEntry> = Vec::new();
        let mut i: usize = 0;
        while i < stored.len()
            invariant
                i <= stored@.len(),
                entries_view(from_store@) == stored@.subrange(0, i as int).map_values(
                    |n: Node| stored_entry(n@),
                ),
            decreases stored@.len() - i,
        {
            let n = &stored[i];
            let ghost prev = entries_view(from_store@);
            let entry = NodeEntry {
                name: n.nodename.clone(),
                ip: n.ip.clone(),
                nodetype: n.nodetype.clone(),
                k8s_type: K8sType::NoType,
            };
            assert(entry@ == stored_entry(stored@[i as int]@));
            from_store.push(entry);
            assert(entries_view(from_store@) =~= prev.push(stored_entry(stored@[i as int]@)));
            assert(stored@.subrange(0, i + 1) =~= stored@.subrange(0, i as int).push(stored@[i as int]));
            assert(entries_view(from_store@) =~= stored@.subrange(0, i + 1).map_values(
                |n: Node| stored_entry(n@),
            ));
            i = i + 1;
        }
        assert(stored@.subrange(0, stored@.len() as int) =~= stored@);
        assert(entries_view(from_store@) =~= self.database@.nodes.map_values(
            |n: NodeView| stored_entry(n),
        ));
        merge_node_entries(&mut list, &from_store);
        merge_node_entries(&mut self.additional_nodes, &list);
        let mut out: Vec<Node> = Vec::new();
        let mut j: usize = 0;
        while j < list.len()
            invariant
                j <= list@.len(),
                out@.map_values(|n: Node| n@) == entries_view(list@).subrange(0, j as int).map_values(
                    |e: NodeEntryView| entry_node(e),
                ),
            decreases list@.len() - j,
        {
            let e = &list[j];
            let ghost prev = out@.map_values(|n: Node| n@);
            let node = Node {
                nodename: e.name.clone(),
                ip: e.ip.clone(),
                nodestatus: NodeStatus::Unknown,
                nodetype: e.nodetype.clone(),
                k8s_type: e.k8s_type,
            };
            assert(node@ == entry_node(list@[j as int]@));
            out.push(node);
            assert(out@.map_values(|n: Node| n@) =~= prev.push(entry_node(list@[j as int]@)));
            assert(entries_view(list@).subrange(0, j + 1) =~= entries_view(list@).subrange(0, j as int).push(list@[j as int]@));
            assert(out@.map_values(|n: Node| n@) =~= entries_view(list@).subrange(
                0,
                j + 1,
            ).map_values(|e: NodeEntryView| entry_node(e)));
            j = j + 1;
        }
        assert(entries_view(list@).subrange(0, list@.len() as int) =~= entries_view(list@));
        Ok(out)
    }
}

/// One settings field with its new value.
pub enum SettingsChange {
    ToggledDefaultButtons(bool),
    StatusType(String),
    EnabledRcon(bool),
    RconUrl(String),
    RconPassword(String),
    Filter(Filters),
    FileSystemDriver(FileSystemDrivers),
    EnableStatisticsOnHomePage(bool),
    EnableNodesOnHomePage(bool),
    ConsoleEntryOnTop(bool),
    ForceSandbox(bool),
    DisableCustomServers(bool),
    CurrentServer(Server),
}

pub enum SettingsChangeView {
    ToggledDefaultButtons(bool),
    StatusType(Seq<char>),
    EnabledRcon(bool),
    RconUrl(Seq<char>),
    RconPassword(Seq<char>),
    Filter(Filters),
    FileSystemDriver(FileSystemDrivers),
    EnableStatisticsOnHomePage(bool),
    EnableNodesOnHomePage(bool),
    ConsoleEntryOnTop(bool),
    ForceSandbox(bool),
    DisableCustomServers(bool),
    CurrentServer(ServerView),
}

impl View for SettingsChange {
    type V = SettingsChangeView;

    open spec fn view(&self) -> SettingsChangeView {
        match self {
            SettingsChange::ToggledDefaultButtons(b) => SettingsChangeView::ToggledDefaultButtons(*b),
            SettingsChange::StatusType(s) => SettingsChangeView::StatusType(s@),
            SettingsChange::EnabledRcon(b) => SettingsChangeView::EnabledRcon(*b),
            SettingsChange::RconUrl(s) => SettingsChangeView::RconUrl(s@),
            SettingsChange::RconPassword(s) => SettingsChangeView::RconPassword(s@),
            SettingsChange::Filter(f) => SettingsChangeView::Filter(*f),
            SettingsChange::FileSystemDriver(d) => SettingsChangeView::FileSystemDriver(*d),
            SettingsChange::EnableStatisticsOnHomePage(b) => SettingsChangeView::EnableStatisticsOnHomePage(*b),
            SettingsChange::EnableNodesOnHomePage(b) => SettingsChangeView::EnableNodesOnHomePage(*b),
            SettingsChange::ConsoleEntryOnTop(b) => SettingsChangeView::ConsoleEntryOnTop(*b),
            SettingsChange::ForceSandbox(b) => SettingsChangeView::ForceSandbox(*b),
            SettingsChange::DisableCustomServers(b) => SettingsChangeView::DisableCustomServers(*b),
            SettingsChange::CurrentServer(s) => SettingsChangeView::CurrentServer(s@),
        }
    }
}

impl Clone for SettingsChange {
    fn clone(&self) -> (r: Self)
        ensures
            r@ == self@,
    {
        match self {
            SettingsChange::ToggledDefaultButtons(b) => SettingsChange::ToggledDefaultButtons(*b),
            SettingsChange::StatusType(s) => SettingsChange::StatusType(s.clone()),
            SettingsChange::EnabledRcon(b) => SettingsChange::EnabledRcon(*b),
            SettingsChange::RconUrl(s) => SettingsChange::RconUrl(s.clone()),
            SettingsChange::RconPassword(s) => SettingsChange::RconPassword(s.clone()),
            SettingsChange::Filter(f) => SettingsChange::Filter(*f),
            SettingsChange::FileSystemDriver(d) => SettingsChange::FileSystemDriver(*d),
            SettingsChange::EnableStatisticsOnHomePage(b) => SettingsChange::EnableStatisticsOnHomePage(*b),
            SettingsChange::EnableNodesOnHomePage(b) => SettingsChange::EnableNodesOnHomePage(*b),
            SettingsChange::ConsoleEntryOnTop(b) => SettingsChange::ConsoleEntryOnTop(*b),
            SettingsChange::ForceSandbox(b) => SettingsChange::ForceSandbox(*b),
            SettingsChange::DisableCustomServers(b) => SettingsChange::DisableCustomServers(*b),
            SettingsChange::CurrentServer(s) => SettingsChange::CurrentServer(s.clone()),
        }
    }
}

/// The settings with one field changed.
pub open spec fn apply_change(s: SettingsView, c: SettingsChangeView) -> SettingsView {
    match c {
        SettingsChangeView::ToggledDefaultButtons(b) => SettingsView { toggled_default_buttons: b, ..s },
        SettingsChangeView::StatusType(v) => SettingsView { status_type: v, ..s },
        SettingsChangeView::EnabledRcon(b) => SettingsView { enabled_rcon: b, ..s },
        SettingsChangeView::RconUrl(v) => SettingsView { rcon_url: v, ..s },
        SettingsChangeView::RconPassword(v) => SettingsView { rcon_password: v, ..s },
        SettingsChangeView::Filter(f) => SettingsView { filter: f, ..s },
        SettingsChangeView::FileSystemDriver(d) => SettingsView { file_system_driver: d, ..s },
        SettingsChangeView::EnableStatisticsOnHomePage(b) => SettingsView {
            enable_statistics_on_home_page: b,
            ..s
        },
        SettingsChangeView::EnableNodesOnHomePage(b) => SettingsView { enable_nodes_on_home_page: b, ..s },
        SettingsChangeView::ConsoleEntryOnTop(b) => SettingsView { console_entry_on_top: b, ..s },
        SettingsChangeView::ForceSandbox(b) => SettingsView { force_sandbox: b, ..s },
        SettingsChangeView::DisableCustomServers(b) => SettingsView { disable_custom_servers: b, ..s },
        SettingsChangeView::CurrentServer(v) => SettingsView { current_server: v, ..s },
    }
}

/// The settings with the changes made in order, a later change of a field
/// overriding an earlier one.
pub open spec fn apply_changes(s: SettingsView, cs: Seq<SettingsChangeView>) -> SettingsView
    decreases cs.len(),
{
    if cs.len() == 0 {
        s
    } else {
        apply_change(apply_changes(s, cs.drop_last()), cs.last())
    }
}

#[verifier::spinoff_prover]
#[verifier::rlimit(100)]
fn apply_one(s: Settings, c: SettingsChange) -> (r: Settings)
    ensures
        r@ == apply_change(s@, c@),
{
    match c {
        SettingsChange::ToggledDefaultButtons(b) => Settings { toggled_default_buttons: b, ..s },
        SettingsChange::StatusType(v) => Settings { status_type: v, ..s },
        SettingsChange::EnabledRcon(b) => Settings { enabled_rcon: b, ..s },
        SettingsChange::RconUrl(v) => Settings { rcon_url: v, ..s },
        SettingsChange::RconPassword(v) => Settings { rcon_password: v, ..s },
        SettingsChange::Filter(f) => Settings { filter: f, ..s },
        SettingsChange::FileSystemDriver(d) => Settings { file_system_driver: d, ..s },
        SettingsChange::EnableStatisticsOnHomePage(b) => Settings {
            enable_statistics_on_home_page: b,
            ..s
        },
        SettingsChange::EnableNodesOnHomePage(b) => Settings { enable_nodes_on_home_page: b, ..s },
        SettingsChange::ConsoleEntryOnTop(b) => Settings { console_entry_on_top: b, ..s },
        SettingsChange::ForceSandbox(b) => Settings { force_sandbox: b, ..s },
        SettingsChange::DisableCustomServers(b) => Settings { disable_custom_servers: b, ..s },
        SettingsChange::CurrentServer(v) => Settings { current_server: v, ..s },
    }
}

impl Panel {
    /// Changes the named settings fields (in order, a later change of a
    /// field overriding an earlier one) and stores them; 201, with the new
    /// filter when the filter changed, which the node is then told of.
    /// Refused without authorisation.
    pub fn set_settings(&mut self, authorized: bool, changes: Vec<SettingsChange>) -> (r: Result<
        (u16, Option<Filters>),
        u16,
    >)
        ensures
            !authorized ==> r == Err::<(u16, Option<Filters>), u16>(UNAUTHORIZED)
                && final(self).database == old(self).database,
            authorized ==> {
                let after = apply_changes(
                    old(self).database@.settings,
                    changes@.map_values(|c: SettingsChange| c@),
                );
                &&& final(self).database@ == (ContentView { settings: after, ..old(self).database@ })
                &&& r == Ok::<(u16, Option<Filters>), u16>(
                    (
                        CREATED,
                        if after.filter != old(self).database@.settings.filter {
                            Some(after.filter)
                        } else {
                            None
                        },
                    ),
                )
            },
            final(self).current_server == old(self).current_server,
            final(self).current_node == old(self).current_node,
            final(self).lock == old(self).lock,
            final(self).additional_nodes == old(self).additional_nodes,
    {
        if !authorized {
            return Err(UNAUTHORIZED);
        }
        let old_filter = self.database.settings.filter;
        let mut settings = self.database.get_settings();
        let ghost cs = changes@.map_values(|c: SettingsChange| c@);
        let mut i: usize = 0;
        while i < changes.len()
            invariant
                i <= changes@.len(),
                cs == changes@.map_values(|c: SettingsChange| c@),
                settings@ == apply_changes(old(self).database@.settings, cs.subrange(0, i as int)),
            decreases changes@.len() - i,
        {
            let c = changes[i].clone();
            assert(cs.subrange(0, i + 1).drop_last() =~= cs.subrange(0, i as int));
            settings = apply_one(settings, c);
            i = i + 1;
        }
        assert(cs.subrange(0, cs.len() as int) =~= cs);
        let new_filter = settings.filter;
        self.database.set_settings(settings);
        if new_filter != old_filter {
            Ok((CREATED, Some(new_filter)))
        } else {
            Ok((CREATED, None))
        }
    }
}

/// The user element that sets the configured admin account up: its name
/// and password, with the admin permission.
pub open spec fn admin_element_view(admin: AdminConfig) -> ElementView {
    ElementView::User {
        password: admin.password@,
        user: admin.user@,
        user_perms: admin_perms_view(),
    }
}

/// Creates the configured admin account when it is enabled, as any user is
/// created (an existing name or a failed hash leaves the store unchanged).
pub fn ensure_admin_user(database: &mut JsonBackendContent, admin: &AdminConfig)
    ensures
        !admin.enabled ==> final(database)@ == old(database)@,
        admin.enabled ==> exists|h: Option<Seq<char>>|
            #![trigger hash_fits(admin.password@, h)]
            hash_fits(admin.password@, h) && final(database)@ == create_user_outcome(
                old(database)@,
                admin_element_view(*admin),
                h,
            ).0,
{
    if admin.enabled {
        let request = ModifyElementData {
            element: Element::User {
                password: admin.password.clone(),
                user: admin.user.clone(),
                user_perms: admin_perms(),
            },
            jwt: owned("0"),
            require_auth: false,
        };
        assert(request.element@ == admin_element_view(*admin));
        let _ = database.create_user_in_db(request);
    }
}

impl Panel {
    /// Takes on the node that answered the name request: its name (`main`
    /// when it gave none) at the address connected to, down and of unknown
    /// types until told otherwise.
    pub fn adopt_current_node(&mut self, reply: Option<String>, ip: String)
        ensures
            final(self).current_node@ == (CurrentNodeView {
                name: match reply {
                    Some(n) => n@,
                    None => "main"@,
                },
                ip: ip@,
                status: Status::Down,
                nodetype: NodeTypeView::Unknown,
                k8s_type: K8sType::NoType,
            }),
            final(self).database == old(self).database,
            final(self).current_server == old(self).current_server,
            final(self).lock == old(self).lock,
            final(self).additional_nodes == old(self).additional_nodes,
    {
        let name = crate::control::node_name_from_reply(reply);
        self.current_node = CurrentNode {
            name,
            ip,
            status: Status::default_status(),
            nodetype: NodeType::Unknown,
            k8s_type: K8sType::NoType,
        };
    }

    /// Switching to another node: the address of the stored node of that
    /// name, which the caller then connects to; an internal error when no
    /// node has the name. Refused without authorisation.
    pub fn change_node(&self, authorized: bool, node_id: String) -> (r: Result<String, u16>)
        ensures
            !authorized ==> r == Err::<String, u16>(UNAUTHORIZED),
            authorized ==> match lookup(self.database@.nodes, node_key(), node_id@) {
                Some(n) => (r matches Ok(ip) && ip@ == n.ip),
                None => r == Err::<String, u16>(INTERNAL_SERVER_ERROR),
            },
    {
        if !authorized {
            return Err(UNAUTHORIZED);
        }
        match self.database.retrieve_nodes(node_id) {
            Some(n) => Ok(n.ip),
            None => Err(INTERNAL_SERVER_ERROR),
        }
    }
}

/// What keeping an RCON connection ready takes.
#[derive(Debug)]
pub enum RconStep {
    /// A connection is open already.
    Ready,
    /// Connect to this address with this password.
    Connect { url: String, password: String },
    /// RCON cannot be used; the text says why.
    Unavailable(String),
}

/// An answer that needs no authentication code.
#[derive(Debug)]
pub struct UnauthenticatedMessagePayload {
    pub kind: String,
    pub message: String,
}

impl Panel {
    /// Keeping RCON ready: an open connection is kept; otherwise, when the
    /// settings enable RCON, connect with their address and password; else
    /// RCON is unavailable.
    pub fn ensure_rcon_step(&self, connected: bool) -> (r: RconStep)
        ensures
            connected ==> r is Ready,
            !connected && self.database@.settings.enabled_rcon ==> (r matches RconStep::Connect {
                url,
                password,
            } && url@ == self.database@.settings.rcon_url && password@
                == self.database@.settings.rcon_password),
            !connected && !self.database@.settings.enabled_rcon ==> (r matches RconStep::Unavailable(
                m,
            ) && m@ == "RCON not enabled or settings not available"@),
    {
        if connected {
            return RconStep::Ready;
        }
        if self.database.settings.enabled_rcon {
            RconStep::Connect {
                url: self.database.settings.rcon_url.clone(),
                password: self.database.settings.rcon_password.clone(),
            }
        } else {
            RconStep::Unavailable(owned("RCON not enabled or settings not available"))
        }
    }

    /// Whether the browser's console input is passed on: only while the
    /// console is not locked.
    pub fn browser_input_allowed(&self) -> (r: bool)
        ensures
            r == !self.lock,
    {
        !self.lock
    }
}

/// Why connecting to RCON failed, as reported.
pub fn rcon_connect_error(error: &str) -> (r: String)
    ensures
        r@ == "RCON connection failed: "@ + error@,
{
    crate::text::concat2("RCON connection failed: ", error)
}

/// The answer to an RCON command: the server's response as an
/// `rcon_response`; an internal error when the command failed; unavailable
/// without a connection.
pub fn rcon_response(connected: bool, result: Result<String, String>) -> (r: Result<
    UnauthenticatedMessagePayload,
    u16,
>)
    ensures
        !connected ==> r == Err::<UnauthenticatedMessagePayload, u16>(SERVICE_UNAVAILABLE),
        connected ==> match result {
            Ok(text) => (r matches Ok(m) && m.kind@ == "rcon_response"@ && m.message@ == text@),
            Err(_) => r == Err::<UnauthenticatedMessagePayload, u16>(INTERNAL_SERVER_ERROR),
        },
{
    if !connected {
        return Err(SERVICE_UNAVAILABLE);
    }
    match result {
        Ok(text) => Ok(UnauthenticatedMessagePayload { kind: owned("rcon_response"), message: text }),
        Err(_) => Err(INTERNAL_SERVER_ERROR),
    }
}

/// The ping request: an empty message pings the node (200 when the ping
/// can go, else 500); any other message is not implemented. Refused without
/// authorisation.
pub fn ping_request(authorized: bool, message: &str, priority: usize, has_stream: bool) -> (r: (
    u16,
    Option<crate::transport::OutgoingMessage>,
))
    ensures
        !authorized ==> r.0 == UNAUTHORIZED && r.1 is None,
        authorized && message@.len() > 0 ==> r.0 == crate::status::NOT_IMPLEMENTED && r.1 is None,
        authorized && message@.len() == 0 ==> if crate::transport::gate_outcome(
            true,
            priority,
            has_stream,
        ) is Ok {
            r.0 == OK && r.1 is Some
        } else {
            r.0 == INTERNAL_SERVER_ERROR && r.1 is None
        },
{
    if !authorized {
        return (UNAUTHORIZED, None);
    }
    if message.unicode_len() > 0 {
        return (crate::status::NOT_IMPLEMENTED, None);
    }
    match (crate::transport::Ping {}).plan(priority, has_stream) {
        Ok(m) => (OK, Some(m)),
        Err(_) => (INTERNAL_SERVER_ERROR, None),
    }
}

/// The stop request: the node is asked to stop its server when the request
/// can go; 201 either way. Refused without authorisation.
pub fn stop_server_request(authorized: bool, priority: usize, has_stream: bool) -> (r: (
    u16,
    Option<crate::transport::OutgoingMessage>,
))
    ensures
        !authorized ==> r.0 == UNAUTHORIZED && r.1 is None,
        authorized ==> r.0 == CREATED && (r.1 is Some <==> crate::transport::gate_outcome(
            true,
            priority,
            has_stream,
        ) is Ok),
{
    if !authorized {
        return (UNAUTHORIZED, None);
    }
    match (crate::transport::StopServerRequest {}).plan(priority, has_stream) {
        Ok(m) => (CREATED, Some(m)),
        Err(_) => (CREATED, None),
    }
}

} // verus!
