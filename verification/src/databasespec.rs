//! The records the control panel keeps (users, nodes, servers, buttons,
//! integrations, settings), their mathematical views, and the conversions
//! between them and their textual forms.
use vstd::prelude::*;
use crate::text::{lowercase_of, owned, str_eq, to_lowercase, find_char, first_char_at, concat3};

verus! {

/// The view of an optional string.
pub open spec fn opt_view(o: Option<String>) -> Option<Seq<char>> {
    match o {
        Some(s) => Some(s@),
        None => None,
    }
}

/// A clone of an optional string.
pub fn clone_opt(o: &Option<String>) -> (r: Option<String>)
    ensures
        opt_view(r) == opt_view(*o),
{
    match o {
        Some(s) => Some(s.clone()),
        None => None,
    }
}

/// How console lines are filtered before they are shown.
#[derive(Debug, Clone, Copy, PartialEq, Eq, Structural)]
pub enum Filters {
    AlternatingLine,
    NoFilter,
}

/// The driver that moves files between the panel and a node.
#[derive(Debug, Clone, Copy, PartialEq, Eq, Structural)]
pub enum FileSystemDrivers {
    Tcp,
    NoDriver,
}

/// Whether a node may be used, and whether that may change.
#[derive(Debug, Clone, Copy, PartialEq, Eq, Structural)]
pub enum NodeStatus {
    Unknown,
    Enabled,
    Disabled,
    ImmutablyEnabled,
    ImmutablyDisabled,
}

/// What a node is within a Kubernetes cluster.
#[derive(Debug, Clone, Copy, PartialEq, Eq, Structural)]
pub enum K8sType {
    Node,
    Pod,
    NoType,
    Inbuilt,
    Unknown,
}

/// The game integrations the panel knows of.
#[derive(Debug, Clone, Copy, PartialEq, Eq, Structural)]
pub enum Intergrations {
    Minecraft,
    Other,
    Unknown,
}

/// A permission of a user, with the scope it applies to.
#[derive(Debug)]
pub struct UserPerm {
    pub perm: String,
    pub scope: String,
}

pub struct UserPermView {
    pub perm: Seq<char>,
    pub scope: Seq<char>,
}

impl View for UserPerm {
    type V = UserPermView;

    open spec fn view(&self) -> UserPermView {
        UserPermView { perm: self.perm@, scope: self.scope@ }
    }
}

impl Clone for UserPerm {
    fn clone(&self) -> (r: Self)
        ensures
            r@ == self@,
    {
        UserPerm { perm: self.perm.clone(), scope: self.scope.clone() }
    }
}

/// The views of a list of permissions.
pub open spec fn perms_view(v: Seq<UserPerm>) -> Seq<UserPermView> {
    v.map_values(|p: UserPerm| p@)
}

/// A copy of a list of permissions.
pub fn clone_perms(v: &Vec<UserPerm>) -> (r: Vec<UserPerm>)
    ensures
        perms_view(r@) == perms_view(v@),
{
    let mut out: Vec<UserPerm> = Vec::new();
    let mut i: usize = 0;
    while i < v.len()
        invariant
            i <= v@.len(),
            out@.len() == i,
            forall|j: int| 0 <= j < i ==> out@[j]@ == v@[j]@,
        decreases v@.len() - i,
    {
        let c = v[i].clone();
        out.push(c);
        i = i + 1;
    }
    assert(perms_view(out@) =~= perms_view(v@));
    out
}

/// A permission written as text: the permission, a colon, the scope.
pub open spec fn perm_text(p: UserPermView) -> Seq<char> {
    p.perm + ":"@ + p.scope
}

/// The permission a stored text denotes: what precedes its first colon,
/// and what follows it; nothing without a colon.
pub open spec fn parse_perm(s: Seq<char>) -> Option<UserPermView> {
    if exists|i: int| first_char_at(s, ':', i) {
        let i = choose|i: int| first_char_at(s, ':', i);
        Some(UserPermView { perm: s.subrange(0, i), scope: s.subrange(i + 1, s.len() as int) })
    } else {
        None
    }
}

/// The permissions stored texts denote, those without a colon left out.
pub open spec fn parse_perms(raw: Seq<Seq<char>>) -> Seq<UserPermView>
    decreases raw.len(),
{
    if raw.len() == 0 {
        Seq::empty()
    } else {
        let rest = parse_perms(raw.drop_last());
        match parse_perm(raw.last()) {
            Some(p) => rest.push(p),
            None => rest,
        }
    }
}

impl UserPerm {
    /// The permission as text (see `perm_text`).
    pub fn to_text(&self) -> (r: String)
        ensures
            r@ == perm_text(self@),
    {
        concat3(self.perm.as_str(), ":", self.scope.as_str())
    }
}

/// Reads one stored permission text (see `parse_perm`).
pub fn parse_user_perm(s: &str) -> (r: Option<UserPerm>)
    ensures
        match r {
            Some(p) => parse_perm(s@) == Some(p@),
            None => parse_perm(s@) is None,
        },
{
    match find_char(s, ':') {
        Some(i) => {
            proof {
                assert forall|j: int| first_char_at(s@, ':', j) implies j == i by {
                    if j < i {
                        assert(s@[j] != ':');
                    }
                    if i < j {
                        assert(s@[i as int] != ':');
                    }
                }
            }
            let n = s.unicode_len();
            let perm = s.substring_char(0, i).to_owned();
            let scope = s.substring_char(i + 1, n).to_owned();
            Some(UserPerm { perm, scope })
        },
        None => {
            assert(!exists|j: int| first_char_at(s@, ':', j));
            None
        },
    }
}

/// Reads stored permission texts (see `parse_perms`).
pub fn parse_user_perms(raw: &Vec<String>) -> (r: Vec<UserPerm>)
    ensures
        perms_view(r@) == parse_perms(raw@.map_values(|s: String| s@)),
{
    let ghost rv = raw@.map_values(|s: String| s@);
    let mut out: Vec<UserPerm> = Vec::new();
    let mut i: usize = 0;
    while i < raw.len()
        invariant
            i <= raw@.len(),
            rv == raw@.map_values(|s: String| s@),
            perms_view(out@) == parse_perms(rv.subrange(0, i as int)),
        decreases raw@.len() - i,
    {
        assert(rv.subrange(0, i + 1).drop_last() =~= rv.subrange(0, i as int));
        assert(rv.subrange(0, i + 1).last() == raw@[i as int]@);
        match parse_user_perm(raw[i].as_str()) {
            Some(p) => {
                let ghost before = perms_view(out@);
                let ghost pv = p@;
                out.push(p);
                assert(perms_view(out@) =~= before.push(pv));
            },
            None => {},
        }
        i = i + 1;
    }
    assert(rv.subrange(0, rv.len() as int) =~= rv);
    out
}

/// A permission whose name holds no colon is read back from its text.
pub proof fn lemma_perm_text_round_trip(p: UserPermView)
    requires
        !p.perm.contains(':'),
    ensures
        parse_perm(perm_text(p)) == Some(p),
{
    reveal_strlit(":");
    let t = perm_text(p);
    let i = p.perm.len() as int;
    assert(t[i] == ':');
    assert forall|j: int| 0 <= j < i implies t[j] != ':' by {
        assert(t[j] == p.perm[j]);
    }
    assert(first_char_at(t, ':', i));
    assert forall|j: int| first_char_at(t, ':', j) implies j == i by {
        if j > i {
            assert(t[i] == ':');
        }
    }
    assert(t.subrange(0, i) =~= p.perm);
    assert(t.subrange(i + 1, t.len() as int) =~= p.scope);
}

/// A user of the panel.
#[derive(Debug)]
pub struct User {
    pub username: String,
    pub password_hash: Option<String>,
    pub user_perms: Vec<UserPerm>,
}

pub struct UserView {
    pub username: Seq<char>,
    pub password_hash: Option<Seq<char>>,
    pub user_perms: Seq<UserPermView>,
}

impl View for User {
    type V = UserView;

    open spec fn view(&self) -> UserView {
        UserView {
            username: self.username@,
            password_hash: opt_view(self.password_hash),
            user_perms: perms_view(self.user_perms@),
        }
    }
}

impl Clone for User {
    fn clone(&self) -> (r: Self)
        ensures
            r@ == self@,
    {
        User {
            username: self.username.clone(),
            password_hash: clone_opt(&self.password_hash),
            user_perms: clone_perms(&self.user_perms),
        }
    }
}

/// The kind of a node: one that ships with the panel, the main one, or a
/// custom one (possibly with a name of its own).
#[derive(Debug)]
pub enum NodeType {
    Unknown,
    Custom(Option<String>),
    Inbuilt,
    Main,
}

pub enum NodeTypeView {
    Unknown,
    Custom(Option<Seq<char>>),
    Inbuilt,
    Main,
}

impl View for NodeType {
    type V = NodeTypeView;

    open spec fn view(&self) -> NodeTypeView {
        match self {
            NodeType::Unknown => NodeTypeView::Unknown,
            NodeType::Custom(o) => NodeTypeView::Custom(opt_view(*o)),
            NodeType::Inbuilt => NodeTypeView::Inbuilt,
            NodeType::Main => NodeTypeView::Main,
        }
    }
}

impl Clone for NodeType {
    fn clone(&self) -> (r: Self)
        ensures
            r@ == self@,
    {
        match self {
            NodeType::Unknown => NodeType::Unknown,
            NodeType::Custom(o) => NodeType::Custom(clone_opt(o)),
            NodeType::Inbuilt => NodeType::Inbuilt,
            NodeType::Main => NodeType::Main,
        }
    }
}

/// The node type that a stored name denotes.
pub open spec fn node_type_of_name(s: Seq<char>) -> NodeTypeView {
    if s == "custom"@ {
        NodeTypeView::Custom(None)
    } else if s == "inbuilt"@ {
        NodeTypeView::Inbuilt
    } else if s == "main"@ {
        NodeTypeView::Main
    } else {
        NodeTypeView::Custom(Some(s))
    }
}

/// The name under which a node type is stored.
pub open spec fn node_type_name(t: NodeTypeView) -> Seq<char> {
    match t {
        NodeTypeView::Custom(None) => "custom"@,
        NodeTypeView::Custom(Some(custom)) => custom,
        NodeTypeView::Inbuilt => "inbuilt"@,
        NodeTypeView::Main => "main"@,
        NodeTypeView::Unknown => Seq::empty(),
    }
}

impl NodeType {
    /// The node type that a stored name denotes: `custom`, `inbuilt` and
    /// `main` name their variants, any other name a custom node of that name.
    pub fn from_name(s: String) -> (r: NodeType)
        ensures
            r@ == node_type_of_name(s@),
    {
        if str_eq(s.as_str(), "custom") {
            NodeType::Custom(None)
        } else if str_eq(s.as_str(), "inbuilt") {
            NodeType::Inbuilt
        } else if str_eq(s.as_str(), "main") {
            NodeType::Main
        } else {
            NodeType::Custom(Some(s))
        }
    }

    /// The name under which the node type is stored.
    pub fn to_name(&self) -> (r: String)
        ensures
            r@ == node_type_name(self@),
    {
        match self {
            NodeType::Custom(None) => owned("custom"),
            NodeType::Custom(Some(custom)) => custom.clone(),
            NodeType::Inbuilt => owned("inbuilt"),
            NodeType::Main => owned("main"),
            NodeType::Unknown => String::new(),
        }
    }

    /// The node type that a serialised value denotes: a string, or an
    /// object's `kind` string, read case-insensitively; anything else is
    /// `Unknown`. The caller passes the string it found, if any.
    pub fn from_serialized_kind(kind: Option<&str>) -> (r: NodeType)
        ensures
            r@ == match kind {
                Some(k) => node_type_of_name(lowercase_of(k@)),
                None => NodeTypeView::Unknown,
            },
    {
        match kind {
            Some(k) => NodeType::from_name(to_lowercase(k)),
            None => NodeType::Unknown,
        }
    }
}

/// The Kubernetes type that a lower-cased name denotes.
pub open spec fn k8s_type_of_lowercase(s: Seq<char>) -> K8sType {
    if s == "node"@ {
        K8sType::Node
    } else if s == "pod"@ {
        K8sType::Pod
    } else if s == "inbuilt"@ {
        K8sType::Inbuilt
    } else if s == "unknown"@ {
        K8sType::Unknown
    } else {
        K8sType::NoType
    }
}

/// The Kubernetes type that an exact, capitalised name denotes.
pub open spec fn k8s_type_of_exact(s: Seq<char>) -> Option<K8sType> {
    if s == "None"@ {
        Some(K8sType::NoType)
    } else if s == "Inbuilt"@ {
        Some(K8sType::Inbuilt)
    } else if s == "Pod"@ {
        Some(K8sType::Pod)
    } else if s == "Node"@ {
        Some(K8sType::Node)
    } else if s == "Unknown"@ {
        Some(K8sType::Unknown)
    } else {
        None
    }
}

impl K8sType {
    /// Reads a serialised Kubernetes type: the name is compared
    /// case-insensitively, and an unknown name gives `None`.
    pub fn from_serialized(s: &str) -> (r: K8sType)
        ensures
            r == k8s_type_of_lowercase(lowercase_of(s@)),
    {
        let lower = to_lowercase(s);
        let l = lower.as_str();
        if str_eq(l, "node") {
            K8sType::Node
        } else if str_eq(l, "pod") {
            K8sType::Pod
        } else if str_eq(l, "inbuilt") {
            K8sType::Inbuilt
        } else if str_eq(l, "unknown") {
            K8sType::Unknown
        } else {
            K8sType::NoType
        }
    }

    /// Reads a Kubernetes type from its exact variant name; any other name is
    /// refused.
    pub fn try_from_name(value: &str) -> (r: Option<K8sType>)
        ensures
            r == k8s_type_of_exact(value@),
    {
        if str_eq(value, "None") {
            Some(K8sType::NoType)
        } else if str_eq(value, "Inbuilt") {
            Some(K8sType::Inbuilt)
        } else if str_eq(value, "Pod") {
            Some(K8sType::Pod)
        } else if str_eq(value, "Node") {
            Some(K8sType::Node)
        } else if str_eq(value, "Unknown") {
            Some(K8sType::Unknown)
        } else {
            None
        }
    }
}

/// The node status that a lower-cased name denotes.
pub open spec fn node_status_of_lowercase(s: Seq<char>) -> NodeStatus {
    if s == "enabled"@ {
        NodeStatus::Enabled
    } else if s == "disabled"@ {
        NodeStatus::Disabled
    } else if s == "immutablyenabled"@ || s == "immutably_enabled"@ {
        NodeStatus::ImmutablyEnabled
    } else if s == "immutablydisabled"@ || s == "immutably_disabled"@ {
        NodeStatus::ImmutablyDisabled
    } else {
        NodeStatus::Unknown
    }
}

impl NodeStatus {
    /// Reads a serialised node status: a string, or an object's `kind`
    /// string (the caller passes the string it found; an object without one
    /// counts as `unknown`), compared case-insensitively.
    pub fn from_serialized(s: &str) -> (r: NodeStatus)
        ensures
            r == node_status_of_lowercase(lowercase_of(s@)),
    {
        let lower = to_lowercase(s);
        let l = lower.as_str();
        if str_eq(l, "enabled") {
            NodeStatus::Enabled
        } else if str_eq(l, "disabled") {
            NodeStatus::Disabled
        } else if str_eq(l, "immutablyenabled") || str_eq(l, "immutably_enabled") {
            NodeStatus::ImmutablyEnabled
        } else if str_eq(l, "immutablydisabled") || str_eq(l, "immutably_disabled") {
            NodeStatus::ImmutablyDisabled
        } else {
            NodeStatus::Unknown
        }
    }
}

/// The integration that a name denotes.
pub open spec fn intergration_of_name(s: Seq<char>) -> Intergrations {
    if s == "minecraft"@ {
        Intergrations::Minecraft
    } else {
        Intergrations::Unknown
    }
}

/// The name of an integration.
pub open spec fn intergration_name(i: Intergrations) -> Seq<char> {
    match i {
        Intergrations::Minecraft => "minecraft"@,
        _ => "unknown"@,
    }
}

impl Intergrations {
    /// Reads an integration from its name; only `minecraft` is known, every
    /// other name is `Unknown`.
    pub fn from_name(s: &str) -> (r: Intergrations)
        ensures
            r == intergration_of_name(s@),
    {
        if str_eq(s, "minecraft") {
            Intergrations::Minecraft
        } else {
            Intergrations::Unknown
        }
    }

    /// The name of the integration (`unknown` for all but Minecraft).
    pub fn to_name(&self) -> (r: String)
        ensures
            r@ == intergration_name(*self),
    {
        match self {
            Intergrations::Minecraft => owned("minecraft"),
            _ => owned("unknown"),
        }
    }
}

/// A node that game servers run on.
#[derive(Debug)]
pub struct Node {
    pub nodename: String,
    pub ip: String,
    pub nodestatus: NodeStatus,
    pub nodetype: NodeType,
    pub k8s_type: K8sType,
}

pub struct NodeView {
    pub nodename: Seq<char>,
    pub ip: Seq<char>,
    pub nodestatus: NodeStatus,
    pub nodetype: NodeTypeView,
    pub k8s_type: K8sType,
}

impl View for Node {
    type V = NodeView;

    open spec fn view(&self) -> NodeView {
        NodeView {
            nodename: self.nodename@,
            ip: self.ip@,
            nodestatus: self.nodestatus,
            nodetype: self.nodetype@,
            k8s_type: self.k8s_type,
        }
    }
}

impl Clone for Node {
    fn clone(&self) -> (r: Self)
        ensures
            r@ == self@,
    {
        Node {
            nodename: self.nodename.clone(),
            ip: self.ip.clone(),
            nodestatus: self.nodestatus,
            nodetype: self.nodetype.clone(),
            k8s_type: self.k8s_type,
        }
    }
}

impl Node {
    /// The empty node: no name, no address, everything unknown.
    pub fn empty() -> (r: Node)
        ensures
            r@ == empty_node_view(),
    {
        Node {
            nodename: String::new(),
            ip: String::new(),
            nodestatus: NodeStatus::Unknown,
            nodetype: NodeType::Unknown,
            k8s_type: K8sType::NoType,
        }
    }
}

/// The view of the empty node.
pub open spec fn empty_node_view() -> NodeView {
    NodeView {
        nodename: Seq::empty(),
        ip: Seq::empty(),
        nodestatus: NodeStatus::Unknown,
        nodetype: NodeTypeView::Unknown,
        k8s_type: K8sType::NoType,
    }
}

/// A link button of the panel's home page.
#[derive(Debug)]
pub struct Button {
    pub name: String,
    pub link: String,
    pub button_type: String,
}

pub struct ButtonView {
    pub name: Seq<char>,
    pub link: Seq<char>,
    pub button_type: Seq<char>,
}

impl View for Button {
    type V = ButtonView;

    open spec fn view(&self) -> ButtonView {
        ButtonView { name: self.name@, link: self.link@, button_type: self.button_type@ }
    }
}

impl Clone for Button {
    fn clone(&self) -> (r: Self)
        ensures
            r@ == self@,
    {
        Button {
            name: self.name.clone(),
            link: self.link.clone(),
            button_type: self.button_type.clone(),
        }
    }
}

/// One value of an integration's settings: a flag, or any other JSON value
/// held as its JSON text.
#[derive(Debug)]
pub enum SettingValue {
    Bool(bool),
    Other(String),
}

pub enum SettingValueView {
    Bool(bool),
    Other(Seq<char>),
}

impl View for SettingValue {
    type V = SettingValueView;

    open spec fn view(&self) -> SettingValueView {
        match self {
            SettingValue::Bool(b) => SettingValueView::Bool(*b),
            SettingValue::Other(s) => SettingValueView::Other(s@),
        }
    }
}

impl Clone for SettingValue {
    fn clone(&self) -> (r: Self)
        ensures
            r@ == self@,
    {
        match self {
            SettingValue::Bool(b) => SettingValue::Bool(*b),
            SettingValue::Other(s) => SettingValue::Other(s.clone()),
        }
    }
}

/// The settings of an integration: a JSON object, as its entries in the
/// order the object holds them, or some other JSON value as its text.
#[derive(Debug)]
pub enum IntergrationSettings {
    Object(Vec<(String, SettingValue)>),
    Other(String),
}

pub enum IntergrationSettingsView {
    Object(Seq<(Seq<char>, SettingValueView)>),
    Other(Seq<char>),
}

/// The views of the entries of a settings object.
pub open spec fn entries_view(v: Seq<(String, SettingValue)>) -> Seq<(Seq<char>, SettingValueView)> {
    v.map_values(|e: (String, SettingValue)| (e.0@, e.1@))
}

impl View for IntergrationSettings {
    type V = IntergrationSettingsView;

    open spec fn view(&self) -> IntergrationSettingsView {
        match self {
            IntergrationSettings::Object(v) => IntergrationSettingsView::Object(entries_view(v@)),
            IntergrationSettings::Other(s) => IntergrationSettingsView::Other(s@),
        }
    }
}

/// An integration with a game, its status and its settings.
#[derive(Debug)]
pub struct Intergration {
    pub status: String,
    pub kind: Intergrations,
    pub settings: IntergrationSettings,
}

pub struct IntergrationView {
    pub status: Seq<char>,
    pub kind: Intergrations,
    pub settings: IntergrationSettingsView,
}

impl View for Intergration {
    type V = IntergrationView;

    open spec fn view(&self) -> IntergrationView {
        IntergrationView { status: self.status@, kind: self.kind, settings: self.settings@ }
    }
}

impl Clone for IntergrationSettings {
    fn clone(&self) -> (r: Self)
        ensures
            r@ == self@,
    {
        match self {
            IntergrationSettings::Object(v) => {
                let mut out: Vec<(String, SettingValue)> = Vec::new();
                let mut i: usize = 0;
                while i < v.len()
                    invariant
                        i <= v@.len(),
                        entries_view(out@) == entries_view(v@.subrange(0, i as int)),
                    decreases v@.len() - i,
                {
                    let (k, x) = &v[i];
                    out.push((k.clone(), x.clone()));
                    assert(entries_view(v@.subrange(0, i + 1)) =~= entries_view(
                        v@.subrange(0, i as int),
                    ).push((v@[i as int].0@, v@[i as int].1@)));
                    i = i + 1;
                }
                assert(v@.subrange(0, v@.len() as int) =~= v@);
                IntergrationSettings::Object(out)
            },
            IntergrationSettings::Other(s) => IntergrationSettings::Other(s.clone()),
        }
    }
}

impl Clone for Intergration {
    fn clone(&self) -> (r: Self)
        ensures
            r@ == self@,
    {
        Intergration {
            status: self.status.clone(),
            kind: self.kind,
            settings: self.settings.clone(),
        }
    }
}

/// Start and stop keywords that mark a server's console output.
#[derive(Debug)]
pub struct ServerMetadata {
    pub start_keyword: Option<String>,
    pub stop_keyword: Option<String>,
}

pub struct ServerMetadataView {
    pub start_keyword: Option<Seq<char>>,
    pub stop_keyword: Option<Seq<char>>,
}

impl View for ServerMetadata {
    type V = ServerMetadataView;

    open spec fn view(&self) -> ServerMetadataView {
        ServerMetadataView {
            start_keyword: opt_view(self.start_keyword),
            stop_keyword: opt_view(self.stop_keyword),
        }
    }
}

impl Clone for ServerMetadata {
    fn clone(&self) -> (r: Self)
        ensures
            r@ == self@,
    {
        ServerMetadata {
            start_keyword: clone_opt(&self.start_keyword),
            stop_keyword: clone_opt(&self.stop_keyword),
        }
    }
}

impl ServerMetadata {
    /// Metadata without keywords.
    pub fn empty() -> (r: ServerMetadata)
        ensures
            r@ == (ServerMetadataView { start_keyword: None, stop_keyword: None }),
    {
        ServerMetadata { start_keyword: None, stop_keyword: None }
    }
}

/// A game server: its name, the provider that installs and starts it, where
/// it lives and on which node.
#[derive(Debug)]
pub struct Server {
    pub servername: String,
    pub provider: String,
    pub providertype: String,
    pub location: String,
    pub node: Node,
    pub sandbox: bool,
    pub server_metadata: ServerMetadata,
}

pub struct ServerView {
    pub servername: Seq<char>,
    pub provider: Seq<char>,
    pub providertype: Seq<char>,
    pub location: Seq<char>,
    pub node: NodeView,
    pub sandbox: bool,
    pub server_metadata: ServerMetadataView,
}

impl View for Server {
    type V = ServerView;

    open spec fn view(&self) -> ServerView {
        ServerView {
            servername: self.servername@,
            provider: self.provider@,
            providertype: self.providertype@,
            location: self.location@,
            node: self.node@,
            sandbox: self.sandbox,
            server_metadata: self.server_metadata@,
        }
    }
}

impl Clone for Server {
    fn clone(&self) -> (r: Self)
        ensures
            r@ == self@,
    {
        Server {
            servername: self.servername.clone(),
            provider: self.provider.clone(),
            providertype: self.providertype.clone(),
            location: self.location.clone(),
            node: self.node.clone(),
            sandbox: self.sandbox,
            server_metadata: self.server_metadata.clone(),
        }
    }
}

/// The view of the default (empty) server.
pub open spec fn empty_server_view() -> ServerView {
    ServerView {
        servername: Seq::empty(),
        provider: Seq::empty(),
        providertype: Seq::empty(),
        location: Seq::empty(),
        node: empty_node_view(),
        sandbox: false,
        server_metadata: ServerMetadataView { start_keyword: None, stop_keyword: None },
    }
}

impl Server {
    /// The default server: every text empty, no sandbox, the empty node.
    pub fn empty() -> (r: Server)
        ensures
            r@ == empty_server_view(),
    {
        Server {
            servername: String::new(),
            provider: String::new(),
            providertype: String::new(),
            location: String::new(),
            node: Node::empty(),
            sandbox: false,
            server_metadata: ServerMetadata::empty(),
        }
    }

    /// Whether this is the default server (every field as `Server::empty`
    /// gives it).
    pub fn is_empty_server(&self) -> (r: bool)
        ensures
            r == (self@ == empty_server_view()),
    {
        proof {
            if self.servername@.len() == 0 && self.provider@.len() == 0
                && self.providertype@.len() == 0 && self.location@.len() == 0
                && self.node.nodename@.len() == 0 && self.node.ip@.len() == 0 {
                assert(self.servername@ =~= Seq::<char>::empty());
                assert(self.provider@ =~= Seq::<char>::empty());
                assert(self.providertype@ =~= Seq::<char>::empty());
                assert(self.location@ =~= Seq::<char>::empty());
                assert(self.node.nodename@ =~= Seq::<char>::empty());
                assert(self.node.ip@ =~= Seq::<char>::empty());
            }
        }
        self.servername.as_str().unicode_len() == 0 && self.provider.as_str().unicode_len() == 0
            && self.providertype.as_str().unicode_len() == 0
            && self.location.as_str().unicode_len() == 0
            && self.node.nodename.as_str().unicode_len() == 0
            && self.node.ip.as_str().unicode_len() == 0
            && self.node.nodestatus == NodeStatus::Unknown
            && matches!(self.node.nodetype, NodeType::Unknown)
            && self.node.k8s_type == K8sType::NoType
            && !self.sandbox
            && self.server_metadata.start_keyword.is_none()
            && self.server_metadata.stop_keyword.is_none()
    }
}

/// Turns a stored server representation into a server.
pub trait IntoServer: Sized {
    fn into_server(self) -> Server;
}

impl IntoServer for Server {
    fn into_server(self) -> (r: Server)
        ensures
            r@ == self@,
    {
        self
    }
}

/// The panel's settings.
#[derive(Debug)]
pub struct Settings {
    pub toggled_default_buttons: bool,
    pub status_type: String,
    pub enabled_rcon: bool,
    pub rcon_url: String,
    pub rcon_password: String,
    pub filter: Filters,
    pub file_system_driver: FileSystemDrivers,
    pub enable_statistics_on_home_page: bool,
    pub enable_nodes_on_home_page: bool,
    pub console_entry_on_top: bool,
    pub force_sandbox: bool,
    pub disable_custom_servers: bool,
    pub current_server: Server,
}

pub struct SettingsView {
    pub toggled_default_buttons: bool,
    pub status_type: Seq<char>,
    pub enabled_rcon: bool,
    pub rcon_url: Seq<char>,
    pub rcon_password: Seq<char>,
    pub filter: Filters,
    pub file_system_driver: FileSystemDrivers,
    pub enable_statistics_on_home_page: bool,
    pub enable_nodes_on_home_page: bool,
    pub console_entry_on_top: bool,
    pub force_sandbox: bool,
    pub disable_custom_servers: bool,
    pub current_server: ServerView,
}

impl View for Settings {
    type V = SettingsView;

    open spec fn view(&self) -> SettingsView {
        SettingsView {
            toggled_default_buttons: self.toggled_default_buttons,
            status_type: self.status_type@,
            enabled_rcon: self.enabled_rcon,
            rcon_url: self.rcon_url@,
            rcon_password: self.rcon_password@,
            filter: self.filter,
            file_system_driver: self.file_system_driver,
            enable_statistics_on_home_page: self.enable_statistics_on_home_page,
            enable_nodes_on_home_page: self.enable_nodes_on_home_page,
            console_entry_on_top: self.console_entry_on_top,
            force_sandbox: self.force_sandbox,
            disable_custom_servers: self.disable_custom_servers,
            current_server: self.current_server@,
        }
    }
}

impl Clone for Settings {
    fn clone(&self) -> (r: Self)
        ensures
            r@ == self@,
    {
        Settings {
            toggled_default_buttons: self.toggled_default_buttons,
            status_type: self.status_type.clone(),
            enabled_rcon: self.enabled_rcon,
            rcon_url: self.rcon_url.clone(),
            rcon_password: self.rcon_password.clone(),
            filter: self.filter,
            file_system_driver: self.file_system_driver,
            enable_statistics_on_home_page: self.enable_statistics_on_home_page,
            enable_nodes_on_home_page: self.enable_nodes_on_home_page,
            console_entry_on_top: self.console_entry_on_top,
            force_sandbox: self.force_sandbox,
            disable_custom_servers: self.disable_custom_servers,
            current_server: self.current_server.clone(),
        }
    }
}

/// The settings a fresh panel starts with.
pub open spec fn default_settings_view() -> SettingsView {
    SettingsView {
        toggled_default_buttons: false,
        status_type: Seq::empty(),
        enabled_rcon: true,
        rcon_url: "localhost:25575"@,
        rcon_password: "testing"@,
        filter: Filters::NoFilter,
        file_system_driver: FileSystemDrivers::NoDriver,
        enable_statistics_on_home_page: false,
        enable_nodes_on_home_page: false,
        console_entry_on_top: true,
        force_sandbox: false,
        disable_custom_servers: false,
        current_server: empty_server_view(),
    }
}

impl Settings {
    /// The settings a fresh panel starts with: RCON on at
    /// `localhost:25575` with password `testing`, no filter, no file system
    /// driver, console entry on top, every other flag off and no current
    /// server.
    pub fn default_settings() -> (r: Settings)
        ensures
            r@ == default_settings_view(),
    {
        Settings {
            toggled_default_buttons: false,
            status_type: String::new(),
            enabled_rcon: true,
            rcon_url: owned("localhost:25575"),
            rcon_password: owned("testing"),
            filter: Filters::NoFilter,
            enable_statistics_on_home_page: false,
            enable_nodes_on_home_page: false,
            console_entry_on_top: true,
            force_sandbox: false,
            disable_custom_servers: false,
            file_system_driver: FileSystemDrivers::NoDriver,
            current_server: Server::empty(),
        }
    }
}

/// A node as a Kubernetes cluster reports it.
pub struct K8sNode {
    pub name: String,
    pub ip: String,
    pub gameserver: String,
    pub k8s_type: K8sType,
}

/// A request naming one element to look up.
pub struct RetrieveElement {
    pub element: String,
}

/// An element that a request creates, edits or removes.
#[derive(Debug)]
pub enum Element {
    User { password: String, user: String, user_perms: Vec<UserPerm> },
    Node(Node),
    Button(Button),
    Server(Server),
    Intergration(Intergration),
    String(String),
}

pub enum ElementView {
    User { password: Seq<char>, user: Seq<char>, user_perms: Seq<UserPermView> },
    Node(NodeView),
    Button(ButtonView),
    Server(ServerView),
    Intergration(IntergrationView),
    String(Seq<char>),
}

impl View for Element {
    type V = ElementView;

    open spec fn view(&self) -> ElementView {
        match self {
            Element::User { password, user, user_perms } => ElementView::User {
                password: password@,
                user: user@,
                user_perms: perms_view(user_perms@),
            },
            Element::Node(n) => ElementView::Node(n@),
            Element::Button(b) => ElementView::Button(b@),
            Element::Server(s) => ElementView::Server(s@),
            Element::Intergration(i) => ElementView::Intergration(i@),
            Element::String(s) => ElementView::String(s@),
        }
    }
}

/// A request to change an element of the store.
#[derive(Debug)]
pub struct ModifyElementData {
    pub element: Element,
    pub jwt: String,
    pub require_auth: bool,
}

} // verus!
