//! Laws of the panel beyond the store: integrations, settings changes, the
//! node listing and the gathering of stream values.
use vstd::prelude::*;
use crate::control::{perms_grant, authorized};
use crate::databasespec::{UserPermView, FileSystemDrivers};
use crate::handlers::{apply_change, server_target};
use crate::store::create_server_outcome;
use crate::transport::MetadataView;
use crate::databasespec::{
    IntergrationView,
    IntergrationSettingsView,
    SettingValueView,
    SettingsView,
    Filters,
    ElementView,
};
use crate::keyed::{has_key, lookup, lemma_lookup_push, lemma_drop_keyed_push};
use crate::integrations::{
    kind_tag,
    intergration_key,
    create_intergration_outcome,
    remove_intergration_outcome,
    hooks_to_send,
    hook_sends,
    settings_get,
};
use crate::handlers::{
    SettingsChangeView,
    apply_changes,
    NodeEntryView,
    has_entry_named,
    merge_entries,
    listed_entries,
    stored_entry,
    add_server_outcome,
    delete_node_outcome,
};
use crate::databasespec::{ServerView, NodeView, K8sType};
use crate::store::{ContentView, server_key, node_key};
use crate::session::dedup;
use crate::status::DatabaseError;

verus! {

/// An integration of a kind not stored yet is created (201), and looking
/// its kind up then finds it.
pub proof fn lemma_created_intergration_is_found(s: Seq<IntergrationView>, i: IntergrationView)
    requires
        !has_key(s, intergration_key(), kind_tag(i.kind)),
    ensures
        ({
            let (after, r) = create_intergration_outcome(s, ElementView::Intergration(i));
            &&& r == Ok::<u16, DatabaseError>(201)
            &&& lookup(after, intergration_key(), kind_tag(i.kind)) == Some(i)
        }),
{
    lemma_lookup_push(s, intergration_key(), i, kind_tag(i.kind));
}

/// A second integration of a stored kind is refused with a conflict and
/// changes nothing.
pub proof fn lemma_second_intergration_conflicts(s: Seq<IntergrationView>, i: IntergrationView)
    requires
        has_key(s, intergration_key(), kind_tag(i.kind)),
    ensures
        create_intergration_outcome(s, ElementView::Intergration(i)) == (
            s,
            Err::<u16, DatabaseError>(DatabaseError::StatusCode(409)),
        ),
{
}

/// Removing an integration that was just created gives back the
/// integrations as they were.
pub proof fn lemma_remove_undoes_create_intergration(s: Seq<IntergrationView>, i: IntergrationView)
    requires
        !has_key(s, intergration_key(), kind_tag(i.kind)),
    ensures
        ({
            let (after, _) = create_intergration_outcome(s, ElementView::Intergration(i));
            remove_intergration_outcome(after, ElementView::Intergration(i)) == (
                s,
                Ok::<u16, DatabaseError>(201),
            )
        }),
{
    lemma_drop_keyed_push(s, intergration_key(), i);
    assert(has_key(s.push(i), intergration_key(), kind_tag(i.kind))) by {
        assert(s.push(i)[s.len() as int] == i);
    }
}

/// Settings changes that do not name the filter leave it as it was; a
/// change of the filter made last decides it.
pub proof fn lemma_filter_changes(s: SettingsView, cs: Seq<SettingsChangeView>, f: Filters)
    ensures
        (forall|k: int| 0 <= k < cs.len() ==> !(cs[k] is Filter)) ==> apply_changes(s, cs).filter
            == s.filter,
        apply_changes(s, cs.push(SettingsChangeView::Filter(f))).filter == f,
    decreases cs.len(),
{
    assert(cs.push(SettingsChangeView::Filter(f)).drop_last() =~= cs);
    if cs.len() > 0 {
        lemma_filter_changes(s, cs.drop_last(), f);
        if forall|k: int| 0 <= k < cs.len() ==> !(cs[k] is Filter) {
            assert forall|k: int| 0 <= k < cs.drop_last().len() implies !(cs.drop_last()[k] is Filter) by {
                assert(cs.drop_last()[k] == cs[k]);
            }
            assert(!(cs.last() is Filter));
        }
    }
}

proof fn lemma_merge_keeps_names(l: Seq<NodeEntryView>, extra: Seq<NodeEntryView>, name: Seq<char>)
    ensures
        has_entry_named(l, name) ==> has_entry_named(merge_entries(l, extra), name),
        (exists|i: int| 0 <= i < extra.len() && extra[i].name == name) ==> has_entry_named(
            merge_entries(l, extra),
            name,
        ),
        merge_entries(l, extra).subrange(0, l.len() as int) == l,
        l.len() <= merge_entries(l, extra).len(),
    decreases extra.len(),
{
    if extra.len() > 0 {
        let m = merge_entries(l, extra.drop_last());
        lemma_merge_keeps_names(l, extra.drop_last(), name);
        lemma_merge_keeps_names(l, extra.drop_last(), extra.last().name);
        if has_entry_named(m, name) {
            let w = choose|w: int| 0 <= w < m.len() && m[w].name == name;
            assert(m.push(extra.last())[w] == m[w]);
        }
        if exists|i: int| 0 <= i < extra.len() && extra[i].name == name {
            let i = choose|i: int| 0 <= i < extra.len() && extra[i].name == name;
            if i < extra.len() - 1 {
                assert(extra.drop_last()[i] == extra[i]);
            } else {
                assert(m.push(extra.last())[m.len() as int] == extra.last());
            }
        }
        assert(m.push(extra.last()).subrange(0, l.len() as int) =~= m.subrange(0, l.len() as int));
    } else {
        assert(l.subrange(0, l.len() as int) =~= l);
    }
}

/// Whether no two entries of `l` have the same name.
pub open spec fn names_distinct(l: Seq<NodeEntryView>) -> bool {
    forall|i: int, j: int| 0 <= i < j < l.len() ==> #[trigger] l[i].name != #[trigger] l[j].name
}

/// Merging entries into a list keeps every name the list or the added
/// entries have, keeps the list in front, and never gives two entries the
/// same name unless the list had them already.
pub proof fn lemma_merge_entries(l: Seq<NodeEntryView>, extra: Seq<NodeEntryView>)
    ensures
        forall|i: int|
            0 <= i < l.len() ==> has_entry_named(merge_entries(l, extra), #[trigger] l[i].name),
        forall|i: int|
            0 <= i < extra.len() ==> has_entry_named(
                merge_entries(l, extra),
                #[trigger] extra[i].name,
            ),
        merge_entries(l, extra).subrange(0, l.len() as int) == l,
        names_distinct(l) ==> names_distinct(merge_entries(l, extra)),
    decreases extra.len(),
{
    assert forall|i: int| 0 <= i < l.len() implies has_entry_named(
        merge_entries(l, extra),
        #[trigger] l[i].name,
    ) by {
        lemma_merge_keeps_names(l, extra, l[i].name);
    }
    assert forall|i: int| 0 <= i < extra.len() implies has_entry_named(
        merge_entries(l, extra),
        #[trigger] extra[i].name,
    ) by {
        lemma_merge_keeps_names(l, extra, extra[i].name);
    }
    lemma_merge_keeps_names(l, extra, Seq::empty());
    if extra.len() > 0 {
        lemma_merge_entries(l, extra.drop_last());
        let m = merge_entries(l, extra.drop_last());
        if names_distinct(l) && !has_entry_named(m, extra.last().name) {
            let n = m.push(extra.last());
            assert forall|i: int, j: int| 0 <= i < j < n.len() implies #[trigger] n[i].name
                != #[trigger] n[j].name by {
                if j == m.len() {
                    assert(n[i] == m[i]);
                } else {
                    assert(n[i] == m[i] && n[j] == m[j]);
                }
            }
        }
    }
}

/// No element of `dedup(s)` occurs twice, and it holds exactly the
/// elements of `s`.
pub proof fn lemma_dedup<A>(s: Seq<A>)
    ensures
        forall|i: int, j: int|
            0 <= i < j < dedup(s).len() ==> #[trigger] dedup(s)[i] != #[trigger] dedup(s)[j],
        forall|x: A| dedup(s).contains(x) <==> s.contains(x),
    decreases s.len(),
{
    if s.len() > 0 {
        lemma_dedup(s.drop_last());
        let d = dedup(s.drop_last());
        assert forall|x: A| dedup(s).contains(x) <==> s.contains(x) by {
            assert(d.contains(x) <==> s.drop_last().contains(x));
            if s.contains(x) {
                let k = choose|k: int| 0 <= k < s.len() && s[k] == x;
                if k < s.len() - 1 {
                    assert(s.drop_last()[k] == x);
                }
            }
            if s.drop_last().contains(x) {
                let k = choose|k: int| 0 <= k < s.drop_last().len() && s.drop_last()[k] == x;
                assert(s[k] == x);
            }
            assert(s[s.len() - 1] == s.last());
            if !d.contains(s.last()) {
                let n = d.push(s.last());
                assert(n[d.len() as int] == s.last());
                if n.contains(x) {
                    let k = choose|k: int| 0 <= k < n.len() && n[k] == x;
                    if k < d.len() {
                        assert(d[k] == x);
                    }
                }
                if d.contains(x) {
                    let k = choose|k: int| 0 <= k < d.len() && d[k] == x;
                    assert(n[k] == x);
                }
            }
        }
        if !d.contains(s.last()) {
            let n = d.push(s.last());
            assert forall|i: int, j: int| 0 <= i < j < n.len() implies #[trigger] n[i]
                != #[trigger] n[j] by {
                if j == d.len() {
                    assert(n[i] == d[i]);
                } else {
                    assert(n[i] == d[i] && n[j] == d[j]);
                }
            }
        }
    }
}

proof fn lemma_no_sends_without_switch_on(
    stored: Seq<(Seq<char>, SettingValueView)>,
    requested: IntergrationSettingsView,
    n: int,
)
    requires
        forall|k: Seq<char>| settings_get(requested, k) != Some(SettingValueView::Bool(true)),
    ensures
        hook_sends(stored, requested, n) == Seq::<SettingValueView>::empty(),
    decreases n,
{
    if n > 0 && n <= stored.len() {
        lemma_no_sends_without_switch_on(stored, requested, n - 1);
        assert(settings_get(requested, stored[n - 1].0) != Some(SettingValueView::Bool(true)));
    }
}

/// A change of an integration's settings that turns no flag on sends no
/// hook to the node.
pub proof fn lemma_no_hooks_without_switch_on(
    stored: IntergrationSettingsView,
    requested: IntergrationSettingsView,
)
    requires
        forall|k: Seq<char>| settings_get(requested, k) != Some(SettingValueView::Bool(true)),
    ensures
        hooks_to_send(stored, requested) == Seq::<SettingValueView>::empty(),
{
    match stored {
        IntergrationSettingsView::Object(entries) => {
            lemma_no_sends_without_switch_on(entries, requested, entries.len() as int);
        },
        IntergrationSettingsView::Other(_) => {},
    }
}

/// Where the panel has a cluster client, the node listing shows every stored
/// node by name, after the cluster's nodes, and lists no name twice when the
/// cluster lists none twice.
pub proof fn lemma_listing_shows_stored_nodes(cluster: Seq<NodeEntryView>, stored: Seq<NodeView>)
    ensures
        forall|i: int|
            0 <= i < stored.len() ==> has_entry_named(
                listed_entries(cluster, stored),
                #[trigger] stored[i].nodename,
            ),
        listed_entries(cluster, stored).subrange(0, cluster.len() as int) == cluster,
        names_distinct(cluster) ==> names_distinct(listed_entries(cluster, stored)),
{
    let extra = stored.map_values(|n: NodeView| stored_entry(n));
    lemma_merge_entries(cluster, extra);
    assert forall|i: int| 0 <= i < stored.len() implies has_entry_named(
        listed_entries(cluster, stored),
        #[trigger] stored[i].nodename,
    ) by {
        assert(extra[i].name == stored[i].nodename);
    }
}

/// A server that adding accepts becomes the current server and is what
/// looking its name up finds afterwards.
pub proof fn lemma_added_server_is_found(
    db: ContentView,
    current: Option<ServerView>,
    s: ServerView,
)
    requires
        add_server_outcome(db, current, true, ElementView::Server(s)).2 is Ok,
    ensures
        ({
            let (after, now, _) = add_server_outcome(db, current, true, ElementView::Server(s));
            &&& now == Some(s)
            &&& lookup(after.servers, server_key(), s.servername) == Some(s)
        }),
{
    lemma_lookup_push(db.servers, server_key(), s, s.servername);
}

/// A node that Kubernetes manages (neither of no nor of unknown Kubernetes
/// type) is never deleted: the request is answered as unavailable and the
/// store is kept.
pub proof fn lemma_managed_node_kept(db: ContentView, e: ElementView, n: NodeView)
    requires
        e matches ElementView::Node(r) && lookup(db.nodes, node_key(), r.nodename) == Some(n),
        n.k8s_type != K8sType::NoType,
        n.k8s_type != K8sType::Unknown,
    ensures
        delete_node_outcome(db, true, e) == (db, Err::<u16, u16>(503)),
{
}

/// A permission list grants a request whenever any one of its permissions,
/// at any position, is `admin` or one of the required ones; a list with no
/// such permission grants nothing. A signed-in user holding such a
/// permission is authorised, whatever the bearer token is.
pub proof fn lemma_any_permission_grants(
    p: Seq<UserPermView>,
    q: Seq<UserPermView>,
    x: UserPermView,
    required: Seq<Seq<char>>,
    bearer: Option<Seq<char>>,
    header_token: Seq<char>,
)
    requires
        x.perm == "admin"@ || required.contains(x.perm),
    ensures
        perms_grant(p + seq![x] + q, required),
        authorized(Some(p + seq![x] + q), bearer, header_token, required),
        (forall|i: int| 0 <= i < p.len() ==> !(p[i].perm == "admin"@ || required.contains(#[trigger] p[i].perm)))
            ==> !perms_grant(p, required),
{
    let l = p + seq![x] + q;
    assert(l[p.len() as int] == x);
    if perms_grant(p, required)
        && (forall|i: int| 0 <= i < p.len() ==> !(p[i].perm == "admin"@ || required.contains(#[trigger] p[i].perm))) {
        let j = choose|j: int|
            0 <= j < p.len() && (p[j].perm == "admin"@ || required.contains(p[j].perm));
        assert(!(p[j].perm == "admin"@ || required.contains(p[j].perm)));
    }
}

/// A settings change sets the field it names to the value it carries and
/// leaves every other field as it was.
pub proof fn lemma_settings_change_sets_one_field(
    s: SettingsView,
    b: bool,
    t: Seq<char>,
    f: Filters,
    d: FileSystemDrivers,
    v: ServerView,
)
    ensures
        apply_change(s, SettingsChangeView::ToggledDefaultButtons(b)).toggled_default_buttons == b,
        (SettingsView { toggled_default_buttons: s.toggled_default_buttons, ..apply_change(s, SettingsChangeView::ToggledDefaultButtons(b)) } == s),
        apply_change(s, SettingsChangeView::StatusType(t)).status_type == t,
        (SettingsView { status_type: s.status_type, ..apply_change(s, SettingsChangeView::StatusType(t)) } == s),
        apply_change(s, SettingsChangeView::EnabledRcon(b)).enabled_rcon == b,
        (SettingsView { enabled_rcon: s.enabled_rcon, ..apply_change(s, SettingsChangeView::EnabledRcon(b)) } == s),
        apply_change(s, SettingsChangeView::RconUrl(t)).rcon_url == t,
        (SettingsView { rcon_url: s.rcon_url, ..apply_change(s, SettingsChangeView::RconUrl(t)) } == s),
        apply_change(s, SettingsChangeView::RconPassword(t)).rcon_password == t,
        (SettingsView { rcon_password: s.rcon_password, ..apply_change(s, SettingsChangeView::RconPassword(t)) } == s),
        apply_change(s, SettingsChangeView::Filter(f)).filter == f,
        (SettingsView { filter: s.filter, ..apply_change(s, SettingsChangeView::Filter(f)) } == s),
        apply_change(s, SettingsChangeView::FileSystemDriver(d)).file_system_driver == d,
        (SettingsView { file_system_driver: s.file_system_driver, ..apply_change(s, SettingsChangeView::FileSystemDriver(d)) } == s),
        apply_change(s, SettingsChangeView::EnableStatisticsOnHomePage(b)).enable_statistics_on_home_page == b,
        (SettingsView { enable_statistics_on_home_page: s.enable_statistics_on_home_page, ..apply_change(s, SettingsChangeView::EnableStatisticsOnHomePage(b)) } == s),
        apply_change(s, SettingsChangeView::EnableNodesOnHomePage(b)).enable_nodes_on_home_page == b,
        (SettingsView { enable_nodes_on_home_page: s.enable_nodes_on_home_page, ..apply_change(s, SettingsChangeView::EnableNodesOnHomePage(b)) } == s),
        apply_change(s, SettingsChangeView::ConsoleEntryOnTop(b)).console_entry_on_top == b,
        (SettingsView { console_entry_on_top: s.console_entry_on_top, ..apply_change(s, SettingsChangeView::ConsoleEntryOnTop(b)) } == s),
        apply_change(s, SettingsChangeView::ForceSandbox(b)).force_sandbox == b,
        (SettingsView { force_sandbox: s.force_sandbox, ..apply_change(s, SettingsChangeView::ForceSandbox(b)) } == s),
        apply_change(s, SettingsChangeView::DisableCustomServers(b)).disable_custom_servers == b,
        (SettingsView { disable_custom_servers: s.disable_custom_servers, ..apply_change(s, SettingsChangeView::DisableCustomServers(b)) } == s),
        apply_change(s, SettingsChangeView::CurrentServer(v)).current_server == v,
        (SettingsView { current_server: s.current_server, ..apply_change(s, SettingsChangeView::CurrentServer(v)) } == s),
{
}

/// A server that adding accepts is described to the node by its own name,
/// provider, type, location and keywords, and as sandboxed exactly when the
/// settings force the sandbox or the server asks for it.
pub proof fn lemma_added_server_sandbox(db: ContentView, current: Option<ServerView>, s: ServerView)
    requires
        !(db.settings.disable_custom_servers && s.provider == "custom"@),
        !has_key(db.servers, server_key(), s.servername),
        create_server_outcome(db, ElementView::Server(s)).1 is Ok,
    ensures
        (add_server_outcome(db, current, true, ElementView::Server(s)).2 == Ok::<
            (u16, Option<MetadataView>),
            u16,
        >(
            (
                200u16,
                Some(
                    MetadataView::Server {
                        servername: s.servername,
                        provider: s.provider,
                        providertype: s.providertype,
                        location: s.location,
                        sandbox: db.settings.force_sandbox || s.sandbox,
                        server_metadata: s.server_metadata,
                    },
                ),
            ),
        )),
        s.sandbox ==> (add_server_outcome(db, current, true, ElementView::Server(s)).2 matches Ok(
            (_, Some(MetadataView::Server { sandbox, .. })),
        ) && sandbox),
{
}

/// Looking a server up by a non-empty name answers the stored server of
/// that name, whatever the current server is; only an empty name stands for
/// the current server.
pub proof fn lemma_named_lookup_ignores_current(
    servers: Seq<ServerView>,
    current: Option<ServerView>,
    requested: Seq<char>,
)
    ensures
        requested.len() > 0 ==> lookup(servers, server_key(), server_target(current, requested))
            == lookup(servers, server_key(), requested),
        requested.len() == 0 ==> server_target(current, requested) == match current {
            Some(c) => c.servername,
            None => requested,
        },
{
}

} // verus!
