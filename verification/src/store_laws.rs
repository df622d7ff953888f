//! Laws of the store: what a read gives back after a write, what a refused
//! request leaves behind, and which operations undo each other.
use vstd::prelude::*;
use crate::databasespec::{UserView, UserPermView, ServerView, NodeView, ElementView};
use crate::keyed::{
    has_key, lookup, first_key_at, lemma_lookup_push, lemma_drop_keyed_push,
    lemma_drop_keyed_removes, lemma_key_index_none, lemma_key_index_at, lemma_has_key_found,
};
use crate::store::{
    ContentView, user_key, server_key, node_key, create_user_outcome, remove_user_outcome,
    edit_user_outcome, create_server_outcome, remove_server_outcome, create_node_outcome,
    remove_node_outcome, toggle_buttons_outcome, reset_buttons_outcome, retrieve_user_outcome,
    default_buttons_view, hash_fits,
};
use crate::status::DatabaseError;
use crate::credentials::sign_in_outcome;

verus! {

/// A user created under a fresh name with a non-empty password is what
/// looking that name up gives afterwards (with the new hash), and every other
/// name finds what it found before.
pub proof fn lemma_created_user_is_found(
    c: ContentView,
    password: Seq<char>,
    user: Seq<char>,
    user_perms: Seq<UserPermView>,
    h: Seq<char>,
    other: Seq<char>,
)
    requires
        password.len() > 0,
        !has_key(c.users, user_key(), user),
    ensures
        ({
            let (after, r) = create_user_outcome(
                c,
                ElementView::User { password, user, user_perms },
                Some(h),
            );
            &&& r == Ok::<u16, DatabaseError>(201)
            &&& lookup(after.users, user_key(), user) == Some(
                UserView { username: user, password_hash: Some(h), user_perms },
            )
            &&& other != user ==> lookup(after.users, user_key(), other) == lookup(
                c.users,
                user_key(),
                other,
            )
            &&& after.nodes == c.nodes && after.servers == c.servers && after.settings
                == c.settings
        }),
{
    let x = UserView { username: user, password_hash: Some(h), user_perms };
    lemma_lookup_push(c.users, user_key(), x, user);
    lemma_lookup_push(c.users, user_key(), x, other);
}

/// Creating a user under a name that is taken is refused with 500 and
/// leaves the store as it was.
pub proof fn lemma_duplicate_user_refused(
    c: ContentView,
    password: Seq<char>,
    user: Seq<char>,
    user_perms: Seq<UserPermView>,
    h: Option<Seq<char>>,
)
    requires
        has_key(c.users, user_key(), user),
    ensures
        create_user_outcome(c, ElementView::User { password, user, user_perms }, h) == (
            c,
            Err::<u16, DatabaseError>(DatabaseError::StatusCode(500)),
        ),
{
}

/// Removing a user that was just created gives back the store as it was
/// before the creation.
pub proof fn lemma_remove_undoes_create_user(
    c: ContentView,
    password: Seq<char>,
    user: Seq<char>,
    user_perms: Seq<UserPermView>,
    h: Seq<char>,
    remove_password: Seq<char>,
    remove_perms: Seq<UserPermView>,
)
    requires
        password.len() > 0,
        !has_key(c.users, user_key(), user),
    ensures
        ({
            let (after, _) = create_user_outcome(
                c,
                ElementView::User { password, user, user_perms },
                Some(h),
            );
            remove_user_outcome(
                after,
                ElementView::User { password: remove_password, user, user_perms: remove_perms },
            ) == (c, Ok::<u16, DatabaseError>(201))
        }),
{
    let x = UserView { username: user, password_hash: Some(h), user_perms };
    lemma_drop_keyed_push(c.users, user_key(), x);
}

/// After a user is removed, looking its name up finds nothing.
pub proof fn lemma_removed_user_is_gone(
    c: ContentView,
    password: Seq<char>,
    user: Seq<char>,
    user_perms: Seq<UserPermView>,
)
    ensures
        ({
            let (after, r) = remove_user_outcome(
                c,
                ElementView::User { password, user, user_perms },
            );
            r == Ok::<u16, DatabaseError>(201) && lookup(after.users, user_key(), user)
                == None::<UserView>
        }),
{
    crate::keyed::lemma_drop_keyed_removes(c.users, user_key(), user);
    let (after, _) = remove_user_outcome(c, ElementView::User { password, user, user_perms });
    lemma_key_index_none(after.users, user_key(), user);
}

/// A user created with a password can sign in with that same password (when
/// the admin account does not shadow its name): the sign-in gives the user
/// back without its hash.
pub proof fn lemma_created_user_can_sign_in(
    c: ContentView,
    password: Seq<char>,
    user: Seq<char>,
    user_perms: Seq<UserPermView>,
    h: Seq<char>,
    admin_enabled: bool,
    admin_user: Seq<char>,
    admin_hash: Option<Seq<char>>,
)
    requires
        password.len() > 0,
        !has_key(c.users, user_key(), user),
        hash_fits(password, Some(h)),
        !(user == admin_user && admin_enabled),
    ensures
        ({
            let (after, _) = create_user_outcome(
                c,
                ElementView::User { password, user, user_perms },
                Some(h),
            );
            sign_in_outcome(
                retrieve_user_outcome(after, user, admin_enabled, admin_user, admin_hash),
                password,
            ) == Ok::<UserView, u16>(
                UserView { username: user, password_hash: None, user_perms },
            )
        }),
{
    let x = UserView { username: user, password_hash: Some(h), user_perms };
    lemma_lookup_push(c.users, user_key(), x, user);
}

/// Editing a user changes what its own name finds and nothing else.
pub proof fn lemma_edit_user_touches_only_that_user(
    c: ContentView,
    e: ElementView,
    h: Option<Seq<char>>,
    other: Seq<char>,
)
    requires
        e is User,
        other != e->user,
    ensures
        lookup(edit_user_outcome(c, e, h).0.users, user_key(), other) == lookup(
            c.users,
            user_key(),
            other,
        ),
{
    let user = e->user;
    let (after, _) = edit_user_outcome(c, e, h);
    if has_key(c.users, user_key(), user) {
        lemma_has_key_found(c.users, user_key(), user);
        let i = choose|i: int| first_key_at(c.users, user_key(), user, i);
        lemma_key_index_at(c.users, user_key(), user, i);
        assert(after.users.len() == c.users.len());
        assert forall|j: int| 0 <= j < c.users.len() implies (after.users[j].username
            == c.users[j].username) by {}
        if has_key(c.users, user_key(), other) {
            lemma_has_key_found(c.users, user_key(), other);
            let k = choose|k: int| first_key_at(c.users, user_key(), other, k);
            lemma_key_index_at(c.users, user_key(), other, k);
            assert(k != i);
            assert(first_key_at(after.users, user_key(), other, k));
            lemma_key_index_at(after.users, user_key(), other, k);
        } else {
            assert(!has_key(after.users, user_key(), other)) by {
                if has_key(after.users, user_key(), other) {
                    let m = choose|m: int|
                        0 <= m < after.users.len() && after.users[m].username == other;
                    assert(c.users[m].username == other);
                }
            }
            lemma_key_index_none(c.users, user_key(), other);
            lemma_key_index_none(after.users, user_key(), other);
        }
    } else {
        lemma_key_index_none(c.users, user_key(), user);
    }
}

/// A server created under a fresh, non-empty name is what its name finds
/// afterwards; removing it again gives back the store as it was.
pub proof fn lemma_created_server_is_found_and_removable(c: ContentView, s: ServerView)
    requires
        s.servername.len() > 0,
        !has_key(c.servers, server_key(), s.servername),
    ensures
        ({
            let (after, r) = create_server_outcome(c, ElementView::Server(s));
            &&& r == Ok::<u16, DatabaseError>(201)
            &&& lookup(after.servers, server_key(), s.servername) == Some(s)
            &&& remove_server_outcome(after, ElementView::Server(s)) == (
                c,
                Ok::<u16, DatabaseError>(201),
            )
        }),
{
    lemma_lookup_push(c.servers, server_key(), s, s.servername);
    lemma_drop_keyed_push(c.servers, server_key(), s);
}

/// A server without a name, or under a name that is taken, is refused with
/// 500 and the store stays as it was.
pub proof fn lemma_server_without_fresh_name_refused(c: ContentView, s: ServerView)
    requires
        s.servername.len() == 0 || has_key(c.servers, server_key(), s.servername),
    ensures
        create_server_outcome(c, ElementView::Server(s)) == (
            c,
            Err::<u16, DatabaseError>(DatabaseError::StatusCode(500)),
        ),
{
}

/// A node created under a fresh name (with an address if it is custom) is
/// what its name finds afterwards; removing it again gives back the store as
/// it was.
pub proof fn lemma_created_node_is_found_and_removable(c: ContentView, n: NodeView)
    requires
        !has_key(c.nodes, node_key(), n.nodename),
        !(n.nodetype is Custom && n.ip.len() == 0),
    ensures
        ({
            let (after, r) = create_node_outcome(c, ElementView::Node(n));
            &&& r == Ok::<u16, DatabaseError>(201)
            &&& lookup(after.nodes, node_key(), n.nodename) == Some(n)
            &&& remove_node_outcome(after, n) == (c, Ok::<u16, DatabaseError>(201))
        }),
{
    lemma_lookup_push(c.nodes, node_key(), n, n.nodename);
    lemma_drop_keyed_push(c.nodes, node_key(), n);
    let (after, _) = create_node_outcome(c, ElementView::Node(n));
    assert(after.nodes[c.nodes.len() as int] == n);
}

/// Switching the buttons twice, starting from the custom buttons, shows the
/// same buttons as before and restores the flag; the kept set is then the
/// defaults.
pub proof fn lemma_toggle_twice_restores_buttons(c: ContentView)
    requires
        !c.settings.toggled_default_buttons,
    ensures
        toggle_buttons_outcome(toggle_buttons_outcome(c)).buttons == c.buttons,
        toggle_buttons_outcome(toggle_buttons_outcome(c)).toggled_buttons
            == default_buttons_view(),
        toggle_buttons_outcome(toggle_buttons_outcome(c)).settings == c.settings,
        toggle_buttons_outcome(toggle_buttons_outcome(c)).users == c.users,
{
}

/// Switching the buttons always flips the flag and shows the defaults when
/// it turns them on.
pub proof fn lemma_toggle_on_shows_defaults(c: ContentView)
    requires
        !c.settings.toggled_default_buttons,
    ensures
        toggle_buttons_outcome(c).buttons == default_buttons_view(),
        toggle_buttons_outcome(c).settings.toggled_default_buttons,
{
}

/// Restoring the buttons twice is the same as restoring them once.
pub proof fn lemma_reset_buttons_idempotent(c: ContentView)
    ensures
        reset_buttons_outcome(reset_buttons_outcome(c)) == reset_buttons_outcome(c),
{
}

} // verus!
