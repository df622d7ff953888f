//! Decisions of the control panel that do not touch the store:
//! authorisation, the site's base path, status reporting and the small
//! parsing steps of its requests.
use vstd::prelude::*;
use crate::databasespec::{UserPerm, UserPermView, perms_view, K8sType, User, UserView, clone_perms};
use crate::text::{str_eq, starts_with, has_prefix, trim, trim_str, owned};

verus! {

/// The health of a node or server as the panel reports it.
#[derive(Debug, Clone, Copy, PartialEq, Eq, Structural)]
pub enum Status {
    Unknown,
    Up,
    Healthy,
    Down,
    Unhealthy,
}

impl Status {
    /// The status assumed before anything is known: down.
    pub fn default_status() -> (r: Status)
        ensures
            r == Status::Down,
    {
        Status::Down
    }
}

/// How the stream to a node ended, or that it goes on.
#[derive(Debug)]
pub enum StreamResult {
    Done,
    Reconnect(String, String),
}

/// A message from the browser or a node: its text, its type and an
/// authentication code.
#[derive(Debug)]
pub struct IncomingMessage {
    pub message: String,
    pub message_type: String,
    pub authcode: String,
}

/// A password sent to authenticate with a node.
#[derive(Debug)]
pub struct AuthTcpMessage {
    pub password: String,
}

/// A message with an authentication code and nothing else.
#[derive(Debug)]
pub struct SimpleMesagePayload {
    pub message: String,
    pub authcode: String,
}

/// A line of console output, as a node sends it.
#[derive(Debug)]
pub struct ConsoleData {
    pub authcode: String,
    pub data: String,
    pub kind: String,
}

/// Console output nested in the data field of another message.
#[derive(Debug)]
pub struct InnerData {
    pub data: String,
    pub message_type: String,
}

/// A bare log line.
#[derive(Debug)]
pub struct LogLine {
    pub data: String,
}

/// The answer to a successful sign-in.
#[derive(Debug)]
pub struct SignInResponse {
    pub username: String,
}

/// The claims of a session token.
#[derive(Debug)]
pub struct Claims {
    pub exp: usize,
    pub iat: usize,
    pub user: String,
    pub user_perms: Vec<UserPerm>,
}

/// A sign-in form.
#[derive(Debug)]
pub struct LoginData {
    pub user: String,
    pub password: String,
}

/// The name of a status as the status stream sends it.
pub open spec fn status_name(s: Status) -> Seq<char> {
    match s {
        Status::Up => "up"@,
        Status::Healthy => "healthy"@,
        Status::Down => "down"@,
        Status::Unhealthy => "unhealthy"@,
        Status::Unknown => "unknown"@,
    }
}

/// The name of a status as the status stream sends it.
pub fn status_str(s: Status) -> (r: String)
    ensures
        r@ == status_name(s),
{
    match s {
        Status::Up => owned("up"),
        Status::Healthy => owned("healthy"),
        Status::Down => owned("down"),
        Status::Unhealthy => owned("unhealthy"),
        Status::Unknown => owned("unknown"),
    }
}

/// Which status the status stream reports for the configured status type,
/// and whether the server must be polled first: the server's own status for
/// none or `server-keyword` (and, polling, for `server-process`), the
/// connection's for `node`, unknown otherwise.
pub fn status_for_type(status_type: &str, server_status: Status, connection_status: Status) -> (r: (
    Status,
    bool,
))
    ensures
        r == (if status_type@.len() == 0 || status_type@ == "server-keyword"@ {
            (server_status, false)
        } else if status_type@ == "server-process"@ {
            (server_status, true)
        } else if status_type@ == "node"@ {
            (connection_status, false)
        } else {
            (Status::Unknown, false)
        }),
{
    if status_type.unicode_len() == 0 || str_eq(status_type, "server-keyword") {
        (server_status, false)
    } else if str_eq(status_type, "server-process") {
        (server_status, true)
    } else if str_eq(status_type, "node") {
        (connection_status, false)
    } else {
        (Status::Unknown, false)
    }
}

/// The status a node's state code stands for: 0 down, 1 up, 2 unknown, 3
/// healthy, 4 unhealthy, anything else unknown.
pub fn status_from_code(code: i32) -> (r: Status)
    ensures
        r == (if code == 0 {
            Status::Down
        } else if code == 1 {
            Status::Up
        } else if code == 3 {
            Status::Healthy
        } else if code == 4 {
            Status::Unhealthy
        } else {
            Status::Unknown
        }),
{
    match code {
        0 => Status::Down,
        1 => Status::Up,
        2 => Status::Unknown,
        3 => Status::Healthy,
        4 => Status::Unhealthy,
        _ => Status::Unknown,
    }
}

/// A boolean as `bool::from_str` reads it: exactly `true` or `false`.
pub open spec fn bool_of(s: Seq<char>) -> Option<bool> {
    if s == "true"@ {
        Some(true)
    } else if s == "false"@ {
        Some(false)
    } else {
        None
    }
}

/// Reads a boolean (exactly `true` or `false`).
pub fn parse_bool(s: &str) -> (r: Option<bool>)
    ensures
        r == bool_of(s@),
{
    if str_eq(s, "true") {
        Some(true)
    } else if str_eq(s, "false") {
        Some(false)
    } else {
        None
    }
}

/// The server status that a `server_state` message reports: up when its
/// text reads `true`, down otherwise.
pub fn server_state_status(message: &str) -> (r: Status)
    ensures
        r == (if bool_of(message@) == Some(true) {
            Status::Up
        } else {
            Status::Down
        }),
{
    match parse_bool(message) {
        Some(true) => Status::Up,
        _ => Status::Down,
    }
}

/// Setting the console lock from a request's text: the new lock and 201
/// when the text is a boolean, else the lock unchanged and 422.
pub fn lock_from_request(current: bool, message: &str) -> (r: (bool, u16))
    ensures
        r == match bool_of(message@) {
            Some(b) => (b, 201u16),
            None => (current, 422u16),
        },
{
    match parse_bool(message) {
        Some(b) => (b, crate::status::CREATED),
        None => (current, crate::status::UNPROCESSABLE_ENTITY),
    }
}

/// The token of an `Authorization` header value of the form `Bearer ...`.
pub fn get_auth_bearer(authorization: Option<&str>) -> (r: Option<String>)
    ensures
        match authorization {
            Some(v) => if has_prefix(v@, "Bearer "@) {
                r matches Some(t) && t@ == v@.subrange("Bearer "@.len() as int, v@.len() as int)
            } else {
                r is None
            },
            None => r is None,
        },
{
    match authorization {
        Some(v) => {
            if starts_with(v, "Bearer ") {
                proof {
                    reveal_strlit("Bearer ");
                }
                Some(v.substring_char(7, v.unicode_len()).to_owned())
            } else {
                None
            }
        },
        None => None,
    }
}

/// The permission a header token grants.
pub open spec fn admin_perm_view() -> UserPermView {
    UserPermView { perm: "admin"@, scope: "all"@ }
}

/// The permissions a bearer token carries: admin over everything when it
/// equals the configured header token (empty when none is configured), none
/// otherwise.
pub fn resolve_token_perms(token: &str, header_token: Option<&str>) -> (r: Vec<UserPerm>)
    ensures
        perms_view(r@) == if token@ == match header_token {
            Some(t) => t@,
            None => Seq::<char>::empty(),
        } {
            seq![admin_perm_view()]
        } else {
            Seq::<UserPermView>::empty()
        },
{
    proof {
        reveal_strlit("");
    }
    let configured = match header_token {
        Some(t) => t,
        None => "",
    };
    assert(configured@ == match header_token {
        Some(t) => t@,
        None => Seq::<char>::empty(),
    });
    let mut out: Vec<UserPerm> = Vec::new();
    if str_eq(token, configured) {
        out.push(UserPerm { perm: owned("admin"), scope: owned("all") });
    }
    assert(perms_view(out@) =~= if token@ == configured@ {
        seq![admin_perm_view()]
    } else {
        Seq::<UserPermView>::empty()
    });
    out
}

/// Some permission is `admin` or one of `required`.
pub open spec fn perms_grant(perms: Seq<UserPermView>, required: Seq<Seq<char>>) -> bool {
    exists|i: int|
        0 <= i < perms.len() && (perms[i].perm == "admin"@ || required.contains(perms[i].perm))
}

/// Whether some permission is `admin` or one of `required`.
pub fn grants(perms: &Vec<UserPerm>, required: &Vec<String>) -> (r: bool)
    ensures
        r == perms_grant(perms_view(perms@), required@.map_values(|s: String| s@)),
{
    let ghost req = required@.map_values(|s: String| s@);
    let mut i: usize = 0;
    while i < perms.len()
        invariant
            i <= perms@.len(),
            req == required@.map_values(|s: String| s@),
            forall|j: int|
                0 <= j < i ==> !(perms@[j].perm@ == "admin"@ || req.contains(perms@[j].perm@)),
        decreases perms@.len() - i,
    {
        let p = perms[i].perm.as_str();
        if str_eq(p, "admin") {
            assert(perms_view(perms@)[i as int].perm == "admin"@);
            return true;
        }
        let mut k: usize = 0;
        while k < required.len()
            invariant
                k <= required@.len(),
                i < perms@.len(),
                p@ == perms@[i as int].perm@,
                req == required@.map_values(|s: String| s@),
                forall|m: int| 0 <= m < k ==> req[m] != p@,
            decreases required@.len() - k,
        {
            if str_eq(required[k].as_str(), p) {
                assert(req[k as int] == p@);
                assert(req.contains(p@));
                assert(perms_view(perms@)[i as int].perm == p@);
                return true;
            }
            k = k + 1;
        }
        assert(!req.contains(p@)) by {
            if req.contains(p@) {
                let m = choose|m: int| 0 <= m < req.len() && req[m] == p@;
                assert(req[m] != p@);
            }
        }
        i = i + 1;
    }
    assert(!perms_grant(perms_view(perms@), req)) by {
        if perms_grant(perms_view(perms@), req) {
            let j = choose|j: int|
                0 <= j < perms_view(perms@).len() && (perms_view(perms@)[j].perm == "admin"@
                    || req.contains(perms_view(perms@)[j].perm));
            assert(perms_view(perms@)[j].perm == perms@[j].perm@);
        }
    }
    false
}

/// A request is authorised when the signed-in user's permissions grant it,
/// or else the bearer token's do.
pub open spec fn authorized(
    session_perms: Option<Seq<UserPermView>>,
    bearer: Option<Seq<char>>,
    header_token: Seq<char>,
    required: Seq<Seq<char>>,
) -> bool {
    (session_perms matches Some(p) && perms_grant(p, required)) || (bearer matches Some(t) && t
        == header_token && perms_grant(seq![admin_perm_view()], required))
}

/// Decides whether a request is authorised (see `authorized`); the header
/// token is the configured one, empty when none is configured.
pub fn authorize(
    session_perms: Option<&Vec<UserPerm>>,
    bearer: Option<&str>,
    header_token: Option<&str>,
    required: &Vec<String>,
) -> (r: bool)
    ensures
        r == authorized(
            match session_perms {
                Some(p) => Some(perms_view(p@)),
                None => None,
            },
            match bearer {
                Some(t) => Some(t@),
                None => None,
            },
            match header_token {
                Some(t) => t@,
                None => Seq::<char>::empty(),
            },
            required@.map_values(|s: String| s@),
        ),
{
    proof {
        reveal_strlit("");
    }
    if let Some(perms) = session_perms {
        if grants(perms, required) {
            return true;
        }
    }
    if let Some(token) = bearer {
        let token_perms = resolve_token_perms(token, header_token);
        if grants(&token_perms, required) {
            assert(token@ == match header_token {
                Some(t) => t@,
                None => Seq::<char>::empty(),
            }) by {
                if token@ != match header_token {
                    Some(t) => t@,
                    None => Seq::<char>::empty(),
                } {
                    assert(perms_view(token_perms@) =~= Seq::<UserPermView>::empty());
                }
            }
            return true;
        }
    }
    false
}

/// The site's base path from its configured URL: trimmed, with a leading
/// `/` and without a trailing one (`/` itself stays); empty when no URL is
/// configured or it is blank.
pub open spec fn base_path_of(url: Option<Seq<char>>) -> Seq<char> {
    match url {
        None => Seq::empty(),
        Some(u) => {
            let t = trim(u);
            if t.len() == 0 {
                t
            } else {
                let s = if t[0] == '/' {
                    t
                } else {
                    seq!['/'] + t
                };
                if s.last() == '/' && s != "/"@ {
                    s.drop_last()
                } else {
                    s
                }
            }
        },
    }
}

/// The site's base path (see `base_path_of`).
pub fn normalize_base_path(site_url: Option<&str>) -> (r: String)
    ensures
        r@ == base_path_of(
            match site_url {
                Some(u) => Some(u@),
                None => None,
            },
        ),
{
    proof {
        reveal_strlit("/");
    }
    match site_url {
        None => String::new(),
        Some(u) => {
            let t = trim_str(u);
            if t.unicode_len() == 0 {
                return owned(t);
            }
            let mut v = crate::text::chars_of(t);
            if v[0] != '/' {
                v.insert(0, '/');
                assert(v@ =~= seq!['/'] + t@);
            }
            let ghost s = v@;
            let is_root = v.len() == 1 && v[0] == '/';
            assert(is_root == (s == "/"@)) by {
                if s == "/"@ {
                    assert(s.len() == 1);
                }
                if is_root {
                    assert(s =~= "/"@);
                }
            }
            if v[v.len() - 1] == '/' && !is_root {
                v.pop();
                assert(v@ =~= s.drop_last());
            }
            crate::text::string_from_chars(&v)
        },
    }
}

/// The address the identity provider sends users back to.
pub fn oidc_callback_url(local_url: &str) -> (r: String)
    ensures
        has_prefix(local_url@, "http"@) ==> r@ == local_url@ + "/oidc/callback"@,
        !has_prefix(local_url@, "http"@) ==> r@ == "http://"@ + local_url@ + "/oidc/callback"@,
{
    if starts_with(local_url, "http") {
        let mut r = owned(local_url);
        r.append("/oidc/callback");
        r
    } else {
        let mut r = owned("http://");
        r.append(local_url);
        r.append("/oidc/callback");
        r
    }
}

/// The frontend file a request path asks for: `index.html` for the root,
/// else the path without its leading character.
pub fn static_file_for_path(path: &str) -> (r: String)
    ensures
        (path@ == "/"@ || path@.len() == 0) ==> r@ == "index.html"@,
        !(path@ == "/"@ || path@.len() == 0) ==> r@ == path@.subrange(1, path@.len() as int),
{
    if str_eq(path, "/") || path.unicode_len() == 0 {
        owned("index.html")
    } else {
        path.substring_char(1, path.unicode_len()).to_owned()
    }
}

/// `s` with every occurrence of `pat` (a non-empty pattern), from the left
/// and not overlapping, replaced by `with`.
pub open spec fn replace_all(s: Seq<char>, pat: Seq<char>, with: Seq<char>) -> Seq<char>
    recommends
        pat.len() > 0,
    decreases s.len(),
{
    if s.len() == 0 || pat.len() == 0 {
        s
    } else if has_prefix(s, pat) {
        with + replace_all(s.subrange(pat.len() as int, s.len() as int), pat, with)
    } else {
        seq![s[0]] + replace_all(s.drop_first(), pat, with)
    }
}

/// Replaces every occurrence of `pat` in `s` by `with` (see `replace_all`).
pub fn replace_str(s: &str, pat: &str, with: &str) -> (r: String)
    requires
        pat@.len() > 0,
    ensures
        r@ == replace_all(s@, pat@, with@),
{
    let v = crate::text::chars_of(s);
    let p = crate::text::chars_of(pat);
    let w = crate::text::chars_of(with);
    let n = v.len();
    let m = p.len();
    let mut out: Vec<char> = Vec::new();
    let mut i: usize = 0;
    assert(v@.subrange(0, n as int) =~= v@);
    assert(out@ + replace_all(v@, p@, w@) =~= replace_all(v@, p@, w@));
    while i < n
        invariant
            n == v@.len(),
            m == p@.len(),
            m > 0,
            i <= n,
            v@ == s@,
            p@ == pat@,
            w@ == with@,
            out@ + replace_all(v@.subrange(i as int, n as int), p@, w@) == replace_all(
                v@,
                p@,
                w@,
            ),
        decreases n - i,
    {
        let ghost rest = v@.subrange(i as int, n as int);
        let mut matched = m <= n - i;
        let mut k: usize = 0;
        while matched && k < m
            invariant
                k <= m,
                n == v@.len(),
                m == p@.len(),
                matched ==> i + m <= n,
                matched ==> forall|j: int| 0 <= j < k ==> v@[i + j] == p@[j],
                !matched ==> !has_prefix(rest, p@),
                rest == v@.subrange(i as int, n as int),
            decreases m - k,
        {
            if v[i + k] != p[k] {
                matched = false;
                assert(!has_prefix(rest, p@)) by {
                    if has_prefix(rest, p@) {
                        assert(rest.subrange(0, m as int)[k as int] == p@[k as int]);
                    }
                }
            }
            k = k + 1;
        }
        if matched {
            assert(rest.subrange(0, m as int) =~= p@);
            let mut j: usize = 0;
            let ghost before = out@;
            while j < w.len()
                invariant
                    j <= w@.len(),
                    out@ == before + w@.subrange(0, j as int),
                decreases w@.len() - j,
            {
                out.push(w[j]);
                j = j + 1;
                assert(out@ =~= before + w@.subrange(0, j as int));
            }
            assert(w@.subrange(0, w@.len() as int) =~= w@);
            assert(rest.subrange(m as int, rest.len() as int) =~= v@.subrange(
                i + m,
                n as int,
            ));
            assert(out@ + replace_all(v@.subrange(i + m, n as int), p@, w@) =~= before + (w@
                + replace_all(rest.subrange(m as int, rest.len() as int), p@, w@)));
            i = i + m;
        } else {
            if m > n - i {
                assert(!has_prefix(rest, p@));
            }
            let ghost before = out@;
            out.push(v[i]);
            assert(rest.drop_first() =~= v@.subrange(i + 1, n as int));
            assert(out@ + replace_all(v@.subrange(i + 1, n as int), p@, w@) =~= before + (seq![
                rest[0],
            ] + replace_all(rest.drop_first(), p@, w@)));
            i = i + 1;
        }
    }
    assert(v@.subrange(n as int, n as int) =~= Seq::<char>::empty());
    assert(out@ + Seq::<char>::empty() =~= out@);
    crate::text::string_from_chars(&out)
}

/// Serves an HTML page with the site's base path put in place of its
/// `[[SITE_URL]]` markers.
pub fn html_with_site_url(html: &str, base_path: &str) -> (r: String)
    ensures
        r@ == replace_all(html@, "[[SITE_URL]]"@, base_path@),
{
    proof {
        reveal_strlit("[[SITE_URL]]");
    }
    replace_str(html, "[[SITE_URL]]", base_path)
}

/// Whether a node may be deleted: only one that Kubernetes does not manage
/// (of no or unknown Kubernetes type).
pub fn node_deletion_allowed(k8s_type: K8sType) -> (r: bool)
    ensures
        r == (k8s_type == K8sType::NoType || k8s_type == K8sType::Unknown),
{
    matches!(k8s_type, K8sType::NoType) || matches!(k8s_type, K8sType::Unknown)
}

/// The name a node gives itself in answer to `server_name`, or `main` when
/// it gives none.
pub fn node_name_from_reply(reply: Option<String>) -> (r: String)
    ensures
        reply matches Some(n) ==> r@ == n@,
        reply is None ==> r@ == "main"@,
{
    match reply {
        Some(n) => n,
        None => owned("main"),
    }
}

/// The capabilities the panel announces to a node.
pub fn capabilities() -> (r: Vec<String>)
    ensures
        r@.map_values(|s: String| s@) == seq!["all"@],
{
    let mut v: Vec<String> = Vec::new();
    v.push(owned("all"));
    assert(v@.map_values(|s: String| s@) =~= seq!["all"@]);
    v
}

/// The name a user signing in through the identity provider gets: the
/// claimed name in its default language; when the provider claims a name
/// but none in the default language, no name; when it claims none, the
/// claimed e-mail address, if any.
pub open spec fn claimed_username(
    name_claimed: bool,
    default_name: Option<Seq<char>>,
    email: Option<Seq<char>>,
) -> Seq<char> {
    if name_claimed {
        match default_name {
            Some(n) => n,
            None => Seq::empty(),
        }
    } else {
        match email {
            Some(e) => e,
            None => Seq::empty(),
        }
    }
}

/// The user that a sign-in through the identity provider logs in: the
/// claimed name (see `claimed_username`), no password, and the claimed
/// permissions (none when none are claimed).
pub fn oidc_user(
    name_claimed: bool,
    default_name: Option<String>,
    email: Option<String>,
    perms: Option<Vec<UserPerm>>,
) -> (r: User)
    ensures
        r@ == (UserView {
            username: claimed_username(
                name_claimed,
                crate::databasespec::opt_view(default_name),
                crate::databasespec::opt_view(email),
            ),
            password_hash: None,
            user_perms: match perms {
                Some(p) => perms_view(p@),
                None => Seq::empty(),
            },
        }),
{
    let username = if name_claimed {
        match default_name {
            Some(n) => n,
            None => String::new(),
        }
    } else {
        match email {
            Some(e) => e,
            None => String::new(),
        }
    };
    let user_perms = match perms {
        Some(p) => p,
        None => {
            let v: Vec<UserPerm> = Vec::new();
            assert(perms_view(v@) =~= Seq::<UserPermView>::empty());
            v
        },
    };
    User { username, password_hash: None, user_perms }
}

/// A signed-in user as the session keeps it: without the password hash.
pub fn session_user(user: &User) -> (r: User)
    ensures
        r@ == (UserView { password_hash: None, ..user@ }),
{
    User { username: user.username.clone(), password_hash: None, user_perms: clone_perms(&user.user_perms) }
}

} // verus!
