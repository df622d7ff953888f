//! The panel's game integrations: the stored integrations (one per kind),
//! and which hooks a change of an integration's settings sends to the node.
use vstd::prelude::*;
use crate::databasespec::{
    Intergration, IntergrationView, Intergrations, IntergrationSettings, IntergrationSettingsView,
    SettingValue, SettingValueView, Element, ElementView, ModifyElementData, intergration_of_name,
    intergration_name,
};
use crate::keyed::{
    has_key, first_key_at, lookup, drop_keyed, lemma_key_index_at, lemma_key_index_none,
};
use crate::status::{DatabaseError, CREATED, BAD_REQUEST, CONFLICT, INTERNAL_SERVER_ERROR, UNAUTHORIZED, NOT_FOUND};
use crate::text::{str_eq, starts_with, has_prefix, owned, concat3};

verus! {

/// The tag under which integrations of a kind are stored.
pub open spec fn kind_tag(k: Intergrations) -> Seq<char> {
    match k {
        Intergrations::Minecraft => "minecraft"@,
        Intergrations::Other => "other"@,
        Intergrations::Unknown => "unknown"@,
    }
}

/// Integrations are found by their kind.
pub open spec fn intergration_key() -> spec_fn(IntergrationView) -> Seq<char> {
    |i: IntergrationView| kind_tag(i.kind)
}

/// The stored integrations.
pub struct IntergrationStore {
    pub intergrations: Vec<Intergration>,
}

pub open spec fn intergrations_view(v: Seq<Intergration>) -> Seq<IntergrationView> {
    v.map_values(|i: Intergration| i@)
}

impl View for IntergrationStore {
    type V = Seq<IntergrationView>;

    open spec fn view(&self) -> Seq<IntergrationView> {
        intergrations_view(self.intergrations@)
    }
}

/// Creating an integration: only one of each kind may be stored
/// (conflict); anything but an integration is a bad request.
pub open spec fn create_intergration_outcome(s: Seq<IntergrationView>, e: ElementView) -> (
    Seq<IntergrationView>,
    Result<u16, DatabaseError>,
) {
    match e {
        ElementView::Intergration(i) => if has_key(s, intergration_key(), kind_tag(i.kind)) {
            (s, Err(DatabaseError::StatusCode(CONFLICT)))
        } else {
            (s.push(i), Ok(CREATED))
        },
        _ => (s, Err(DatabaseError::StatusCode(BAD_REQUEST))),
    }
}

/// Removing an integration: every one of its kind goes; there must be one.
pub open spec fn remove_intergration_outcome(s: Seq<IntergrationView>, e: ElementView) -> (
    Seq<IntergrationView>,
    Result<u16, DatabaseError>,
) {
    match e {
        ElementView::Intergration(i) => if has_key(s, intergration_key(), kind_tag(i.kind)) {
            (drop_keyed(s, intergration_key(), kind_tag(i.kind)), Ok(CREATED))
        } else {
            (s, Err(DatabaseError::StatusCode(INTERNAL_SERVER_ERROR)))
        },
        _ => (s, Err(DatabaseError::StatusCode(INTERNAL_SERVER_ERROR))),
    }
}

/// A stored integration after an edit by `new`: status and settings are
/// taken over where the kinds agree.
pub open spec fn edited_intergration(x: IntergrationView, new: IntergrationView) -> IntergrationView {
    if x.kind == new.kind {
        IntergrationView { status: new.status, settings: new.settings, ..x }
    } else {
        x
    }
}

/// Editing an integration: every one of its kind is edited; there must be
/// one.
pub open spec fn edit_intergration_outcome(s: Seq<IntergrationView>, e: ElementView) -> (
    Seq<IntergrationView>,
    Result<u16, DatabaseError>,
) {
    match e {
        ElementView::Intergration(i) => if has_key(s, intergration_key(), kind_tag(i.kind)) {
            (s.map_values(|x: IntergrationView| edited_intergration(x, i)), Ok(CREATED))
        } else {
            (s, Err(DatabaseError::StatusCode(INTERNAL_SERVER_ERROR)))
        },
        _ => (s, Err(DatabaseError::StatusCode(INTERNAL_SERVER_ERROR))),
    }
}

fn kind_eq(a: Intergrations, b: Intergrations) -> (r: bool)
    ensures
        r == (a == b),
        r == (kind_tag(a) == kind_tag(b)),
{
    proof {
        reveal_strlit("minecraft");
        reveal_strlit("other");
        reveal_strlit("unknown");
        assert("minecraft"@.len() != "other"@.len());
        assert("minecraft"@.len() != "unknown"@.len());
        assert("other"@[0] != "unknown"@[0]);
    }
    match (a, b) {
        (Intergrations::Minecraft, Intergrations::Minecraft) => true,
        (Intergrations::Other, Intergrations::Other) => true,
        (Intergrations::Unknown, Intergrations::Unknown) => true,
        _ => false,
    }
}

fn intergration_position(v: &Vec<Intergration>, kind: Intergrations) -> (r: Option<usize>)
    ensures
        match r {
            Some(i) => first_key_at(intergrations_view(v@), intergration_key(), kind_tag(kind), i as int),
            None => !has_key(intergrations_view(v@), intergration_key(), kind_tag(kind)),
        },
{
    let mut i: usize = 0;
    while i < v.len()
        invariant
            i <= v@.len(),
            forall|j: int| 0 <= j < i ==> kind_tag(v@[j].kind) != kind_tag(kind),
        decreases v@.len() - i,
    {
        if kind_eq(v[i].kind, kind) {
            return Some(i);
        }
        i = i + 1;
    }
    None
}

impl IntergrationStore {
    /// No integrations.
    pub fn new() -> (r: IntergrationStore)
        ensures
            r@ == Seq::<IntergrationView>::empty(),
    {
        let r = IntergrationStore { intergrations: Vec::new() };
        assert(r@ =~= Seq::<IntergrationView>::empty());
        r
    }

    /// The first stored integration of the kind that the name denotes
    /// (`minecraft`, any other name meaning the unknown kind).
    pub fn get_from_intergrations_database(&self, name: &str) -> (r: Option<Intergration>)
        ensures
            match r {
                Some(i) => lookup(self@, intergration_key(), kind_tag(intergration_of_name(name@)))
                    == Some(i@),
                None => lookup(self@, intergration_key(), kind_tag(intergration_of_name(name@)))
                    == None::<IntergrationView>,
            },
    {
        let kind = Intergrations::from_name(name);
        match intergration_position(&self.intergrations, kind) {
            Some(i) => {
                proof {
                    lemma_key_index_at(self@, intergration_key(), kind_tag(kind), i as int);
                }
                Some(self.intergrations[i].clone())
            },
            None => {
                proof {
                    lemma_key_index_none(self@, intergration_key(), kind_tag(kind));
                }
                None
            },
        }
    }

    /// The first stored integration of the kind that the name denotes.
    pub fn retrieve_intergrations(&self, name: String) -> (r: Option<Intergration>)
        ensures
            match r {
                Some(i) => lookup(self@, intergration_key(), kind_tag(intergration_of_name(name@)))
                    == Some(i@),
                None => lookup(self@, intergration_key(), kind_tag(intergration_of_name(name@)))
                    == None::<IntergrationView>,
            },
    {
        self.get_from_intergrations_database(name.as_str())
    }

    /// Every stored integration, in order.
    pub fn fetch_all_intergrations(&self) -> (r: Vec<Intergration>)
        ensures
            intergrations_view(r@) == self@,
    {
        let mut out: Vec<Intergration> = Vec::new();
        let mut i: usize = 0;
        while i < self.intergrations.len()
            invariant
                i <= self.intergrations@.len(),
                intergrations_view(out@) == intergrations_view(
                    self.intergrations@.subrange(0, i as int),
                ),
            decreases self.intergrations@.len() - i,
        {
            out.push(self.intergrations[i].clone());
            assert(intergrations_view(self.intergrations@.subrange(0, i + 1)) =~= intergrations_view(
                self.intergrations@.subrange(0, i as int),
            ).push(self.intergrations@[i as int]@));
            i = i + 1;
        }
        assert(self.intergrations@.subrange(0, self.intergrations@.len() as int)
            =~= self.intergrations@);
        out
    }

    /// Stores a new integration (see `create_intergration_outcome`).
    pub fn create_intergrations_in_db(&mut self, element: ModifyElementData) -> (r: Result<
        u16,
        DatabaseError,
    >)
        ensures
            (final(self)@, r) == create_intergration_outcome(old(self)@, element.element@),
    {
        match element.element {
            Element::Intergration(i) => {
                if intergration_position(&self.intergrations, i.kind).is_some() {
                    return Err(DatabaseError::StatusCode(CONFLICT));
                }
                let ghost iv = i@;
                self.intergrations.push(i);
                assert(self@ =~= old(self)@.push(iv));
                Ok(CREATED)
            },
            _ => Err(DatabaseError::StatusCode(BAD_REQUEST)),
        }
    }

    /// Removes the integrations of the element's kind (see
    /// `remove_intergration_outcome`).
    pub fn remove_intergrations_in_db(&mut self, element: ModifyElementData) -> (r: Result<
        u16,
        DatabaseError,
    >)
        ensures
            (final(self)@, r) == remove_intergration_outcome(old(self)@, element.element@),
    {
        match &element.element {
            Element::Intergration(it) => {
                if intergration_position(&self.intergrations, it.kind).is_none() {
                    return Err(DatabaseError::StatusCode(INTERNAL_SERVER_ERROR));
                }
                let mut out: Vec<Intergration> = Vec::new();
                let mut i: usize = 0;
                while i < self.intergrations.len()
                    invariant
                        i <= self.intergrations@.len(),
                        intergrations_view(out@) == drop_keyed(
                            intergrations_view(self.intergrations@.subrange(0, i as int)),
                            intergration_key(),
                            kind_tag(it.kind),
                        ),
                    decreases self.intergrations@.len() - i,
                {
                    let ghost before = intergrations_view(self.intergrations@.subrange(0, i as int));
                    let ghost after = intergrations_view(self.intergrations@.subrange(0, i + 1));
                    assert(after.drop_last() =~= before);
                    assert(after.last() == self.intergrations@[i as int]@);
                    if !kind_eq(self.intergrations[i].kind, it.kind) {
                        out.push(self.intergrations[i].clone());
                        assert(intergrations_view(out@) =~= drop_keyed(
                            before,
                            intergration_key(),
                            kind_tag(it.kind),
                        ).push(self.intergrations@[i as int]@));
                    }
                    i = i + 1;
                }
                assert(self.intergrations@.subrange(0, self.intergrations@.len() as int)
                    =~= self.intergrations@);
                self.intergrations = out;
                Ok(CREATED)
            },
            _ => Err(DatabaseError::StatusCode(INTERNAL_SERVER_ERROR)),
        }
    }

    /// Edits the integrations of the element's kind (see
    /// `edit_intergration_outcome`).
    pub fn edit_intergrations_in_db(&mut self, element: ModifyElementData) -> (r: Result<
        u16,
        DatabaseError,
    >)
        ensures
            (final(self)@, r) == edit_intergration_outcome(old(self)@, element.element@),
    {
        match &element.element {
            Element::Intergration(it) => {
                if intergration_position(&self.intergrations, it.kind).is_none() {
                    return Err(DatabaseError::StatusCode(INTERNAL_SERVER_ERROR));
                }
                let mut i: usize = 0;
                while i < self.intergrations.len()
                    invariant
                        i <= self.intergrations@.len(),
                        self.intergrations@.len() == old(self).intergrations@.len(),
                        forall|j: int|
                            0 <= j < i ==> self.intergrations@[j]@ == edited_intergration(
                                old(self).intergrations@[j]@,
                                it@,
                            ),
                        forall|j: int| i <= j < self.intergrations@.len() ==> self.intergrations@[j]
                            == old(self).intergrations@[j],
                    decreases self.intergrations@.len() - i,
                {
                    if kind_eq(self.intergrations[i].kind, it.kind) {
                        let kind = self.intergrations[i].kind;
                        let edited = Intergration {
                            status: it.status.clone(),
                            kind,
                            settings: it.settings.clone(),
                        };
                        self.intergrations.set(i, edited);
                    }
                    i = i + 1;
                }
                assert(self@ =~= old(self)@.map_values(
                    |x: IntergrationView| edited_intergration(x, it@),
                ));
                Ok(CREATED)
            },
            _ => Err(DatabaseError::StatusCode(INTERNAL_SERVER_ERROR)),
        }
    }
}

/// Settings entries are found by their key.
pub open spec fn entry_key() -> spec_fn((Seq<char>, SettingValueView)) -> Seq<char> {
    |e: (Seq<char>, SettingValueView)| e.0
}

/// The value of the first entry with key `k`.
pub open spec fn setting_get(entries: Seq<(Seq<char>, SettingValueView)>, k: Seq<char>) -> Option<
    SettingValueView,
> {
    match lookup(entries, entry_key(), k) {
        Some(e) => Some(e.1),
        None => None,
    }
}

/// The value a settings value holds under `k`: only an object holds any.
pub open spec fn settings_get(s: IntergrationSettingsView, k: Seq<char>) -> Option<SettingValueView> {
    match s {
        IntergrationSettingsView::Object(entries) => setting_get(entries, k),
        IntergrationSettingsView::Other(_) => None,
    }
}

/// The prefix of the keys of the hooks that belong to flag `k`.
pub open spec fn hook_prefix(k: Seq<char>) -> Seq<char> {
    "_"@ + k + "_hook"@
}

/// `i` is the first entry whose key begins with the hook prefix of `k`.
pub open spec fn first_hook_at(entries: Seq<(Seq<char>, SettingValueView)>, k: Seq<char>, i: int) -> bool {
    &&& 0 <= i < entries.len()
    &&& has_prefix(entries[i].0, hook_prefix(k))
    &&& forall|j: int| 0 <= j < i ==> !has_prefix(#[trigger] entries[j].0, hook_prefix(k))
}

/// The value of the first hook entry of flag `k`.
pub open spec fn hook_value(entries: Seq<(Seq<char>, SettingValueView)>, k: Seq<char>) -> Option<
    SettingValueView,
> {
    if exists|i: int| first_hook_at(entries, k, i) {
        Some(entries[choose|i: int| first_hook_at(entries, k, i)].1)
    } else {
        None
    }
}

/// The hooks sent for the first `n` stored entries: a flag whose key
/// begins with `enable` and that is stored off, has a hook, and that the
/// change turns on, sends its hook's value.
pub open spec fn hook_sends(
    stored: Seq<(Seq<char>, SettingValueView)>,
    requested: IntergrationSettingsView,
    n: int,
) -> Seq<SettingValueView>
    decreases n,
{
    if n <= 0 || n > stored.len() {
        Seq::empty()
    } else {
        let prev = hook_sends(stored, requested, n - 1);
        let e = stored[n - 1];
        if has_prefix(e.0, "enable"@) && e.1 == SettingValueView::Bool(false) {
            match (hook_value(stored, e.0), settings_get(requested, e.0)) {
                (Some(h), Some(SettingValueView::Bool(true))) => prev.push(h),
                _ => prev,
            }
        } else {
            prev
        }
    }
}

/// The hooks that changing stored settings to requested ones sends, in the
/// order of the stored flags; stored settings that are not an object send
/// none.
pub open spec fn hooks_to_send(stored: IntergrationSettingsView, requested: IntergrationSettingsView) -> Seq<
    SettingValueView,
> {
    match stored {
        IntergrationSettingsView::Object(entries) => hook_sends(entries, requested, entries.len() as int),
        IntergrationSettingsView::Other(_) => Seq::empty(),
    }
}

/// A settings value as JSON text.
pub open spec fn setting_json_view(v: SettingValueView) -> Seq<char> {
    match v {
        SettingValueView::Bool(true) => "true"@,
        SettingValueView::Bool(false) => "false"@,
        SettingValueView::Other(s) => s,
    }
}

/// Writes a settings value as JSON text.
pub fn setting_json(v: &SettingValue) -> (r: String)
    ensures
        r@ == setting_json_view(v@),
{
    match v {
        SettingValue::Bool(true) => owned("true"),
        SettingValue::Bool(false) => owned("false"),
        SettingValue::Other(s) => s.clone(),
    }
}

fn setting_position(entries: &Vec<(String, SettingValue)>, k: &str) -> (r: Option<usize>)
    ensures
        match r {
            Some(i) => first_key_at(crate::databasespec::entries_view(entries@), entry_key(), k@, i as int),
            None => !has_key(crate::databasespec::entries_view(entries@), entry_key(), k@),
        },
{
    let mut i: usize = 0;
    while i < entries.len()
        invariant
            i <= entries@.len(),
            forall|j: int| 0 <= j < i ==> entries@[j].0@ != k@,
        decreases entries@.len() - i,
    {
        if str_eq(entries[i].0.as_str(), k) {
            return Some(i);
        }
        i = i + 1;
    }
    None
}

fn hook_position(entries: &Vec<(String, SettingValue)>, k: &str) -> (r: Option<usize>)
    ensures
        match r {
            Some(i) => first_hook_at(crate::databasespec::entries_view(entries@), k@, i as int),
            None => forall|j: int|
                0 <= j < entries@.len() ==> !has_prefix(
                    #[trigger] crate::databasespec::entries_view(entries@)[j].0,
                    hook_prefix(k@),
                ),
        },
{
    let prefix = concat3("_", k, "_hook");
    proof {
        reveal_strlit("_");
        reveal_strlit("_hook");
    }
    let ghost ev = crate::databasespec::entries_view(entries@);
    let mut i: usize = 0;
    while i < entries.len()
        invariant
            i <= entries@.len(),
            prefix@ == hook_prefix(k@),
            ev == crate::databasespec::entries_view(entries@),
            forall|j: int| 0 <= j < i ==> !has_prefix(#[trigger] ev[j].0, hook_prefix(k@)),
        decreases entries@.len() - i,
    {
        if starts_with(entries[i].0.as_str(), prefix.as_str()) {
            return Some(i);
        }
        i = i + 1;
    }
    None
}

/// The hooks to send when stored settings are changed to requested ones
/// (see `hooks_to_send`).
pub fn intergration_hooks(stored: &IntergrationSettings, requested: &IntergrationSettings) -> (r:
    Vec<SettingValue>)
    ensures
        r@.map_values(|v: SettingValue| v@) == hooks_to_send(stored@, requested@),
{
    match stored {
        IntergrationSettings::Object(entries) => {
            let ghost ev = crate::databasespec::entries_view(entries@);
            let mut out: Vec<SettingValue> = Vec::new();
            let mut i: usize = 0;
            while i < entries.len()
                invariant
                    i <= entries@.len(),
                    ev == crate::databasespec::entries_view(entries@),
                    out@.map_values(|v: SettingValue| v@) == hook_sends(ev, requested@, i as int),
                decreases entries@.len() - i,
            {
                let key = entries[i].0.as_str();
                let ghost prev = out@.map_values(|v: SettingValue| v@);
                let is_off_flag = starts_with(key, "enable") && match &entries[i].1 {
                    SettingValue::Bool(b) => !*b,
                    _ => false,
                };
                if is_off_flag {
                    match hook_position(entries, key) {
                        Some(h) => {
                            proof {
                                assert(first_hook_at(ev, ev[i as int].0, h as int));
                                assert forall|j: int| first_hook_at(ev, ev[i as int].0, j) implies j == h by {
                                    if j < h {
                                        assert(!has_prefix(ev[j].0, hook_prefix(ev[i as int].0)));
                                    }
                                    if h < j {
                                        assert(!has_prefix(ev[h as int].0, hook_prefix(ev[i as int].0)));
                                    }
                                }
                            }
                            let turned_on = match requested {
                                IntergrationSettings::Object(req) => match setting_position(req, key) {
                                    Some(p) => {
                                        proof {
                                            lemma_key_index_at(
                                                crate::databasespec::entries_view(req@),
                                                entry_key(),
                                                key@,
                                                p as int,
                                            );
                                        }
                                        match &req[p].1 {
                                            SettingValue::Bool(b) => *b,
                                            _ => false,
                                        }
                                    },
                                    None => {
                                        proof {
                                            lemma_key_index_none(
                                                crate::databasespec::entries_view(req@),
                                                entry_key(),
                                                key@,
                                            );
                                        }
                                        false
                                    },
                                },
                                IntergrationSettings::Other(_) => false,
                            };
                            if turned_on {
                                out.push(entries[h].1.clone());
                                assert(out@.map_values(|v: SettingValue| v@) =~= prev.push(ev[h as int].1));
                            }
                        },
                        None => {
                            assert(!exists|j: int| first_hook_at(ev, ev[i as int].0, j));
                        },
                    }
                }
                i = i + 1;
            }
            out
        },
        IntergrationSettings::Other(_) => {
            let out: Vec<SettingValue> = Vec::new();
            assert(out@.map_values(|v: SettingValue| v@) =~= Seq::<SettingValueView>::empty());
            out
        },
    }
}

/// The answer to a request on an integration: its status, whether it
/// succeeded, and the message or error text.
pub struct IntergrationReply {
    pub status: u16,
    pub success: bool,
    pub text: Seq<char>,
}

/// The answer to a request on an integration.
pub struct IntergrationResponse {
    pub status: u16,
    pub success: bool,
    pub text: String,
}

/// What a store result on an integration is answered with: the success
/// message, or the error status with the text that explains it.
pub open spec fn intergration_reply(res: Result<u16, DatabaseError>, done: Seq<char>, conflict: Seq<char>) -> IntergrationReply {
    match res {
        Ok(c) => IntergrationReply { status: c, success: true, text: done },
        Err(DatabaseError::StatusCode(c)) => IntergrationReply {
            status: c,
            success: false,
            text: if c == CONFLICT && conflict.len() > 0 {
                conflict
            } else if c == NOT_FOUND && conflict.len() == 0 {
                "Integration not found"@
            } else if c == BAD_REQUEST {
                "Invalid request data"@
            } else {
                "Internal server error"@
            },
        },
    }
}

pub open spec fn response_view(r: IntergrationResponse) -> IntergrationReply {
    IntergrationReply { status: r.status, success: r.success, text: r.text@ }
}

fn respond(res: Result<u16, DatabaseError>, done: &str, conflict: &str) -> (r: IntergrationResponse)
    ensures
        response_view(r) == intergration_reply(res, done@, conflict@),
{
    proof {
        reveal_strlit("");
    }
    match res {
        Ok(c) => IntergrationResponse { status: c, success: true, text: owned(done) },
        Err(DatabaseError::StatusCode(c)) => {
            let text = if c == CONFLICT && conflict.unicode_len() > 0 {
                owned(conflict)
            } else if c == NOT_FOUND && conflict.unicode_len() == 0 {
                owned("Integration not found")
            } else if c == BAD_REQUEST {
                owned("Invalid request data")
            } else {
                owned("Internal server error")
            };
            IntergrationResponse { status: c, success: false, text }
        },
    }
}

/// The stored integration that a change of `i` is compared against: the
/// first of the kind that `i`'s kind name denotes.
pub open spec fn compared_intergration(s: Seq<IntergrationView>, i: IntergrationView) -> Option<
    IntergrationView,
> {
    lookup(s, intergration_key(), kind_tag(intergration_of_name(intergration_name(i.kind))))
}

/// The hook values, as JSON text, that a change of `i` sends to the node.
pub open spec fn modify_hooks(s: Seq<IntergrationView>, i: IntergrationView) -> Seq<Seq<char>> {
    match compared_intergration(s, i) {
        Some(stored) => hooks_to_send(stored.settings, i.settings).map_values(
            |v: SettingValueView| setting_json_view(v),
        ),
        None => Seq::empty(),
    }
}

/// Changes an integration: the hooks its change turns on are returned, as
/// JSON text, for the node; then the store is edited and the result
/// answered. Refused without authorisation; anything but an integration is
/// an internal error.
pub fn modify_intergration(
    store: &mut IntergrationStore,
    authorized: bool,
    request: ModifyElementData,
) -> (r: Result<(IntergrationResponse, Vec<String>), u16>)
    ensures
        !authorized ==> r == Err::<(IntergrationResponse, Vec<String>), u16>(UNAUTHORIZED)
            && final(store)@ == old(store)@,
        authorized ==> match request.element@ {
            ElementView::Intergration(i) => {
                let (after, res) = edit_intergration_outcome(old(store)@, request.element@);
                &&& final(store)@ == after
                &&& r matches Ok((reply, hooks)) && response_view(reply) == intergration_reply(
                    res,
                    "Integration modified successfully"@,
                    Seq::empty(),
                ) && hooks@.map_values(|h: String| h@) == modify_hooks(old(store)@, i)
            },
            _ => final(store)@ == old(store)@ && r == Err::<
                (IntergrationResponse, Vec<String>),
                u16,
            >(INTERNAL_SERVER_ERROR),
        },
{
    if !authorized {
        return Err(UNAUTHORIZED);
    }
    let mut hooks: Vec<String> = Vec::new();
    match &request.element {
        Element::Intergration(it) => {
            let name = it.kind.to_name();
            match store.get_from_intergrations_database(name.as_str()) {
                Some(stored) => {
                    let values = intergration_hooks(&stored.settings, &it.settings);
                    let ghost vs = values@.map_values(|v: SettingValue| v@);
                    let mut j: usize = 0;
                    while j < values.len()
                        invariant
                            j <= values@.len(),
                            vs == values@.map_values(|v: SettingValue| v@),
                            hooks@.map_values(|h: String| h@) == vs.subrange(0, j as int).map_values(
                                |v: SettingValueView| setting_json_view(v),
                            ),
                        decreases values@.len() - j,
                    {
                        let ghost prev = hooks@.map_values(|h: String| h@);
                        let text = setting_json(&values[j]);
                        assert(text@ == setting_json_view(vs[j as int]));
                        hooks.push(text);
                        assert(hooks@.map_values(|h: String| h@) =~= prev.push(text@));
                        assert(vs.subrange(0, j + 1) =~= vs.subrange(0, j as int).push(vs[j as int]));
                        assert(hooks@.map_values(|h: String| h@) =~= vs.subrange(0, j + 1).map_values(
                            |v: SettingValueView| setting_json_view(v),
                        ));
                        j = j + 1;
                    }
                    assert(vs.subrange(0, vs.len() as int) =~= vs);
                },
                None => {
                    assert(hooks@.map_values(|h: String| h@) =~= Seq::<Seq<char>>::empty());
                },
            }
        },
        _ => {
            return Err(INTERNAL_SERVER_ERROR);
        },
    }
    let res = store.edit_intergrations_in_db(request);
    Ok((respond(res, "Integration modified successfully", ""), hooks))
}

/// Creates an integration and answers the result (a conflict means one of
/// that kind exists). Refused without authorisation.
pub fn create_intergration(
    store: &mut IntergrationStore,
    authorized: bool,
    request: ModifyElementData,
) -> (r: Result<IntergrationResponse, u16>)
    ensures
        !authorized ==> r == Err::<IntergrationResponse, u16>(UNAUTHORIZED) && final(store)@
            == old(store)@,
        authorized ==> {
            let (after, res) = create_intergration_outcome(old(store)@, request.element@);
            &&& final(store)@ == after
            &&& r matches Ok(reply) && response_view(reply) == intergration_reply(
                res,
                "Integration created successfully"@,
                "Integration already exists"@,
            )
        },
{
    if !authorized {
        return Err(UNAUTHORIZED);
    }
    let res = store.create_intergrations_in_db(request);
    Ok(respond(res, "Integration created successfully", "Integration already exists"))
}

/// Deletes an integration; a refusal is an internal error. Refused without
/// authorisation.
pub fn delete_intergration(
    store: &mut IntergrationStore,
    authorized: bool,
    request: ModifyElementData,
) -> (r: Result<u16, u16>)
    ensures
        !authorized ==> r == Err::<u16, u16>(UNAUTHORIZED) && final(store)@ == old(store)@,
        authorized ==> {
            let (after, res) = remove_intergration_outcome(old(store)@, request.element@);
            &&& final(store)@ == after
            &&& r == match res {
                Ok(c) => Ok::<u16, u16>(c),
                Err(_) => Err(INTERNAL_SERVER_ERROR),
            }
        },
{
    if !authorized {
        return Err(UNAUTHORIZED);
    }
    match store.remove_intergrations_in_db(request) {
        Ok(c) => Ok(c),
        Err(_) => Err(INTERNAL_SERVER_ERROR),
    }
}

/// Every stored integration. Refused without authorisation.
pub fn get_integrations(store: &IntergrationStore, authorized: bool) -> (r: Result<
    Vec<Intergration>,
    u16,
>)
    ensures
        !authorized ==> r == Err::<Vec<Intergration>, u16>(UNAUTHORIZED),
        authorized ==> (r matches Ok(v) && intergrations_view(v@) == store@),
{
    if !authorized {
        return Err(UNAUTHORIZED);
    }
    Ok(store.fetch_all_intergrations())
}

} // verus!
