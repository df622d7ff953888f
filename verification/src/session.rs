//! The panel's session with a node: how the values read from the node's
//! stream are gathered and what each does to the panel, and the decisions
//! of connecting. Reading, parsing and sending are the caller's.
use vstd::prelude::*;
use crate::transport::{MessagePayload, SimpleMessage};
use crate::control::{ConsoleData, LogLine, Status, bool_of, server_state_status};
use crate::text::{str_eq, owned, contains_text, contains_str};
use crate::databasespec::{opt_view, NodeTypeView, Node, NodeView, NodeType, NodeStatus, K8sType, Element, ElementView, ModifyElementData, ServerView};
use crate::handlers::{Panel, opt_server_view};
use crate::json::{
    json_string_member_of,
    json_string_member,
    json_rewritten_of,
    json_rewritten,
    json_string_literal,
    json_quoted,
};
use crate::store::{ContentView, create_node_outcome};

verus! {

/// A value read from a node's stream, in the shape it was recognised in.
#[derive(Debug)]
pub enum StreamValue {
    Payload(MessagePayload),
    Simple(SimpleMessage),
    Console(ConsoleData),
    Log(LogLine),
    /// A value kept as its JSON text (a transfer request or an integration
    /// command).
    Json(String),
}

pub enum StreamValueView {
    Payload { kind: Seq<char>, message: Seq<char>, authcode: Seq<char> },
    Simple { message: Seq<char> },
    Console { authcode: Seq<char>, data: Seq<char>, kind: Seq<char> },
    Log { data: Seq<char> },
    Json(Seq<char>),
}

impl View for StreamValue {
    type V = StreamValueView;

    open spec fn view(&self) -> StreamValueView {
        match self {
            StreamValue::Payload(p) => StreamValueView::Payload {
                kind: p.kind@,
                message: p.message@,
                authcode: p.authcode@,
            },
            StreamValue::Simple(s) => StreamValueView::Simple { message: s.message@ },
            StreamValue::Console(c) => StreamValueView::Console {
                authcode: c.authcode@,
                data: c.data@,
                kind: c.kind@,
            },
            StreamValue::Log(l) => StreamValueView::Log { data: l.data@ },
            StreamValue::Json(j) => StreamValueView::Json(j@),
        }
    }
}

impl Clone for StreamValue {
    fn clone(&self) -> (r: Self)
        ensures
            r@ == self@,
    {
        match self {
            StreamValue::Payload(p) => StreamValue::Payload(
                MessagePayload {
                    kind: p.kind.clone(),
                    message: p.message.clone(),
                    authcode: p.authcode.clone(),
                },
            ),
            StreamValue::Simple(s) => StreamValue::Simple(SimpleMessage { message: s.message.clone() }),
            StreamValue::Console(c) => StreamValue::Console(
                ConsoleData { authcode: c.authcode.clone(), data: c.data.clone(), kind: c.kind.clone() },
            ),
            StreamValue::Log(l) => StreamValue::Log(LogLine { data: l.data.clone() }),
            StreamValue::Json(j) => StreamValue::Json(j.clone()),
        }
    }
}

pub open spec fn values_view(v: Seq<StreamValue>) -> Seq<StreamValueView> {
    v.map_values(|x: StreamValue| x@)
}

/// `s` without its repeated elements, the first of each kept in order.
pub open spec fn dedup<A>(s: Seq<A>) -> Seq<A>
    decreases s.len(),
{
    if s.len() == 0 {
        s
    } else {
        let d = dedup(s.drop_last());
        if d.contains(s.last()) {
            d
        } else {
            d.push(s.last())
        }
    }
}

fn same_text(a: &String, b: &String) -> (r: bool)
    ensures
        r == (a@ == b@),
{
    str_eq(a.as_str(), b.as_str())
}

fn same_value(a: &StreamValue, b: &StreamValue) -> (r: bool)
    ensures
        r == (a@ == b@),
{
    match (a, b) {
        (StreamValue::Payload(x), StreamValue::Payload(y)) => same_text(&x.kind, &y.kind) && same_text(
            &x.message,
            &y.message,
        ) && same_text(&x.authcode, &y.authcode),
        (StreamValue::Simple(x), StreamValue::Simple(y)) => same_text(&x.message, &y.message),
        (StreamValue::Console(x), StreamValue::Console(y)) => same_text(&x.authcode, &y.authcode)
            && same_text(&x.data, &y.data) && same_text(&x.kind, &y.kind),
        (StreamValue::Log(x), StreamValue::Log(y)) => same_text(&x.data, &y.data),
        (StreamValue::Json(x), StreamValue::Json(y)) => same_text(x, y),
        _ => false,
    }
}

fn holds_value(v: &Vec<StreamValue>, x: &StreamValue) -> (r: bool)
    ensures
        r == values_view(v@).contains(x@),
{
    let mut i: usize = 0;
    while i < v.len()
        invariant
            i <= v@.len(),
            forall|j: int| 0 <= j < i ==> v@[j]@ != x@,
        decreases v@.len() - i,
    {
        if same_value(&v[i], x) {
            assert(values_view(v@)[i as int] == x@);
            return true;
        }
        i = i + 1;
    }
    assert(!values_view(v@).contains(x@)) by {
        if values_view(v@).contains(x@) {
            let k = choose|k: int| 0 <= k < values_view(v@).len() && values_view(v@)[k] == x@;
            assert(v@[k]@ == x@);
        }
    }
    false
}

/// Appends to `out` the elements of `v` that are new, the first of each
/// kept in order.
fn push_dedup(out: &mut Vec<StreamValue>, v: Vec<StreamValue>)
    ensures
        values_view(final(out)@) == values_view(old(out)@) + dedup(values_view(v@)),
{
    let ghost vv = values_view(v@);
    let mut seen: Vec<StreamValue> = Vec::new();
    let mut i: usize = 0;
    while i < v.len()
        invariant
            i <= v@.len(),
            vv == values_view(v@),
            values_view(seen@) == dedup(vv.subrange(0, i as int)),
            values_view(out@) == values_view(old(out)@) + values_view(seen@),
        decreases v@.len() - i,
    {
        let ghost sub = vv.subrange(0, i + 1);
        assert(sub.drop_last() =~= vv.subrange(0, i as int));
        assert(sub.last() == v@[i as int]@);
        if !holds_value(&seen, &v[i]) {
            let ghost before_seen = values_view(seen@);
            let ghost before_out = values_view(out@);
            seen.push(v[i].clone());
            out.push(v[i].clone());
            assert(values_view(seen@) =~= before_seen.push(v@[i as int]@));
            assert(values_view(out@) =~= before_out.push(v@[i as int]@));
            assert(values_view(out@) =~= values_view(old(out)@) + values_view(seen@));
        }
        i = i + 1;
    }
    assert(vv.subrange(0, vv.len() as int) =~= vv);
}

/// The data a console value carries (empty for other values).
pub open spec fn console_data(v: StreamValueView) -> Seq<char> {
    match v {
        StreamValueView::Console { data, .. } => data,
        _ => Seq::empty(),
    }
}

/// A list item as the console value that carries it.
pub open spec fn list_item_view(list: Seq<char>) -> StreamValueView {
    StreamValueView::Console { authcode: "0"@, data: list, kind: "list_item"@ }
}

/// The data of a value that a listed item already shows: the JSON string
/// literal of each list item's text.
pub open spec fn list_lines(lists: Seq<Seq<char>>) -> Seq<Seq<char>> {
    dedup(lists.map_values(|l: Seq<char>| list_item_view(l))).map_values(
        |v: StreamValueView| json_string_literal(console_data(v)),
    )
}

/// The values a line from the node gives, from what was recognised in it:
/// the distinct list items (as console values of type `list_item`), the
/// console values and log lines that no list item already shows, the
/// server description (as a console value of type `info`), then the
/// distinct payloads, transfer requests, bare messages and integration
/// commands.
pub open spec fn gathered_values(
    lists: Seq<Seq<char>>,
    consoles: Seq<StreamValueView>,
    logs: Seq<Seq<char>>,
    info: Option<Seq<char>>,
    payloads: Seq<StreamValueView>,
    transfers: Seq<Seq<char>>,
    simples: Seq<Seq<char>>,
    integrations: Seq<Seq<char>>,
) -> Seq<StreamValueView> {
    let lines = list_lines(lists);
    dedup(lists.map_values(|l: Seq<char>| list_item_view(l))) + consoles.filter(
        |c: StreamValueView| !lines.contains(console_data(c)),
    ) + logs.filter(|d: Seq<char>| !lines.contains(d)).map_values(
        |d: Seq<char>| StreamValueView::Log { data: d },
    ) + match info {
        Some(t) => seq![StreamValueView::Console { authcode: "0"@, data: t, kind: "info"@ }],
        None => Seq::empty(),
    } + dedup(payloads) + dedup(transfers.map_values(|t: Seq<char>| StreamValueView::Json(t)))
        + dedup(simples.map_values(|m: Seq<char>| StreamValueView::Simple { message: m }))
        + dedup(integrations.map_values(|t: Seq<char>| StreamValueView::Json(t)))
}

fn listed(lines: &Vec<String>, data: &String) -> (r: bool)
    ensures
        r == lines@.map_values(|l: String| l@).contains(data@),
{
    let ghost lv = lines@.map_values(|l: String| l@);
    let mut i: usize = 0;
    while i < lines.len()
        invariant
            i <= lines@.len(),
            lv == lines@.map_values(|l: String| l@),
            forall|j: int| 0 <= j < i ==> lines@[j]@ != data@,
        decreases lines@.len() - i,
    {
        if same_text(&lines[i], data) {
            assert(lv[i as int] == data@);
            return true;
        }
        i = i + 1;
    }
    assert(!lv.contains(data@)) by {
        if lv.contains(data@) {
            let k = choose|k: int| 0 <= k < lv.len() && lv[k] == data@;
            assert(lines@[k]@ == data@);
        }
    }
    false
}

fn console_value(authcode: &str, data: String, kind: &str) -> (r: StreamValue)
    ensures
        r@ == (StreamValueView::Console { authcode: authcode@, data: data@, kind: kind@ }),
{
    StreamValue::Console(ConsoleData { authcode: owned(authcode), data, kind: owned(kind) })
}

/// Wraps texts as values, each by `make`.
fn wrap_json(v: Vec<String>) -> (r: Vec<StreamValue>)
    ensures
        values_view(r@) == v@.map_values(|t: String| t@).map_values(
            |t: Seq<char>| StreamValueView::Json(t),
        ),
{
    let mut out: Vec<StreamValue> = Vec::new();
    let mut i: usize = 0;
    while i < v.len()
        invariant
            i <= v@.len(),
            values_view(out@) == v@.subrange(0, i as int).map_values(|t: String| t@).map_values(
                |t: Seq<char>| StreamValueView::Json(t),
            ),
        decreases v@.len() - i,
    {
        let ghost before = values_view(out@);
        out.push(StreamValue::Json(v[i].clone()));
        assert(values_view(out@) =~= before.push(StreamValueView::Json(v@[i as int]@)));
        assert(v@.subrange(0, i + 1).map_values(|t: String| t@).map_values(
            |t: Seq<char>| StreamValueView::Json(t),
        ) =~= v@.subrange(0, i as int).map_values(|t: String| t@).map_values(
            |t: Seq<char>| StreamValueView::Json(t),
        ).push(StreamValueView::Json(v@[i as int]@)));
        i = i + 1;
    }
    assert(v@.subrange(0, v@.len() as int) =~= v@);
    out
}

fn wrap_simple(v: Vec<String>) -> (r: Vec<StreamValue>)
    ensures
        values_view(r@) == v@.map_values(|t: String| t@).map_values(
            |m: Seq<char>| StreamValueView::Simple { message: m },
        ),
{
    let mut out: Vec<StreamValue> = Vec::new();
    let mut i: usize = 0;
    while i < v.len()
        invariant
            i <= v@.len(),
            values_view(out@) == v@.subrange(0, i as int).map_values(|t: String| t@).map_values(
                |m: Seq<char>| StreamValueView::Simple { message: m },
            ),
        decreases v@.len() - i,
    {
        let ghost before = values_view(out@);
        out.push(StreamValue::Simple(SimpleMessage { message: v[i].clone() }));
        assert(values_view(out@) =~= before.push(StreamValueView::Simple { message: v@[i as int]@ }));
        assert(v@.subrange(0, i + 1).map_values(|t: String| t@).map_values(
            |m: Seq<char>| StreamValueView::Simple { message: m },
        ) =~= v@.subrange(0, i as int).map_values(|t: String| t@).map_values(
            |m: Seq<char>| StreamValueView::Simple { message: m },
        ).push(StreamValueView::Simple { message: v@[i as int]@ }));
        i = i + 1;
    }
    assert(v@.subrange(0, v@.len() as int) =~= v@);
    out
}

/// Gathers the values a line from the node gives (see `gathered_values`):
/// `lists` are the texts of the list items recognised in the line; a line
/// that describes a server adds its JSON text.
pub fn gather_stream_values(
    line: &str,
    lists: Vec<String>,
    consoles: Vec<ConsoleData>,
    logs: Vec<LogLine>,
    payloads: Vec<MessagePayload>,
    transfers: Vec<String>,
    simples: Vec<String>,
    integrations: Vec<String>,
) -> (r: Vec<StreamValue>)
    ensures
        values_view(r@) == gathered_values(
            lists@.map_values(|t: String| t@),
            consoles@.map_values(|c: ConsoleData| StreamValue::Console(c)@),
            logs@.map_values(|l: LogLine| l.data@),
            description_json_of(line@),
            payloads@.map_values(|p: MessagePayload| StreamValue::Payload(p)@),
            transfers@.map_values(|t: String| t@),
            simples@.map_values(|t: String| t@),
            integrations@.map_values(|t: String| t@),
        ),
{
    let mut out: Vec<StreamValue> = Vec::new();
    // list items
    let ghost lv = lists@.map_values(|t: String| t@);
    let mut items: Vec<StreamValue> = Vec::new();
    let mut i: usize = 0;
    while i < lists.len()
        invariant
            i <= lists@.len(),
            lv == lists@.map_values(|t: String| t@),
            values_view(items@) == lv.subrange(0, i as int).map_values(
                |l: Seq<char>| list_item_view(l),
            ),
        decreases lists@.len() - i,
    {
        let ghost before = values_view(items@);
        proof {
            reveal_strlit("0");
            reveal_strlit("list_item");
        }
        items.push(console_value("0", lists[i].clone(), "list_item"));
        assert(values_view(items@) =~= before.push(list_item_view(lv[i as int])));
        assert(lv.subrange(0, i + 1).map_values(|l: Seq<char>| list_item_view(l)) =~= lv.subrange(
            0,
            i as int,
        ).map_values(|l: Seq<char>| list_item_view(l)).push(list_item_view(lv[i as int])));
        i = i + 1;
    }
    assert(lv.subrange(0, lv.len() as int) =~= lv);
    push_dedup(&mut out, items);
    let ghost item_vals = values_view(out@);
    assert(item_vals =~= dedup(lv.map_values(|l: Seq<char>| list_item_view(l))));
    // the texts that list items already show
    let mut lines: Vec<String> = Vec::new();
    let mut k: usize = 0;
    while k < out.len()
        invariant
            k <= out@.len(),
            values_view(out@) == item_vals,
            lines@.map_values(|l: String| l@) == item_vals.subrange(0, k as int).map_values(
                |v: StreamValueView| json_string_literal(console_data(v)),
            ),
        decreases out@.len() - k,
    {
        let ghost before = lines@.map_values(|l: String| l@);
        assert(item_vals[k as int] == out@[k as int]@);
        let text = match &out[k] {
            StreamValue::Console(c) => json_quoted(c.data.as_str()),
            _ => {
                proof {
                    reveal_strlit("");
                    assert(""@ =~= Seq::<char>::empty());
                }
                json_quoted("")
            },
        };
        assert(text@ == json_string_literal(console_data(item_vals[k as int])));
        lines.push(text);
        assert(lines@.map_values(|l: String| l@) =~= before.push(text@));
        assert(item_vals.subrange(0, k + 1).map_values(
            |v: StreamValueView| json_string_literal(console_data(v)),
        ) =~= item_vals.subrange(0, k as int).map_values(
            |v: StreamValueView| json_string_literal(console_data(v)),
        ).push(text@));
        k = k + 1;
    }
    assert(item_vals.subrange(0, item_vals.len() as int) =~= item_vals);
    let ghost lines_v = lines@.map_values(|l: String| l@);
    assert(lines_v == list_lines(lv));
    // console values that no list item shows
    let ghost cv = consoles@.map_values(|c: ConsoleData| StreamValue::Console(c)@);
    let ghost console_pred = |c: StreamValueView| !lines_v.contains(console_data(c));
    let ghost base1 = values_view(out@);
    let mut j: usize = 0;
    while j < consoles.len()
        invariant
            j <= consoles@.len(),
            cv == consoles@.map_values(|c: ConsoleData| StreamValue::Console(c)@),
            lines_v == lines@.map_values(|l: String| l@),
            console_pred == (|c: StreamValueView| !lines_v.contains(console_data(c))),
            values_view(out@) == base1 + cv.subrange(0, j as int).filter(console_pred),
        decreases consoles@.len() - j,
    {
        let c = &consoles[j];
        let ghost f = cv.subrange(0, j as int).filter(console_pred);
        proof {
            cv.subrange(0, j as int).lemma_filter_push(cv[j as int], console_pred);
            assert(cv.subrange(0, j + 1) =~= cv.subrange(0, j as int).push(cv[j as int]));
            assert(console_data(cv[j as int]) == c.data@);
        }
        if !listed(&lines, &c.data) {
            let ghost before = values_view(out@);
            out.push(
                StreamValue::Console(
                    ConsoleData {
                        authcode: c.authcode.clone(),
                        data: c.data.clone(),
                        kind: c.kind.clone(),
                    },
                ),
            );
            assert(values_view(out@) =~= before.push(cv[j as int]));
            assert((base1 + f).push(cv[j as int]) =~= base1 + f.push(cv[j as int]));
        }
        j = j + 1;
    }
    assert(cv.subrange(0, cv.len() as int) =~= cv);
    // log lines that no list item shows
    let ghost logv = logs@.map_values(|l: LogLine| l.data@);
    let ghost base2 = values_view(out@);
    let mut m: usize = 0;
    while m < logs.len()
        invariant
            m <= logs@.len(),
            logv == logs@.map_values(|l: LogLine| l.data@),
            lines_v == lines@.map_values(|l: String| l@),
            values_view(out@) == base2 + logv.subrange(0, m as int).filter(
                |d: Seq<char>| !lines_v.contains(d),
            ).map_values(|d: Seq<char>| StreamValueView::Log { data: d }),
        decreases logs@.len() - m,
    {
        proof {
            logv.subrange(0, m as int).lemma_filter_push(
                logv[m as int],
                |d: Seq<char>| !lines_v.contains(d),
            );
            assert(logv.subrange(0, m + 1) =~= logv.subrange(0, m as int).push(logv[m as int]));
        }
        if !listed(&lines, &logs[m].data) {
            let ghost before = values_view(out@);
            out.push(StreamValue::Log(LogLine { data: logs[m].data.clone() }));
            assert(values_view(out@) =~= before.push(StreamValueView::Log { data: logv[m as int] }));
            assert(logv.subrange(0, m as int).filter(|d: Seq<char>| !lines_v.contains(d)).push(
                logv[m as int],
            ).map_values(|d: Seq<char>| StreamValueView::Log { data: d }) =~= logv.subrange(
                0,
                m as int,
            ).filter(|d: Seq<char>| !lines_v.contains(d)).map_values(
                |d: Seq<char>| StreamValueView::Log { data: d },
            ).push(StreamValueView::Log { data: logv[m as int] }));
        }
        m = m + 1;
    }
    assert(logv.subrange(0, logv.len() as int) =~= logv);
    // the server description
    let info = description_json(line);
    let ghost base3 = values_view(out@);
    let ghost info_v = opt_view(info);
    match info {
        Some(t) => {
            proof {
                reveal_strlit("0");
                reveal_strlit("info");
            }
            out.push(console_value("0", t, "info"));
        },
        None => {},
    }
    // payloads
    let mut pv: Vec<StreamValue> = Vec::new();
    let mut q: usize = 0;
    while q < payloads.len()
        invariant
            q <= payloads@.len(),
            values_view(pv@) == payloads@.subrange(0, q as int).map_values(
                |p: MessagePayload| StreamValue::Payload(p)@,
            ),
        decreases payloads@.len() - q,
    {
        let p = &payloads[q];
        let ghost before = values_view(pv@);
        pv.push(
            StreamValue::Payload(
                MessagePayload {
                    kind: p.kind.clone(),
                    message: p.message.clone(),
                    authcode: p.authcode.clone(),
                },
            ),
        );
        assert(values_view(pv@) =~= before.push(StreamValue::Payload(payloads@[q as int])@));
        assert(payloads@.subrange(0, q + 1).map_values(|p: MessagePayload| StreamValue::Payload(p)@)
            =~= payloads@.subrange(0, q as int).map_values(
            |p: MessagePayload| StreamValue::Payload(p)@,
        ).push(StreamValue::Payload(payloads@[q as int])@));
        q = q + 1;
    }
    assert(payloads@.subrange(0, payloads@.len() as int) =~= payloads@);
    push_dedup(&mut out, pv);
    push_dedup(&mut out, wrap_json(transfers));
    push_dedup(&mut out, wrap_simple(simples));
    push_dedup(&mut out, wrap_json(integrations));
    proof {
        let ghost g = gathered_values(
            lv,
            cv,
            logv,
            info_v,
            payloads@.map_values(|p: MessagePayload| StreamValue::Payload(p)@),
            transfers@.map_values(|t: String| t@),
            simples@.map_values(|t: String| t@),
            integrations@.map_values(|t: String| t@),
        );
        assert(values_view(out@) =~= g);
    }
    out
}

/// What the node says of itself when it answers a command: Kubernetes
/// facts that the caller looked up.
pub struct NodeFacts {
    pub nodestatus: NodeStatus,
    pub nodetype: NodeType,
    pub k8s_type: K8sType,
}

/// The command payload that the caller read from a console value's data,
/// if it holds one.
pub struct ConsoleInner {
    pub command: Option<MessagePayload>,
}

/// The server a JSON text describes: its `start_keyword`, `stop_keyword`
/// and `name` strings, when it is JSON and has all three.
pub open spec fn server_description_of(data: Seq<char>) -> Option<(Seq<char>, Seq<char>, Seq<char>)> {
    match (
        json_string_member_of(data, "start_keyword"@),
        json_string_member_of(data, "stop_keyword"@),
        json_string_member_of(data, "name"@),
    ) {
        (Some(Some(start)), Some(Some(stop)), Some(Some(name))) => Some((start, stop, name)),
        _ => None,
    }
}

/// Reads a server description (start keyword, stop keyword, name) from a
/// JSON text.
fn server_description(data: &str) -> (r: Option<(String, String, String)>)
    ensures
        server_description_of(data@) == match r {
            Some((a, b, c)) => Some((a@, b@, c@)),
            None => None,
        },
{
    let start = json_string_member(data, "start_keyword");
    let stop = json_string_member(data, "stop_keyword");
    let name = json_string_member(data, "name");
    match (start, stop, name) {
        (Some(Some(a)), Some(Some(b)), Some(Some(c))) => Some((a, b, c)),
        _ => None,
    }
}

/// The JSON text of a line that describes a server (see
/// `server_description_of`), as serde_json writes its value back.
pub open spec fn description_json_of(line: Seq<char>) -> Option<Seq<char>> {
    if server_description_of(line) is Some {
        json_rewritten_of(line)
    } else {
        None
    }
}

/// Writes back a line that describes a server as JSON text.
fn description_json(line: &str) -> (r: Option<String>)
    ensures
        description_json_of(line@) == opt_view(r),
{
    if server_description(line).is_some() {
        json_rewritten(line)
    } else {
        None
    }
}

/// The start and stop keywords of the node's server, as last described.
pub struct StreamKeywords {
    pub start: String,
    pub stop: String,
}

/// Whether a value is the node's answer to a ping.
pub open spec fn is_pong(v: StreamValueView) -> bool {
    match v {
        StreamValueView::Payload { message, .. } => message == "pong"@,
        StreamValueView::Simple { message } => message == "pong"@,
        _ => false,
    }
}

/// The server status after a value: a `server_state` payload reports up
/// when its message reads `true`, down otherwise.
pub open spec fn reported_status(v: StreamValueView, current: Status) -> Status {
    match v {
        StreamValueView::Payload { kind, message, .. } => if kind == "server_state"@ {
            if bool_of(message) == Some(true) {
                Status::Up
            } else {
                Status::Down
            }
        } else {
            current
        },
        _ => current,
    }
}

/// The name a node reports for itself: a console value whose data holds a
/// command and holds a command payload, that payload's message.
pub open spec fn reported_node_name(v: StreamValueView, command: Option<MessagePayload>) -> Option<
    Seq<char>,
> {
    match v {
        StreamValueView::Console { data, .. } => if contains_text(data, "\"type\":\"command\""@) {
            match command {
                Some(m) => if m.kind@ == "command"@ {
                    Some(m.message@)
                } else {
                    None
                },
                None => None,
            }
        } else {
            None
        },
        _ => None,
    }
}

/// Some stored node has that address and name.
pub open spec fn has_node_at(nodes: Seq<NodeView>, ip: Seq<char>, name: Seq<char>) -> bool {
    exists|i: int| 0 <= i < nodes.len() && nodes[i].ip == ip && nodes[i].nodename == name
}

/// The node a reporting node is stored as.
pub open spec fn reported_node(ip: Seq<char>, name: Seq<char>, facts: NodeFacts) -> NodeView {
    NodeView {
        nodename: name,
        ip,
        nodestatus: facts.nodestatus,
        nodetype: facts.nodetype@,
        k8s_type: facts.k8s_type,
    }
}

/// The store after a value: a node that reports itself and is not stored
/// at that address under that name is stored (as creating a node does).
pub open spec fn store_after_value(
    db: ContentView,
    v: StreamValueView,
    command: Option<MessagePayload>,
    ip: Seq<char>,
    facts: NodeFacts,
) -> ContentView {
    match reported_node_name(v, command) {
        Some(name) => if has_node_at(db.nodes, ip, name) {
            db
        } else {
            create_node_outcome(db, ElementView::Node(reported_node(ip, name, facts))).0
        },
        None => db,
    }
}

/// The current server after a described server: one without a name takes
/// the described name.
pub open spec fn server_after_description(current: Option<ServerView>, name: Seq<char>) -> Option<
    ServerView,
> {
    match current {
        Some(s) => if s.servername.len() == 0 {
            Some(ServerView { servername: name, ..s })
        } else {
            Some(s)
        },
        None => None,
    }
}

fn node_stored_at(nodes: &Vec<Node>, ip: &str, name: &str) -> (r: bool)
    ensures
        r == has_node_at(crate::store::nodes_view(nodes@), ip@, name@),
{
    let mut i: usize = 0;
    while i < nodes.len()
        invariant
            i <= nodes@.len(),
            forall|j: int| 0 <= j < i ==> !(nodes@[j].ip@ == ip@ && nodes@[j].nodename@ == name@),
        decreases nodes@.len() - i,
    {
        if str_eq(nodes[i].ip.as_str(), ip) && str_eq(nodes[i].nodename.as_str(), name) {
            assert(crate::store::nodes_view(nodes@)[i as int] == nodes@[i as int]@);
            return true;
        }
        i = i + 1;
    }
    assert(!has_node_at(crate::store::nodes_view(nodes@), ip@, name@)) by {
        if has_node_at(crate::store::nodes_view(nodes@), ip@, name@) {
            let k = choose|k: int|
                0 <= k < nodes@.len() && crate::store::nodes_view(nodes@)[k].ip == ip@
                    && crate::store::nodes_view(nodes@)[k].nodename == name@;
            assert(crate::store::nodes_view(nodes@)[k] == nodes@[k]@);
        }
    }
    false
}

/// The message the panel's clients get when the node answers a ping.
pub fn ping_ok_payload() -> (r: MessagePayload)
    ensures
        r.kind@ == "status"@,
        r.message@ == "ping_ok"@,
        r.authcode@ == "0"@,
{
    MessagePayload { kind: owned("status"), message: owned("ping_ok"), authcode: owned("0") }
}

impl Panel {
    /// What one value from the node does: a `server_state` payload sets the
    /// server's status; a server description sets the keywords and names a
    /// nameless current server; a node that reports itself is stored unless
    /// it is already (see `store_after_value`). Answers whether the value
    /// answers a ping.
    pub fn apply_stream_value(
        &mut self,
        value: &StreamValue,
        inner: &ConsoleInner,
        ip: &str,
        facts: &NodeFacts,
        keywords: &mut StreamKeywords,
    ) -> (r: bool)
        ensures
            r == is_pong(value@),
            final(self).current_node.status == reported_status(value@, old(self).current_node.status),
            final(self).current_node.name == old(self).current_node.name,
            final(self).current_node.ip == old(self).current_node.ip,
            final(self).current_node.nodetype == old(self).current_node.nodetype,
            final(self).current_node.k8s_type == old(self).current_node.k8s_type,
            match value@ {
                StreamValueView::Console { data, .. } if server_description_of(data) is Some => {
                    let k = server_description_of(data).unwrap();
                    &&& final(keywords).start@ == k.0
                    &&& final(keywords).stop@ == k.1
                    &&& opt_server_view(final(self).current_server) == server_after_description(
                        opt_server_view(old(self).current_server),
                        k.2,
                    )
                },
                _ => {
                    &&& final(keywords).start@ == old(keywords).start@
                    &&& final(keywords).stop@ == old(keywords).stop@
                    &&& opt_server_view(final(self).current_server) == opt_server_view(
                        old(self).current_server,
                    )
                },
            },
            final(self).database@ == store_after_value(
                old(self).database@,
                value@,
                inner.command,
                ip@,
                *facts,
            ),
            final(self).lock == old(self).lock,
            final(self).additional_nodes == old(self).additional_nodes,
    {
        let mut pong = false;
        match value {
            StreamValue::Payload(p) => {
                if str_eq(p.kind.as_str(), "server_state") {
                    self.current_node.status = server_state_status(p.message.as_str());
                }
                pong = str_eq(p.message.as_str(), "pong");
            },
            StreamValue::Simple(m) => {
                pong = str_eq(m.message.as_str(), "pong");
            },
            StreamValue::Console(c) => {
                match server_description(c.data.as_str()) {
                    Some((start, stop, name)) => {
                        keywords.start = start;
                        keywords.stop = stop;
                        let rename = match &self.current_server {
                            Some(s) => s.servername.as_str().unicode_len() == 0,
                            None => false,
                        };
                        if rename {
                            let mut s = self.current_server.take().unwrap();
                            s.servername = name;
                            self.current_server = Some(s);
                        }
                    },
                    None => {},
                }
                if contains_str(c.data.as_str(), "\"type\":\"command\"") {
                    match &inner.command {
                        Some(m) => {
                            if str_eq(m.kind.as_str(), "command") {
                                if !node_stored_at(
                                    &self.database.nodes,
                                    ip,
                                    m.message.as_str(),
                                ) {
                                    let node = Node {
                                        nodename: m.message.clone(),
                                        ip: owned(ip),
                                        nodestatus: facts.nodestatus,
                                        nodetype: facts.nodetype.clone(),
                                        k8s_type: facts.k8s_type,
                                    };
                                    let _ = self.database.create_nodes_in_db(
                                        ModifyElementData {
                                            element: Element::Node(node),
                                            jwt: String::new(),
                                            require_auth: false,
                                        },
                                    );
                                }
                            }
                        },
                        None => {},
                    }
                }
            },
            _ => {},
        }
        pong
    }
}

/// How an attempt to reach the node ended.
#[derive(Debug, Clone, Copy, PartialEq, Eq, Structural)]
pub enum ConnectOutcome {
    Connected,
    Refused,
    TimedOut,
}

/// What follows an attempt to reach the node.
#[derive(Debug, Clone, Copy, PartialEq, Eq, Structural)]
pub enum ConnectAction {
    /// Serve the stream.
    Serve,
    /// Wait, then try again.
    Retry,
    /// Stop trying, with an error.
    GiveUp,
}

/// The decision after an attempt: the connection status to record, whether
/// the panel's internal listeners are told the connection ended, and what
/// follows.
#[derive(Debug, Clone, Copy, PartialEq, Eq, Structural)]
pub struct ConnectDecision {
    pub status: Status,
    pub announce_end: bool,
    pub action: ConnectAction,
}

/// Decides after an attempt to reach the node: a connection is up and
/// served; a refusal is down, announced and retried; a timeout is down and
/// retried, unless the caller asked to give up on one.
pub fn connect_step(outcome: ConnectOutcome, end_if_timeout: bool) -> (r: ConnectDecision)
    ensures
        outcome == ConnectOutcome::Connected ==> r == (ConnectDecision {
            status: Status::Up,
            announce_end: false,
            action: ConnectAction::Serve,
        }),
        outcome == ConnectOutcome::Refused ==> r == (ConnectDecision {
            status: Status::Down,
            announce_end: true,
            action: ConnectAction::Retry,
        }),
        outcome == ConnectOutcome::TimedOut ==> r == (ConnectDecision {
            status: Status::Down,
            announce_end: false,
            action: if end_if_timeout {
                ConnectAction::GiveUp
            } else {
                ConnectAction::Retry
            },
        }),
{
    match outcome {
        ConnectOutcome::Connected => ConnectDecision {
            status: Status::Up,
            announce_end: false,
            action: ConnectAction::Serve,
        },
        ConnectOutcome::Refused => ConnectDecision {
            status: Status::Down,
            announce_end: true,
            action: ConnectAction::Retry,
        },
        ConnectOutcome::TimedOut => ConnectDecision {
            status: Status::Down,
            announce_end: false,
            action: if end_if_timeout {
                ConnectAction::GiveUp
            } else {
                ConnectAction::Retry
            },
        },
    }
}

/// The bytes written to the node for a message: a line feed follows it
/// unless a transfer holds the stream.
pub fn outgoing_bytes(message: Vec<u8>, priority: usize) -> (r: Vec<u8>)
    ensures
        priority == 0 ==> r@ == message@.push(10u8),
        priority > 0 ==> r@ == message@,
{
    let mut out = message;
    if priority == 0 {
        out.push(10u8);
    }
    out
}

/// What a line from the node holds once trimmed; nothing when that is
/// empty.
pub fn stream_line(text: &str) -> (r: Option<String>)
    ensures
        crate::text::trim(text@).len() == 0 ==> r is None,
        crate::text::trim(text@).len() > 0 ==> (r matches Some(t) && t@ == crate::text::trim(
            text@,
        )),
{
    let t = crate::text::trim_str(text);
    if t.unicode_len() == 0 {
        None
    } else {
        Some(owned(t))
    }
}

/// Whether the server's process is polled for its state: only while the
/// status is taken from the server process.
pub fn server_polling(status_type: &str) -> (r: bool)
    ensures
        r == (status_type@ == "server-process"@),
{
    str_eq(status_type, "server-process")
}

/// After one attempt of the first connection: a connection that need not
/// be served ends the attempts successfully; otherwise they go on.
pub fn initial_attempt_done(connected: bool, create_handler: bool) -> (r: bool)
    ensures
        r == (connected && !create_handler),
{
    connected && !create_handler
}

/// The messages that open a session with a node: authentication with the
/// node password, the panel's capabilities (`all`), and the request for the
/// node's name; each needs a stream, and those that cannot go are left out.
pub fn session_opening(password: String, ip: String, has_stream: bool) -> (r: Vec<
    crate::transport::OutgoingMessage,
>)
    ensures
        !has_stream ==> r@.len() == 0,
        has_stream ==> r@.len() == 3,
        has_stream ==> (r@[0].body matches crate::transport::Outgoing::Auth(a) && a.password@
            == password@),
        has_stream ==> (r@[1].body matches crate::transport::Outgoing::Capabilities(c) && c@.len()
            == 1 && c@[0]@ == "all"@),
        has_stream ==> crate::transport::command_payload(r@[2], "server_name"@, "0"@),
{
    let mut out: Vec<crate::transport::OutgoingMessage> = Vec::new();
    let auth = crate::transport::PasswordRequest { password };
    if let Ok(m) = auth.plan(has_stream) {
        out.push(m);
    }
    let mut caps: Vec<String> = Vec::new();
    caps.push(owned("all"));
    let capabilities = crate::transport::CapabilitiesRequest { capabilities: caps };
    let ghost wanted = capabilities.capabilities@.map_values(|s: String| s@);
    assert(wanted.len() == 1 && wanted[0] == "all"@);
    if let Ok(m) = capabilities.plan(has_stream) {
        proof {
            match &m.body {
                crate::transport::Outgoing::Capabilities(c) => {
                    assert(c@.map_values(|s: String| s@) == wanted);
                    assert(c@.map_values(|s: String| s@).len() == c@.len());
                    assert(c@.map_values(|s: String| s@)[0] == c@[0]@);
                },
                _ => {},
            }
        }
        out.push(m);
    }
    let name = crate::transport::ServernameRequest { ip };
    if let Ok(m) = name.plan(has_stream) {
        out.push(m);
    }
    out
}

/// What the cluster said of a node that reported itself: whether it
/// confirmed in time that the node is one of its game servers, whether the
/// node is one, and the node's Kubernetes type.
pub struct ClusterAnswer {
    pub confirmed_in_time: Option<bool>,
    pub is_gameserver: bool,
    pub k8s_type: K8sType,
}

/// The facts a reporting node is stored with: outside a cluster an enabled
/// custom node of no Kubernetes type; in one, enabled for good when the
/// cluster confirmed it in time as a game server, built in when it is
/// one (else custom), with the type the cluster gives.
pub fn node_facts(cluster: Option<ClusterAnswer>) -> (r: NodeFacts)
    ensures
        match cluster {
            None => r.nodestatus == NodeStatus::Enabled && r.nodetype@ == NodeTypeView::Custom(None)
                && r.k8s_type == K8sType::NoType,
            Some(a) => {
                &&& r.nodestatus == if a.confirmed_in_time == Some(true) {
                    NodeStatus::ImmutablyEnabled
                } else {
                    NodeStatus::Enabled
                }
                &&& r.nodetype@ == if a.is_gameserver {
                    NodeTypeView::Inbuilt
                } else {
                    NodeTypeView::Custom(None)
                }
                &&& r.k8s_type == a.k8s_type
            },
        },
{
    match cluster {
        None => NodeFacts {
            nodestatus: NodeStatus::Enabled,
            nodetype: NodeType::Custom(None),
            k8s_type: K8sType::NoType,
        },
        Some(a) => NodeFacts {
            nodestatus: match a.confirmed_in_time {
                Some(true) => NodeStatus::ImmutablyEnabled,
                _ => NodeStatus::Enabled,
            },
            nodetype: if a.is_gameserver {
                NodeType::Inbuilt
            } else {
                NodeType::Custom(None)
            },
            k8s_type: a.k8s_type,
        },
    }
}

} // verus!
