//! Turning on RCON in a Minecraft `server.properties` text: the
//! `enable-rcon` entry is set to `true`, an empty RCON password gets a
//! placeholder, and missing entries are appended.
use vstd::prelude::*;
use crate::text::{
    trim, is_space, has_prefix, trim_str, starts_with, chars_of, string_from_chars, owned,
};

verus! {

/// `l` without a final carriage return.
pub open spec fn strip_cr(l: Seq<char>) -> Seq<char> {
    if l.len() > 0 && l.last() == '\r' {
        l.drop_last()
    } else {
        l
    }
}

/// The position of the first line feed at or after `pos`.
pub open spec fn next_newline(s: Seq<char>, pos: int) -> Option<int>
    decreases s.len() - pos,
{
    if pos < 0 || pos >= s.len() {
        None
    } else if s[pos] == '\n' {
        Some(pos)
    } else {
        next_newline(s, pos + 1)
    }
}

pub proof fn lemma_next_newline_bounds(s: Seq<char>, pos: int)
    requires
        0 <= pos,
    ensures
        next_newline(s, pos) matches Some(p) ==> pos <= p < s.len() && s[p] == '\n',
        next_newline(s, pos) is None ==> forall|j: int| pos <= j < s.len() ==> s[j] != '\n',
    decreases s.len() - pos,
{
    if 0 <= pos < s.len() && s[pos] != '\n' {
        lemma_next_newline_bounds(s, pos + 1);
    }
}

/// The lines of `s` from `pos` on, as `str::lines` splits them: at each line
/// feed, dropping a carriage return before it; a final line feed ends the
/// last line rather than starting an empty one.
pub open spec fn lines_from(s: Seq<char>, pos: int) -> Seq<Seq<char>>
    decreases s.len() - pos,
{
    if pos < 0 || pos >= s.len() {
        Seq::empty()
    } else {
        match next_newline(s, pos) {
            None => seq![s.subrange(pos, s.len() as int)],
            Some(p) => {
                proof {
                    lemma_next_newline_bounds(s, pos);
                }
                seq![strip_cr(s.subrange(pos, p))] + lines_from(s, p + 1)
            },
        }
    }
}

/// The lines of `s`.
pub open spec fn text_lines(s: Seq<char>) -> Seq<Seq<char>> {
    lines_from(s, 0)
}

/// The lines joined with line feeds between them.
pub open spec fn joined(ls: Seq<Seq<char>>) -> Seq<char>
    decreases ls.len(),
{
    if ls.len() == 0 {
        Seq::empty()
    } else if ls.len() == 1 {
        ls[0]
    } else {
        joined(ls.drop_last()) + seq!['\n'] + ls.last()
    }
}

/// The line is a comment or blank once trimmed.
pub open spec fn is_inert(line: Seq<char>) -> bool {
    trim(line).len() == 0 || trim(line)[0] == '#'
}

/// The line sets `enable-rcon`.
pub open spec fn is_enable_line(line: Seq<char>) -> bool {
    !is_inert(line) && has_prefix(trim(line), "enable-rcon="@)
}

/// The line sets `rcon.password`.
pub open spec fn is_password_line(line: Seq<char>) -> bool {
    !is_inert(line) && !has_prefix(trim(line), "enable-rcon="@) && has_prefix(
        trim(line),
        "rcon.password="@,
    )
}

/// The line sets a non-empty `rcon.password`.
pub open spec fn has_password(line: Seq<char>) -> bool {
    is_password_line(line) && trim(
        trim(line).subrange("rcon.password="@.len() as int, trim(line).len() as int),
    ).len() > 0
}

/// The line sets `rcon.port`.
pub open spec fn is_port_line(line: Seq<char>) -> bool {
    !is_inert(line) && !has_prefix(trim(line), "enable-rcon="@) && !has_prefix(
        trim(line),
        "rcon.password="@,
    ) && has_prefix(trim(line), "rcon.port="@)
}

/// A line after the rewrite: `enable-rcon` becomes `true`, an empty
/// password becomes `changeme`, every other line stays.
pub open spec fn rewrite_line(line: Seq<char>) -> Seq<char> {
    if is_enable_line(line) {
        "enable-rcon=true"@
    } else if is_password_line(line) && !has_password(line) {
        "rcon.password=changeme"@
    } else {
        line
    }
}

/// The lines appended for what no line set.
pub open spec fn missing_lines(ls: Seq<Seq<char>>) -> Seq<Seq<char>> {
    (if exists|i: int| 0 <= i < ls.len() && is_enable_line(ls[i]) {
        Seq::<Seq<char>>::empty()
    } else {
        seq!["enable-rcon=true"@]
    }) + (if exists|i: int| 0 <= i < ls.len() && has_password(ls[i]) {
        Seq::<Seq<char>>::empty()
    } else {
        seq!["rcon.password=changeme"@]
    }) + (if exists|i: int| 0 <= i < ls.len() && is_port_line(ls[i]) {
        Seq::<Seq<char>>::empty()
    } else {
        seq!["rcon.port=25575"@]
    })
}

/// The properties text with RCON turned on: the rewritten lines, then the
/// missing ones, each ending with a line feed.
pub open spec fn rcon_enabled_properties(content: Seq<char>) -> Seq<char> {
    let ls = text_lines(content);
    joined(ls.map_values(|l: Seq<char>| rewrite_line(l)) + missing_lines(ls)) + seq!['\n']
}

fn copy_range(v: &Vec<char>, from: usize, to: usize) -> (r: Vec<char>)
    requires
        from <= to <= v@.len(),
    ensures
        r@ == v@.subrange(from as int, to as int),
{
    let mut out: Vec<char> = Vec::new();
    let mut i = from;
    while i < to
        invariant
            from <= i <= to,
            to <= v@.len(),
            out@ == v@.subrange(from as int, i as int),
        decreases to - i,
    {
        out.push(v[i]);
        i = i + 1;
        assert(out@ =~= v@.subrange(from as int, i as int));
    }
    out
}

/// The lines of a text, as `str::lines` gives them.
pub fn split_lines(content: &str) -> (r: Vec<String>)
    ensures
        r@.map_values(|l: String| l@) == text_lines(content@),
{
    let v = chars_of(content);
    let n = v.len();
    let mut out: Vec<String> = Vec::new();
    let mut pos: usize = 0;
    while pos < n
        invariant
            n == v@.len(),
            v@ == content@,
            pos <= n,
            out@.map_values(|l: String| l@) + lines_from(v@, pos as int) == text_lines(v@),
        decreases n - pos,
    {
        let ghost before = out@.map_values(|l: String| l@);
        let mut p = pos;
        while p < n && v[p] != '\n'
            invariant
                pos <= p <= n,
                n == v@.len(),
                next_newline(v@, pos as int) == next_newline(v@, p as int),
            decreases n - p,
        {
            p = p + 1;
        }
        if p == n {
            let line = copy_range(&v, pos, n);
            out.push(string_from_chars(&line));
            assert(out@.map_values(|l: String| l@) =~= before.push(v@.subrange(pos as int, n as int)));
            assert(lines_from(v@, n as int) =~= Seq::<Seq<char>>::empty());
            assert(out@.map_values(|l: String| l@) + lines_from(v@, n as int) =~= before
                + lines_from(v@, pos as int));
            pos = n;
        } else {
            let mut line = copy_range(&v, pos, p);
            if line.len() > 0 && line[line.len() - 1] == '\r' {
                line.pop();
            }
            assert(line@ == strip_cr(v@.subrange(pos as int, p as int)));
            out.push(string_from_chars(&line));
            assert(out@.map_values(|l: String| l@) =~= before.push(line@));
            assert(out@.map_values(|l: String| l@) + lines_from(v@, p + 1) =~= before
                + lines_from(v@, pos as int));
            pos = p + 1;
        }
    }
    assert(lines_from(v@, pos as int) =~= Seq::<Seq<char>>::empty());
    assert(out@.map_values(|l: String| l@) + Seq::<Seq<char>>::empty() =~= out@.map_values(
        |l: String| l@,
    ));
    out
}

/// How one line is classified and rewritten.
struct LineOutcome {
    line: String,
    enables: bool,
    password: bool,
    port: bool,
}

fn rewrite_one(line: String) -> (r: LineOutcome)
    ensures
        r.line@ == rewrite_line(line@),
        r.enables == is_enable_line(line@),
        r.password == has_password(line@),
        r.port == is_port_line(line@),
{
    let t = trim_str(line.as_str());
    if t.unicode_len() == 0 || t.get_char(0) == '#' {
        return LineOutcome { line, enables: false, password: false, port: false };
    }
    if starts_with(t, "enable-rcon=") {
        return LineOutcome {
            line: owned("enable-rcon=true"),
            enables: true,
            password: false,
            port: false,
        };
    }
    if starts_with(t, "rcon.password=") {
        proof {
            reveal_strlit("rcon.password=");
        }
        let value = t.substring_char(14, t.unicode_len());
        let v = trim_str(value);
        if v.unicode_len() > 0 {
            return LineOutcome { line, enables: false, password: true, port: false };
        } else {
            return LineOutcome {
                line: owned("rcon.password=changeme"),
                enables: false,
                password: false,
                port: false,
            };
        }
    }
    let port = starts_with(t, "rcon.port=");
    LineOutcome { line, enables: false, password: false, port }
}

/// Appends `b` to `a`.
fn push_str(a: &mut String, b: &str)
    ensures
        final(a)@ == old(a)@ + b@,
{
    a.append(b);
}

/// Sets RCON up in a `server.properties` text (see `rcon_enabled_properties`).
pub fn enable_rcon_properties(content: &str) -> (r: String)
    ensures
        r@ == rcon_enabled_properties(content@),
{
    let lines = split_lines(content);
    let ghost ls = lines@.map_values(|l: String| l@);
    let mut rewritten: Vec<String> = Vec::new();
    let mut enabled = false;
    let mut password = false;
    let mut port = false;
    let mut i: usize = 0;
    while i < lines.len()
        invariant
            i <= lines@.len(),
            ls == lines@.map_values(|l: String| l@),
            rewritten@.len() == i,
            forall|j: int| 0 <= j < i ==> rewritten@[j]@ == rewrite_line(ls[j]),
            enabled == exists|j: int| 0 <= j < i && is_enable_line(ls[j]),
            password == exists|j: int| 0 <= j < i && has_password(ls[j]),
            port == exists|j: int| 0 <= j < i && is_port_line(ls[j]),
        decreases lines@.len() - i,
    {
        let o = rewrite_one(lines[i].clone());
        assert(ls[i as int] == lines@[i as int]@);
        rewritten.push(o.line);
        enabled = enabled || o.enables;
        password = password || o.password;
        port = port || o.port;
        i = i + 1;
        proof {
            if enabled {
                if !(exists|j: int| 0 <= j < i - 1 && is_enable_line(ls[j])) {
                    assert(is_enable_line(ls[i - 1]));
                }
            }
            if password {
                if !(exists|j: int| 0 <= j < i - 1 && has_password(ls[j])) {
                    assert(has_password(ls[i - 1]));
                }
            }
            if port {
                if !(exists|j: int| 0 <= j < i - 1 && is_port_line(ls[j])) {
                    assert(is_port_line(ls[i - 1]));
                }
            }
        }
    }
    let ghost body = rewritten@.map_values(|l: String| l@);
    assert(body =~= ls.map_values(|l: Seq<char>| rewrite_line(l)));
    if !enabled {
        rewritten.push(owned("enable-rcon=true"));
    }
    if !password {
        rewritten.push(owned("rcon.password=changeme"));
    }
    if !port {
        rewritten.push(owned("rcon.port=25575"));
    }
    let ghost all = rewritten@.map_values(|l: String| l@);
    assert(all =~= body + missing_lines(ls));
    let mut out = String::new();
    let mut k: usize = 0;
    while k < rewritten.len()
        invariant
            k <= rewritten@.len(),
            all == rewritten@.map_values(|l: String| l@),
            out@ == joined(all.subrange(0, k as int)),
        decreases rewritten@.len() - k,
    {
        proof {
            reveal_strlit("\n");
        }
        if k > 0 {
            push_str(&mut out, "\n");
        }
        push_str(&mut out, rewritten[k].as_str());
        proof {
            let next = all.subrange(0, k + 1);
            assert(next.drop_last() =~= all.subrange(0, k as int));
            assert(next.last() == all[k as int]);
            if k == 0 {
                assert(joined(all.subrange(0, 0)) =~= Seq::<char>::empty());
                assert(out@ =~= joined(next));
            } else {
                assert(out@ =~= joined(next));
            }
        }
        k = k + 1;
    }
    proof {
        reveal_strlit("\n");
        assert(all.subrange(0, all.len() as int) =~= all);
    }
    push_str(&mut out, "\n");
    out
}

/// The line holds no line feed.
pub open spec fn no_newline(l: Seq<char>) -> bool {
    forall|j: int| 0 <= j < l.len() ==> l[j] != '\n'
}

/// The line ends with a carriage return.
pub open spec fn ends_with_cr(l: Seq<char>) -> bool {
    l.len() > 0 && l.last() == '\r'
}

/// The line reads back as itself once written with a line feed after it.
pub open spec fn plain_line(l: Seq<char>) -> bool {
    no_newline(l) && !ends_with_cr(l)
}

/// The lines each followed by a line feed.
pub open spec fn terminated(ls: Seq<Seq<char>>) -> Seq<char>
    decreases ls.len(),
{
    if ls.len() == 0 {
        Seq::empty()
    } else {
        ls[0] + seq!['\n'] + terminated(ls.drop_first())
    }
}

proof fn lemma_next_newline_first(s: Seq<char>, pos: int)
    requires
        0 <= pos,
    ensures
        next_newline(s, pos) matches Some(p) ==> forall|j: int| pos <= j < p ==> s[j] != '\n',
    decreases s.len() - pos,
{
    if 0 <= pos < s.len() && s[pos] != '\n' {
        lemma_next_newline_first(s, pos + 1);
    }
}

proof fn lemma_lines_are_single(s: Seq<char>, pos: int)
    requires
        0 <= pos,
    ensures
        forall|i: int|
            0 <= i < lines_from(s, pos).len() ==> no_newline(#[trigger] lines_from(s, pos)[i]),
    decreases s.len() - pos,
{
    if pos < s.len() {
        lemma_next_newline_bounds(s, pos);
        lemma_next_newline_first(s, pos);
        match next_newline(s, pos) {
            None => {
                let l = s.subrange(pos, s.len() as int);
                assert forall|j: int| 0 <= j < l.len() implies l[j] != '\n' by {
                    assert(l[j] == s[pos + j]);
                }
                assert(lines_from(s, pos) =~= seq![l]);
            },
            Some(p) => {
                lemma_lines_are_single(s, p + 1);
                let l0 = s.subrange(pos, p);
                let l = strip_cr(l0);
                assert forall|j: int| 0 <= j < l.len() implies l[j] != '\n' by {
                    assert(l[j] == l0[j]);
                    assert(l0[j] == s[pos + j]);
                }
                let rest = lines_from(s, p + 1);
                assert(lines_from(s, pos) == seq![l] + rest);
                assert forall|i: int| 0 <= i < lines_from(s, pos).len() implies no_newline(
                    #[trigger] lines_from(s, pos)[i],
                ) by {
                    if i > 0 {
                        assert(lines_from(s, pos)[i] == rest[i - 1]);
                    }
                }
            },
        }
    }
}

proof fn lemma_terminated_push(ls: Seq<Seq<char>>, x: Seq<char>)
    ensures
        terminated(ls.push(x)) == terminated(ls) + x + seq!['\n'],
    decreases ls.len(),
{
    if ls.len() == 0 {
        assert(ls.push(x).drop_first() =~= Seq::<Seq<char>>::empty());
        assert(terminated(Seq::<Seq<char>>::empty()) =~= Seq::<char>::empty());
        assert(ls.push(x)[0] == x);
        assert(terminated(ls.push(x)) =~= x + seq!['\n'] + Seq::<char>::empty());
        assert(terminated(ls.push(x)) =~= x + seq!['\n']);
        assert(terminated(ls) + x + seq!['\n'] =~= x + seq!['\n']);
    } else {
        assert(ls.push(x).drop_first() =~= ls.drop_first().push(x));
        lemma_terminated_push(ls.drop_first(), x);
        assert(terminated(ls.push(x)) =~= ls[0] + seq!['\n'] + (terminated(ls.drop_first()) + x
            + seq!['\n']));
        assert(terminated(ls.push(x)) =~= terminated(ls) + x + seq!['\n']);
    }
}

proof fn lemma_joined_terminated(ls: Seq<Seq<char>>)
    requires
        ls.len() > 0,
    ensures
        joined(ls) + seq!['\n'] == terminated(ls),
    decreases ls.len(),
{
    if ls.len() == 1 {
        assert(ls.drop_first() =~= Seq::<Seq<char>>::empty());
        assert(terminated(Seq::<Seq<char>>::empty()) =~= Seq::<char>::empty());
        assert(terminated(ls) =~= ls[0] + seq!['\n'] + Seq::<char>::empty());
        assert(terminated(ls) =~= ls[0] + seq!['\n']);
    } else {
        let init = ls.drop_last();
        lemma_joined_terminated(init);
        lemma_terminated_push(init, ls.last());
        assert(init.push(ls.last()) =~= ls);
        assert(joined(ls) + seq!['\n'] =~= (joined(init) + seq!['\n']) + ls.last() + seq!['\n']);
    }
}

proof fn lemma_next_newline_shift(x: Seq<char>, y: Seq<char>, k: int)
    requires
        0 <= k,
    ensures
        next_newline(x + y, x.len() + k) == match next_newline(y, k) {
            Some(p) => Some(p + x.len()),
            None => None::<int>,
        },
    decreases y.len() - k,
{
    if k < y.len() {
        assert((x + y)[x.len() + k] == y[k]);
        if y[k] != '\n' {
            lemma_next_newline_shift(x, y, k + 1);
        }
    }
}

proof fn lemma_lines_from_shift(x: Seq<char>, y: Seq<char>, k: int)
    requires
        0 <= k,
    ensures
        lines_from(x + y, x.len() + k) == lines_from(y, k),
    decreases y.len() - k,
{
    let s = x + y;
    if k < y.len() {
        lemma_next_newline_shift(x, y, k);
        lemma_next_newline_bounds(y, k);
        match next_newline(y, k) {
            None => {
                assert(s.subrange(x.len() + k, s.len() as int) =~= y.subrange(k, y.len() as int));
            },
            Some(p) => {
                assert(s.subrange(x.len() + k, x.len() + p) =~= y.subrange(k, p));
                lemma_lines_from_shift(x, y, p + 1);
            },
        }
    }
}

proof fn lemma_newline_after(l: Seq<char>, t: Seq<char>, k: int)
    requires
        no_newline(l),
        0 <= k <= l.len(),
    ensures
        next_newline(l + seq!['\n'] + t, k) == Some(l.len() as int),
    decreases l.len() - k,
{
    let s = l + seq!['\n'] + t;
    if k < l.len() {
        assert(s[k] == l[k]);
        lemma_newline_after(l, t, k + 1);
    } else {
        assert(s[k] == '\n');
    }
}

proof fn lemma_lines_of_terminated(ls: Seq<Seq<char>>)
    requires
        forall|i: int| 0 <= i < ls.len() ==> plain_line(#[trigger] ls[i]),
    ensures
        text_lines(terminated(ls)) == ls,
    decreases ls.len(),
{
    if ls.len() == 0 {
        assert(terminated(ls) =~= Seq::<char>::empty());
        assert(text_lines(terminated(ls)) =~= ls);
    } else {
        let l = ls[0];
        let rest = ls.drop_first();
        assert(plain_line(l));
        assert forall|i: int| 0 <= i < rest.len() implies plain_line(#[trigger] rest[i]) by {
            assert(rest[i] == ls[i + 1]);
        }
        lemma_lines_of_terminated(rest);
        let x = l + seq!['\n'];
        let y = terminated(rest);
        let s = terminated(ls);
        assert(s =~= x + y);
        lemma_newline_after(l, y, 0);
        assert(l + seq!['\n'] + y =~= s);
        assert(s.subrange(0, l.len() as int) =~= l);
        assert(strip_cr(l) == l);
        lemma_lines_from_shift(x, y, 0);
        assert(lines_from(s, l.len() as int + 1) == lines_from(y, 0));
        assert(lines_from(s, 0) == seq![l] + lines_from(s, l.len() as int + 1));
        assert(seq![l] + rest =~= ls);
    }
}

proof fn lemma_trim_plain(s: Seq<char>)
    requires
        s.len() > 0,
        !is_space(s[0]),
        !is_space(s.last()),
    ensures
        trim(s) == s,
{
}

proof fn lemma_rcon_constants()
    ensures
        is_enable_line("enable-rcon=true"@),
        !is_enable_line("rcon.password=changeme"@),
        has_password("rcon.password=changeme"@),
        !is_enable_line("rcon.port=25575"@),
        !is_password_line("rcon.port=25575"@),
        is_port_line("rcon.port=25575"@),
        plain_line("enable-rcon=true"@),
        plain_line("rcon.password=changeme"@),
        plain_line("rcon.port=25575"@),
{
    reveal_strlit("enable-rcon=true");
    reveal_strlit("rcon.password=changeme");
    reveal_strlit("rcon.port=25575");
    reveal_strlit("enable-rcon=");
    reveal_strlit("rcon.password=");
    reveal_strlit("rcon.port=");
    reveal_strlit("changeme");
    let e = "enable-rcon=true"@;
    let p = "rcon.password=changeme"@;
    let q = "rcon.port=25575"@;
    lemma_trim_plain(e);
    lemma_trim_plain(p);
    lemma_trim_plain(q);
    assert(e.subrange(0, 12) =~= "enable-rcon="@);
    assert(p.subrange(0, 12)[0] != "enable-rcon="@[0]);
    assert(p.subrange(0, 14) =~= "rcon.password="@);
    let v = p.subrange(14, p.len() as int);
    assert(v =~= "changeme"@);
    lemma_trim_plain(v);
    assert(q.subrange(0, 12)[0] != "enable-rcon="@[0]);
    assert(q.subrange(0, 14)[6] != "rcon.password="@[6]);
    assert(q.subrange(0, 10) =~= "rcon.port="@);
}

proof fn lemma_rewrite_twice(l: Seq<char>)
    ensures
        rewrite_line(rewrite_line(l)) == rewrite_line(l),
        plain_line(l) ==> plain_line(rewrite_line(l)),
        no_newline(l) ==> no_newline(rewrite_line(l)),
        is_enable_line(l) ==> is_enable_line(rewrite_line(l)),
        has_password(l) ==> has_password(rewrite_line(l)),
        is_port_line(l) ==> is_port_line(rewrite_line(l)),
{
    lemma_rcon_constants();
}

/// Turning RCON on in a properties text that already had it turned on gives
/// the same text again, unless a line that the rewrite keeps as it is ends
/// with a carriage return (which the second reading of the lines drops).
pub proof fn lemma_enable_rcon_twice(content: Seq<char>)
    requires
        forall|i: int| 0 <= i < text_lines(content).len() ==> !ends_with_cr(
            rewrite_line(#[trigger] text_lines(content)[i]),
        ),
    ensures
        rcon_enabled_properties(rcon_enabled_properties(content)) == rcon_enabled_properties(
            content,
        ),
{
    let ls = text_lines(content);
    let rw = ls.map_values(|l: Seq<char>| rewrite_line(l));
    let miss = missing_lines(ls);
    let once = rw + miss;
    lemma_rcon_constants();
    lemma_lines_are_single(content, 0);
    assert forall|i: int| 0 <= i < once.len() implies plain_line(#[trigger] once[i]) by {
        if i < rw.len() {
            assert(no_newline(ls[i]));
            lemma_rewrite_twice(ls[i]);
            assert(!ends_with_cr(rewrite_line(ls[i])));
        } else {
            let m = i - rw.len();
            assert(once[i] == miss[m]);
        }
    }
    assert(once.len() > 0) by {
        if ls.len() == 0 {
            assert(miss.len() == 3);
        }
    }
    lemma_joined_terminated(once);
    lemma_lines_of_terminated(once);
    assert(text_lines(rcon_enabled_properties(content)) == once);
    // The lines read back are turned on already: rewriting keeps them and
    // nothing is missing.
    let rw2 = once.map_values(|l: Seq<char>| rewrite_line(l));
    assert forall|i: int| 0 <= i < once.len() implies #[trigger] rw2[i] == once[i] by {
        if i < rw.len() {
            lemma_rewrite_twice(ls[i]);
        } else {
            assert(once[i] == miss[i - rw.len()]);
        }
    }
    assert(rw2 =~= once);
    assert(exists|i: int| 0 <= i < once.len() && is_enable_line(once[i])) by {
        if exists|i: int| 0 <= i < ls.len() && is_enable_line(ls[i]) {
            let i = choose|i: int| 0 <= i < ls.len() && is_enable_line(ls[i]);
            lemma_rewrite_twice(ls[i]);
            assert(is_enable_line(once[i]));
        } else {
            assert(once[rw.len() as int] == "enable-rcon=true"@);
        }
    }
    assert(exists|i: int| 0 <= i < once.len() && has_password(once[i])) by {
        if exists|i: int| 0 <= i < ls.len() && has_password(ls[i]) {
            let i = choose|i: int| 0 <= i < ls.len() && has_password(ls[i]);
            lemma_rewrite_twice(ls[i]);
            assert(has_password(once[i]));
        } else {
            let k = if exists|i: int| 0 <= i < ls.len() && is_enable_line(ls[i]) {
                0int
            } else {
                1int
            };
            assert(once[rw.len() + k] == "rcon.password=changeme"@);
        }
    }
    assert(exists|i: int| 0 <= i < once.len() && is_port_line(once[i])) by {
        if exists|i: int| 0 <= i < ls.len() && is_port_line(ls[i]) {
            let i = choose|i: int| 0 <= i < ls.len() && is_port_line(ls[i]);
            lemma_rewrite_twice(ls[i]);
            assert(is_port_line(once[i]));
        } else {
            assert(once[once.len() - 1] == "rcon.port=25575"@);
        }
    }
    assert(missing_lines(once) =~= Seq::<Seq<char>>::empty());
    assert(rw2 + missing_lines(once) =~= once);
}

} // verus!
