//! Deploying the game server: which files go into the image's build
//! context, how the image is tagged and pushed, and how a manifest file is
//! cut into its documents. Walking the disk, talking to Docker and to the
//! cluster is the caller's.
use vstd::prelude::*;
use crate::text::{
    str_eq, starts_with, has_prefix, trim, trim_str, owned, concat2, occurs_at, contains_text,
    contains_str,
};

verus! {

/// `i` is the first position at which `s` holds `pat`.
pub open spec fn first_occurrence(s: Seq<char>, pat: Seq<char>, i: int) -> bool {
    occurs_at(s, pat, i) && forall|j: int| 0 <= j < i ==> !occurs_at(s, pat, j)
}

/// The pieces of `s` between the occurrences of `pat` (a non-empty
/// pattern), found from the left without overlap, as `str::split` cuts.
pub open spec fn split_pieces(s: Seq<char>, pat: Seq<char>) -> Seq<Seq<char>>
    decreases s.len(),
{
    if pat.len() > 0 && exists|i: int| first_occurrence(s, pat, i) {
        let i = choose|i: int| first_occurrence(s, pat, i);
        seq![s.subrange(0, i)] + split_pieces(s.subrange(i + pat.len() as int, s.len() as int), pat)
    } else {
        seq![s]
    }
}

/// The documents of a manifest: its pieces between `---` markers, trimmed,
/// empty ones left out.
pub open spec fn yaml_documents_of(text: Seq<char>) -> Seq<Seq<char>> {
    split_pieces(text, "---"@).map_values(|p: Seq<char>| trim(p)).filter(
        |p: Seq<char>| p.len() > 0,
    )
}

fn occurs_here(s: &Vec<char>, pat: &Vec<char>, i: usize) -> (r: bool)
    requires
        i <= s@.len(),
    ensures
        r == occurs_at(s@, pat@, i as int),
{
    if pat.len() > s.len() - i {
        return false;
    }
    let mut k: usize = 0;
    while k < pat.len()
        invariant
            k <= pat@.len(),
            i + pat@.len() <= s@.len(),
            forall|m: int| 0 <= m < k ==> s@[i + m] == pat@[m],
        decreases pat@.len() - k,
    {
        assert(i + k < s.len());
        if s[i + k] != pat[k] {
            assert(s@.subrange(i as int, i + pat@.len())[k as int] != pat@[k as int]);
            return false;
        }
        k = k + 1;
    }
    assert(s@.subrange(i as int, i + pat@.len()) =~= pat@);
    true
}

fn text_of(v: &Vec<char>, from: usize, to: usize) -> (r: String)
    requires
        from <= to <= v@.len(),
    ensures
        r@ == v@.subrange(from as int, to as int),
{
    let mut part: Vec<char> = Vec::new();
    let mut k: usize = from;
    while k < to
        invariant
            from <= k <= to,
            to <= v@.len(),
            part@ == v@.subrange(from as int, k as int),
        decreases to - k,
    {
        part.push(v[k]);
        assert(v@.subrange(from as int, k + 1) =~= v@.subrange(from as int, k as int).push(v@[k as int]));
        k = k + 1;
    }
    crate::text::string_from_chars(&part)
}

proof fn lemma_split_step(s: Seq<char>, pat: Seq<char>, start: int, i: int)
    requires
        pat.len() > 0,
        0 <= start <= i,
        start <= s.len(),
        first_occurrence(s.subrange(start, s.len() as int), pat, i - start),
    ensures
        split_pieces(s.subrange(start, s.len() as int), pat) == seq![s.subrange(start, i)]
            + split_pieces(s.subrange(i + pat.len(), s.len() as int), pat),
{
    let t = s.subrange(start, s.len() as int);
    let w = choose|j: int| first_occurrence(t, pat, j);
    assert(first_occurrence(t, pat, w));
    if w < i - start {
        assert(!occurs_at(t, pat, w));
    }
    if i - start < w {
        assert(!occurs_at(t, pat, i - start));
    }
    assert(w == i - start);
    assert(t.subrange(0, w) =~= s.subrange(start, i));
    assert(t.subrange(w + pat.len(), t.len() as int) =~= s.subrange(i + pat.len(), s.len() as int));
}

/// Cuts a text at each occurrence of a non-empty pattern (see
/// `split_pieces`).
pub fn split_text(text: &str, pat: &str) -> (r: Vec<String>)
    requires
        pat@.len() > 0,
    ensures
        r@.map_values(|p: String| p@) == split_pieces(text@, pat@),
{
    let s = crate::text::chars_of(text);
    let p = crate::text::chars_of(pat);
    let mut out: Vec<String> = Vec::new();
    let mut start: usize = 0;
    let mut i: usize = 0;
    assert(s@.subrange(0, s@.len() as int) =~= s@);
    assert(out@.map_values(|x: String| x@) + split_pieces(s@, p@) =~= split_pieces(s@, p@));
    while i < s.len()
        invariant
            start <= i <= s@.len(),
            s@ == text@,
            p@ == pat@,
            p@.len() > 0,
            forall|j: int| start <= j < i ==> !occurs_at(s@, p@, j),
            out@.map_values(|x: String| x@) + split_pieces(s@.subrange(start as int, s@.len() as int), p@)
                == split_pieces(s@, p@),
        decreases s@.len() - i,
    {
        if occurs_here(&s, &p, i) {
            proof {
                let t = s@.subrange(start as int, s@.len() as int);
                assert forall|j: int| 0 <= j < i - start implies !occurs_at(t, p@, j) by {
                    assert(!occurs_at(s@, p@, start + j));
                    if occurs_at(t, p@, j) {
                        assert(t.subrange(j, j + p@.len()) =~= s@.subrange(start + j, start + j + p@.len()));
                    }
                }
                assert(t.subrange(i - start, i - start + p@.len()) =~= s@.subrange(i as int, i + p@.len()));
                assert(first_occurrence(t, p@, i - start));
                lemma_split_step(s@, p@, start as int, i as int);
            }
            let piece = text_of(&s, start, i);
            let ghost before = out@.map_values(|x: String| x@);
            out.push(piece);
            assert(out@.map_values(|x: String| x@) =~= before.push(s@.subrange(start as int, i as int)));
            assert(before + (seq![s@.subrange(start as int, i as int)] + split_pieces(
                s@.subrange(i + p@.len(), s@.len() as int),
                p@,
            )) =~= before.push(s@.subrange(start as int, i as int)) + split_pieces(
                s@.subrange(i + p@.len(), s@.len() as int),
                p@,
            ));
            start = i + p.len();
            i = start;
        } else {
            i = i + 1;
        }
    }
    proof {
        let t = s@.subrange(start as int, s@.len() as int);
        assert forall|j: int| !first_occurrence(t, p@, j) by {
            if first_occurrence(t, p@, j) {
                assert(t.subrange(j, j + p@.len()) =~= s@.subrange(start + j, start + j + p@.len()));
                assert(occurs_at(s@, p@, start + j));
            }
        }
        assert(split_pieces(t, p@) == seq![t]);
    }
    let last = text_of(&s, start, s.len());
    let ghost before = out@.map_values(|x: String| x@);
    out.push(last);
    assert(out@.map_values(|x: String| x@) =~= before.push(s@.subrange(start as int, s@.len() as int)));
    assert(before + seq![s@.subrange(start as int, s@.len() as int)] =~= before.push(
        s@.subrange(start as int, s@.len() as int),
    ));
    out
}

/// The documents of a manifest (see `yaml_documents_of`).
pub fn yaml_documents(text: &str) -> (r: Vec<String>)
    ensures
        r@.map_values(|p: String| p@) == yaml_documents_of(text@),
{
    proof {
        reveal_strlit("---");
    }
    let pieces = split_text(text, "---");
    let ghost ps = pieces@.map_values(|p: String| p@);
    let ghost trimmed = ps.map_values(|p: Seq<char>| trim(p));
    let mut out: Vec<String> = Vec::new();
    let mut i: usize = 0;
    while i < pieces.len()
        invariant
            i <= pieces@.len(),
            ps == pieces@.map_values(|p: String| p@),
            trimmed == ps.map_values(|p: Seq<char>| trim(p)),
            out@.map_values(|p: String| p@) == trimmed.subrange(0, i as int).filter(
                |p: Seq<char>| p.len() > 0,
            ),
        decreases pieces@.len() - i,
    {
        let t = trim_str(pieces[i].as_str());
        assert(trimmed.subrange(0, i + 1).drop_last() =~= trimmed.subrange(0, i as int));
        let ghost before = out@.map_values(|p: String| p@);
        proof {
            trimmed.subrange(0, i as int).lemma_filter_push(trimmed[i as int], |p: Seq<char>| p.len() > 0);
            assert(trimmed.subrange(0, i + 1) =~= trimmed.subrange(0, i as int).push(trimmed[i as int]));
        }
        if t.unicode_len() > 0 {
            out.push(owned(t));
            assert(out@.map_values(|p: String| p@) =~= before.push(t@));
        }
        i = i + 1;
    }
    assert(trimmed.subrange(0, pieces@.len() as int) =~= trimmed);
    out
}

/// The manifest that is applied: the development one when testing.
pub fn deployment_file(testing: bool) -> (r: String)
    ensures
        testing ==> r@ == "deployment-dev.yaml"@,
        !testing ==> r@ == "deployment.yaml"@,
{
    if testing {
        owned("deployment-dev.yaml")
    } else {
        owned("deployment.yaml")
    }
}

/// Where the manifests live, with the file name appended.
pub fn deployment_path(file: &str) -> (r: String)
    ensures
        r@ == "/usr/src/app/src/gameserver/"@ + file@,
{
    concat2("/usr/src/app/src/gameserver/", file)
}

/// Whether an entry of the build directory goes into the build context:
/// files and directories that are no links, except under `target`,
/// `gameserver/target` or `server`, and except hidden ones (a relative
/// path, where it is text, that starts with a dot or has a component that
/// does).
pub open spec fn context_included(
    relative: Option<Seq<char>>,
    components: Seq<Seq<char>>,
    is_file: bool,
    is_dir: bool,
    is_symlink: bool,
) -> bool {
    &&& is_file || is_dir
    &&& !is_symlink
    &&& !(components.len() > 0 && components[0] == "target"@)
    &&& !(components.len() >= 2 && components[0] == "gameserver"@ && components[1] == "target"@)
    &&& !(components.len() > 0 && components[0] == "server"@)
    &&& match relative {
        Some(r) => !has_prefix(r, "."@) && !contains_text(r, "/."@),
        None => true,
    }
}

/// Decides whether an entry goes into the build context (see
/// `context_included`); `components` are the relative path's components.
pub fn context_entry_included(
    relative: Option<&str>,
    components: &Vec<String>,
    is_file: bool,
    is_dir: bool,
    is_symlink: bool,
) -> (r: bool)
    ensures
        r == context_included(
            match relative {
                Some(s) => Some(s@),
                None => None,
            },
            components@.map_values(|c: String| c@),
            is_file,
            is_dir,
            is_symlink,
        ),
{
    let ghost cs = components@.map_values(|c: String| c@);
    if !is_file && !is_dir {
        return false;
    }
    if is_symlink {
        return false;
    }
    if components.len() > 0 && str_eq(components[0].as_str(), "target") {
        return false;
    }
    if components.len() >= 2 && str_eq(components[0].as_str(), "gameserver") && str_eq(
        components[1].as_str(),
        "target",
    ) {
        return false;
    }
    if components.len() > 0 && str_eq(components[0].as_str(), "server") {
        return false;
    }
    match relative {
        Some(s) => !starts_with(s, ".") && !contains_str(s, "/."),
        None => true,
    }
}

/// The tag the image is built under: the repository (empty when none is
/// configured) followed by `/gameserver:latest`.
pub fn image_tag(repo: Option<&str>) -> (r: String)
    ensures
        r@ == match repo {
            Some(x) => x@,
            None => Seq::<char>::empty(),
        } + "/gameserver:latest"@,
{
    match repo {
        Some(x) => concat2(x, "/gameserver:latest"),
        None => owned("/gameserver:latest"),
    }
}

/// Where the built image is pushed: `<repository>/gameserver`, when a
/// repository is configured; without one the image is not pushed.
pub fn push_repository(repo: Option<&str>) -> (r: Option<String>)
    ensures
        match repo {
            Some(x) => r matches Some(p) && p@ == x@ + "/gameserver"@,
            None => r is None,
        },
{
    match repo {
        Some(x) => Some(concat2(x, "/gameserver")),
        None => None,
    }
}

/// An error of the image build, with its message.
#[derive(Debug)]
pub struct DockerBuildError {
    pub message: String,
}

impl DockerBuildError {
    /// The error as text: `Docker build error: ` and the message.
    pub fn describe(&self) -> (r: String)
        ensures
            r@ == "Docker build error: "@ + self.message@,
    {
        concat2("Docker build error: ", self.message.as_str())
    }
}

/// What the image build reports, one event at a time.
#[derive(Debug)]
pub enum BuildEvent {
    /// A progress update: output to show, and an error where the build
    /// failed.
    Update { stream: Option<String>, error: Option<String> },
    /// The Docker API failed, with its message.
    ApiError(String),
    /// The build's updates have ended.
    Finished,
}

/// What follows a build event.
#[derive(Debug)]
pub enum BuildAction {
    /// Show the output, if any, and wait for the next event.
    Continue { output: Option<String> },
    /// Show the output, if any, and end the build with this error: nothing
    /// is tagged or pushed.
    Fail { output: Option<String>, error: DockerBuildError },
    /// The build succeeded: tag the image `source` as `repository:tag`, push
    /// `repository`, and end.
    TagAndPush { source: String, repository: String, tag: String },
    /// The build succeeded and there is no repository: end.
    Done,
}

/// The step of an image build: an update carrying an error, or an API
/// error, ends the build with that error before any tag or push; other
/// updates go on; at the end the image is tagged and pushed when a
/// repository is configured (`repo`), else the build is done.
pub fn build_step(event: BuildEvent, repo: Option<&str>) -> (r: BuildAction)
    ensures
        match event {
            BuildEvent::Update { stream, error } => match error {
                Some(e) => r matches BuildAction::Fail { output, error: d } && opt_text(output)
                    == opt_text(stream) && d.message@ == e@,
                None => r matches BuildAction::Continue { output } && opt_text(output)
                    == opt_text(stream),
            },
            BuildEvent::ApiError(e) => r matches BuildAction::Fail { output, error: d }
                && output is None && d.message@ == "Docker API error: "@ + e@,
            BuildEvent::Finished => match repo {
                Some(x) => r matches BuildAction::TagAndPush { source, repository, tag }
                    && source@ == x@ + "/gameserver:latest"@ && repository@ == x@
                    + "/gameserver"@ && tag@ == "latest"@,
                None => r is Done,
            },
        },
{
    match event {
        BuildEvent::Update { stream, error } => match error {
            Some(e) => BuildAction::Fail { output: stream, error: DockerBuildError { message: e } },
            None => BuildAction::Continue { output: stream },
        },
        BuildEvent::ApiError(e) => BuildAction::Fail {
            output: None,
            error: DockerBuildError { message: concat2("Docker API error: ", e.as_str()) },
        },
        BuildEvent::Finished => match repo {
            Some(x) => BuildAction::TagAndPush {
                source: image_tag(Some(x)),
                repository: concat2(x, "/gameserver"),
                tag: owned("latest"),
            },
            None => BuildAction::Done,
        },
    }
}

/// The text an optional string holds.
pub open spec fn opt_text(o: Option<String>) -> Option<Seq<char>> {
    match o {
        Some(s) => Some(s@),
        None => None,
    }
}

} // verus!
