//! The game-server node: how it frames the byte stream it receives, which
//! provider it loads, what it does on each console command, and the
//! records it reports about its files.
use vstd::prelude::*;
use crate::providers::{
    ProviderType,
    ProviderTypeView,
    ProviderConfig,
    CommandSpec,
    CommandView,
    TargetOs,
    opt_command,
    custom_from_config,
    custom_config,
    CustomView,
    provider_stage,
    minecraft_pre_hook,
    minecraft_install,
    minecraft_post_hook,
    minecraft_start,
    Minecraft,
    Provider,
};
use crate::text::{
    str_eq,
    starts_with,
    has_prefix,
    owned,
    rfind_char,
    last_char_at,
    concat2,
    concat3,
    trim,
    trim_str,
    has_suffix,
    ends_with,
};
use crate::transport::MessagePayload;
use crate::databasespec::opt_view;
use crate::json::{json_string_member_of, json_string_member};

verus! {

/// Whether a node may be used, and whether that may change.
#[derive(Debug, Clone, Copy, PartialEq, Eq, Structural)]
pub enum NodeStatus {
    Enabled,
    Disabled,
    ImmutablyEnabled,
    ImmutablyDisabled,
}

/// The kind of a node as the game server knows it.
#[derive(Debug, Clone, Copy, PartialEq, Eq, Structural)]
pub enum NodeType {
    Custom,
    Main,
}

/// A node as the game server knows it.
#[derive(Debug)]
pub struct Node {
    pub nodename: String,
    pub ip: String,
    pub nodetype: NodeType,
    pub nodestatus: NodeStatus,
}

/// What the node reports about a path.
#[derive(Debug)]
pub struct FsMetadata {
    pub is_file: bool,
    pub is_dir: bool,
    pub optional_folder_children: Option<u64>,
    pub canonical_path: String,
}

/// An entry of a directory listing.
#[derive(Debug)]
pub struct FsEntry {
    pub name: String,
    pub is_file: bool,
    pub is_dir: bool,
}

/// A request for a piece of a file: its name, and offset and size as text.
#[derive(Debug)]
pub struct FileChunk {
    pub file_name: String,
    pub file_chunk_offet: String,
    pub file_chunk_size: String,
}

/// Commands the panel may send to an integration.
#[derive(Debug, Clone, Copy, PartialEq, Eq, Structural)]
pub enum IntergrationCommands {
    MinecraftEnableRcon,
}

/// `needle` occurs in `haystack` at `p`.
pub open spec fn occurs_at(haystack: Seq<u8>, needle: Seq<u8>, p: int) -> bool {
    0 <= p && p + needle.len() <= haystack.len() && haystack.subrange(p, p + needle.len())
        == needle
}

/// The first position of a non-empty `needle` in `haystack`.
pub open spec fn first_occurrence(haystack: Seq<u8>, needle: Seq<u8>, p: int) -> bool {
    occurs_at(haystack, needle, p) && forall|q: int| 0 <= q < p ==> !occurs_at(haystack, needle, q)
}

/// The first position of `needle` in `haystack`; an empty needle, or one
/// longer than the haystack, is never found.
pub fn find_subsequence(haystack: &[u8], needle: &[u8]) -> (r: Option<usize>)
    ensures
        match r {
            Some(p) => needle@.len() > 0 && first_occurrence(haystack@, needle@, p as int),
            None => needle@.len() == 0 || forall|q: int| !occurs_at(haystack@, needle@, q),
        },
{
    let n = needle.len();
    let h = haystack.len();
    if n == 0 || h < n {
        return None;
    }
    let mut p: usize = 0;
    while p <= h - n
        invariant
            n == needle@.len(),
            h == haystack@.len(),
            0 < n <= h,
            p <= h - n + 1,
            forall|q: int| 0 <= q < p ==> !occurs_at(haystack@, needle@, q),
        decreases h - n + 1 - p,
    {
        let mut k: usize = 0;
        while k < n && haystack[p + k] == needle[k]
            invariant
                k <= n,
                p + n <= h,
                n == needle@.len(),
                h == haystack@.len(),
                forall|j: int| 0 <= j < k ==> haystack@[p + j] == needle@[j],
            decreases n - k,
        {
            k = k + 1;
        }
        if k == n {
            assert(haystack@.subrange(p as int, p + n) =~= needle@);
            return Some(p);
        }
        assert(!occurs_at(haystack@, needle@, p as int)) by {
            if occurs_at(haystack@, needle@, p as int) {
                assert(haystack@.subrange(p as int, p + n)[k as int] == needle@[k as int]);
            }
        }
        p = p + 1;
    }
    assert forall|q: int| !occurs_at(haystack@, needle@, q) by {
        if q > h - n {
            assert(q + needle@.len() > haystack@.len());
        }
    }
    None
}

/// Removes the first `n` bytes of `buf` and returns them.
pub fn drain_prefix(buf: &mut Vec<u8>, n: usize) -> (r: Vec<u8>)
    requires
        n <= old(buf)@.len(),
    ensures
        r@ == old(buf)@.subrange(0, n as int),
        final(buf)@ == old(buf)@.subrange(n as int, old(buf)@.len() as int),
{
    let mut rest = buf.split_off(n);
    std::mem::swap(buf, &mut rest);
    rest
}

/// Drops the line that ends at `newline_pos` (the line feed included), or
/// everything when the buffer is shorter.
pub fn drain_line(read_buf: &mut Vec<u8>, newline_pos: usize)
    requires
        newline_pos < usize::MAX,
    ensures
        newline_pos + 1 <= old(read_buf)@.len() ==> final(read_buf)@ == old(read_buf)@.subrange(
            newline_pos + 1,
            old(read_buf)@.len() as int,
        ),
        newline_pos + 1 > old(read_buf)@.len() ==> final(read_buf)@ == Seq::<u8>::empty(),
{
    if newline_pos + 1 <= read_buf.len() {
        let _ = drain_prefix(read_buf, newline_pos + 1);
    } else {
        read_buf.clear();
    }
}

/// The next piece of a file to write: at most `chunk_size` bytes from the
/// front of the buffer.
pub fn take_file_chunk(read_buf: &mut Vec<u8>, chunk_size: usize) -> (r: Vec<u8>)
    ensures
        ({
            let w = if old(read_buf)@.len() < chunk_size {
                old(read_buf)@.len() as int
            } else {
                chunk_size as int
            };
            &&& r@ == old(read_buf)@.subrange(0, w)
            &&& final(read_buf)@ == old(read_buf)@.subrange(w, old(read_buf)@.len() as int)
        }),
{
    let w = if read_buf.len() < chunk_size {
        read_buf.len()
    } else {
        chunk_size
    };
    drain_prefix(read_buf, w)
}

/// What receiving a file does with the bytes buffered so far.
#[derive(Debug)]
pub enum FileStep {
    /// The end marker was found: these bytes end the file, and the stream
    /// goes back to messages.
    Finished(Vec<u8>),
    /// These bytes belong to the file; the end marker may still follow.
    Partial(Vec<u8>),
    /// Too few bytes to tell; wait for more.
    Wait,
}

/// One step of receiving a file. With the end marker in the buffer, the
/// bytes before it end the file and the marker is dropped. Otherwise all but
/// the last `len(marker) + 1` bytes are written (they cannot start a marker
/// that is still arriving), or nothing when the buffer is no longer.
pub fn file_mode_step(read_buf: &mut Vec<u8>, delimiter: &[u8]) -> (r: FileStep)
    requires
        delimiter@.len() > 0,
        delimiter@.len() + 1 <= usize::MAX,
    ensures
        ({
            let b = old(read_buf)@;
            let d = delimiter@;
            match r {
                FileStep::Finished(w) => exists|p: int|
                    first_occurrence(b, d, p) && w@ == b.subrange(0, p) && final(read_buf)@
                        == b.subrange(p + d.len(), b.len() as int),
                FileStep::Partial(w) => (forall|q: int| !occurs_at(b, d, q)) && b.len() > d.len()
                    + 1 && w@ == b.subrange(0, b.len() - (d.len() + 1)) && final(read_buf)@
                    == b.subrange(b.len() - (d.len() + 1), b.len() as int),
                FileStep::Wait => (forall|q: int| !occurs_at(b, d, q)) && b.len() <= d.len() + 1
                    && final(read_buf)@ == b,
            }
        }),
{
    match find_subsequence(read_buf.as_slice(), delimiter) {
        Some(pos) => {
            let written = drain_prefix(read_buf, pos);
            let _ = drain_prefix(read_buf, delimiter.len());
            proof {
                let b = old(read_buf)@;
                assert(final(read_buf)@ =~= b.subrange(pos + delimiter@.len(), b.len() as int))
                    by {
                    assert(read_buf@ =~= b.subrange(pos as int, b.len() as int).subrange(
                        delimiter@.len() as int,
                        b.len() - pos,
                    ));
                }
            }
            FileStep::Finished(written)
        },
        None => {
            let keep = delimiter.len() + 1;
            if read_buf.len() > keep {
                let n = read_buf.len() - keep;
                let written = drain_prefix(read_buf, n);
                FileStep::Partial(written)
            } else {
                FileStep::Wait
            }
        },
    }
}

/// The range `[start, end)` of a listing's entries (from the first when no
/// start is given, to the last when no end is).
pub fn select_range<T>(entries: Vec<T>, start: Option<u64>, end: Option<u64>) -> (r: Vec<T>)
    ensures
        ({
            let s = match start {
                Some(x) => x as int,
                None => 0,
            };
            let e = match end {
                Some(x) => x as int,
                None => entries@.len() as int,
            };
            let lo = if s < entries@.len() {
                s
            } else {
                entries@.len() as int
            };
            let hi = if e < lo {
                lo
            } else if e > entries@.len() {
                entries@.len() as int
            } else {
                e
            };
            r@ == entries@.subrange(lo, hi)
        }),
{
    let len = entries.len();
    let lo: usize = match start {
        Some(x) => if (x as u128) < (len as u128) {
            x as usize
        } else {
            len
        },
        None => 0,
    };
    let hi: usize = match end {
        Some(x) => if (x as u128) < (lo as u128) {
            lo
        } else if (x as u128) > (len as u128) {
            len
        } else {
            x as usize
        },
        None => len,
    };
    let mut v = entries;
    let mut tail = v.split_off(lo);
    tail.truncate(hi - lo);
    assert(tail@ =~= v@.subrange(0, 0) + tail@);
    tail
}

/// Why no address could be made.
#[derive(Debug, Clone, Copy, PartialEq, Eq, Structural)]
pub enum AddressError {
    /// No IP was given.
    MissingIp,
}

/// The address `host:port` to connect to, from an IP that may carry a port
/// after its last `:`: an explicit port wins, then the IP's own, then 80.
pub fn resolve_address(ip: Option<String>, port: Option<String>) -> (r: Result<
    String,
    AddressError,
>)
    ensures
        ip is None ==> r == Err::<String, AddressError>(AddressError::MissingIp),
        ip matches Some(i) ==> (r matches Ok(a) && ((exists|c: int|
            last_char_at(i@, ':', c) && a@ == i@.subrange(0, c) + seq![':'] + match port {
                Some(p) => p@,
                None => i@.subrange(c + 1, i@.len() as int),
            }) || (!i@.contains(':') && a@ == i@ + seq![':'] + match port {
            Some(p) => p@,
            None => "80"@,
        }))),
{
    let ip = match ip {
        Some(i) => i,
        None => return Err(AddressError::MissingIp),
    };
    proof {
        reveal_strlit(":");
    }
    let s = ip.as_str();
    let n = s.unicode_len();
    let (host, extracted) = match rfind_char(s, ':') {
        Some(idx) => {
            let host = s.substring_char(0, idx).to_owned();
            let tail = s.substring_char(idx + 1, n).to_owned();
            (host, Some(tail))
        },
        None => (ip.clone(), None),
    };
    let final_port = match port {
        Some(p) => p,
        None => match extracted {
            Some(p) => p,
            None => owned("80"),
        },
    };
    let mut addr = host;
    addr.append(":");
    addr.append(final_port.as_str());
    Ok(addr)
}

/// The directory of a server under `server/`: a path that does not start
/// with `server/` is put under it.
pub open spec fn definite_path(path: Seq<char>) -> Seq<char> {
    if has_prefix(path, "server/"@) {
        path
    } else {
        "server/"@ + path
    }
}

/// The directory of a server under `server/` (see `definite_path`).
pub fn definite_server_path(path: &str) -> (r: String)
    ensures
        r@ == definite_path(path@),
{
    if starts_with(path, "server/") {
        owned(path)
    } else {
        let mut r = owned("server/");
        r.append(path);
        r
    }
}

/// Where a custom provider's configuration lives.
pub fn provider_json_path(pre_path: &str) -> (r: String)
    ensures
        r@ == definite_path(pre_path@) + "/provider.json"@,
{
    let mut r = definite_server_path(pre_path);
    r.append("/provider.json");
    r
}

/// What reading a custom provider's `provider.json` gave.
#[derive(Debug)]
pub enum ConfigLookup {
    /// The file could not be read.
    Unreadable,
    /// The file is not a provider configuration.
    Malformed,
    /// The configuration the file holds.
    Parsed(ProviderConfig),
}

/// Whether choosing the provider of that name reads its configuration
/// file: only a custom provider has one.
pub fn provider_needs_config(name: &str) -> (r: bool)
    ensures
        r == (name@ == "custom"@),
{
    str_eq(name, "custom")
}

/// The provider a server names: Minecraft's; for `custom` the one its
/// configuration file describes (none when the file cannot be read, one
/// without commands when it cannot be parsed); otherwise none.
pub fn get_provider(name: &str, lookup: ConfigLookup) -> (r: Option<ProviderType>)
    ensures
        name@ == "minecraft"@ ==> (r matches Some(p) && p@.name == "minecraft"@ && p@.config
            == Seq::<(Seq<char>, Seq<char>)>::empty()),
        name@ != "minecraft"@ && name@ == "custom"@ ==> match lookup {
            ConfigLookup::Unreadable => r is None,
            ConfigLookup::Malformed => (r matches Some(p) && p@.name == "custom"@ && p@.config
                == Seq::<(Seq<char>, Seq<char>)>::empty()),
            ConfigLookup::Parsed(c) => (r matches Some(p) && p@.name == "custom"@ && p@.config
                == custom_config(
                CustomView {
                    pre_hook_cmd: opt_view(c.pre_hook),
                    install_cmd: opt_view(c.install),
                    post_hook_cmd: opt_view(c.post_hook),
                    start_cmd: opt_view(c.start),
                },
            )),
        },
        name@ != "minecraft"@ && name@ != "custom"@ ==> r is None,
        r matches Some(p) ==> p.wf(),
{
    if str_eq(name, "minecraft") {
        Some(ProviderType::from_minecraft(Minecraft))
    } else if str_eq(name, "custom") {
        match lookup {
            ConfigLookup::Unreadable => None,
            ConfigLookup::Malformed => crate::providers::get_provider("custom"),
            ConfigLookup::Parsed(c) => Some(custom_from_config(c)),
        }
    } else {
        None
    }
}

/// What a console message asks the node to do.
#[derive(Debug)]
pub enum NodeCommand {
    /// Clear the server's directory.
    DeleteServerFiles { path: String },
    /// Ask the running server to stop.
    StopServer,
    /// Start the server.
    StartServer,
    /// Report the server's start and stop keywords.
    ServerData,
    /// Report the node's host name.
    ServerName,
    /// Answer that the command is unknown, with this message.
    Unknown(String),
    /// Pass this line to the server's input.
    Console(String),
    /// Do nothing.
    Ignore,
}

/// The answer to an unknown command.
pub open spec fn unknown_command_message(other: Seq<char>) -> Seq<char> {
    "Unknown command: "@ + other
}

/// The message that reports input passed to the server.
pub open spec fn sent_message(input: Seq<char>) -> Seq<char> {
    "Sent to server: "@ + input
}

/// Which command a message names: for type `command`, one of
/// `delete_server`, `stop_server`, `start_server`, `server_data`,
/// `server_name` (anything else is unknown); type `console` passes the
/// message on; other types are ignored. The server's directory is
/// `server/` (the current server's path is empty).
pub fn decide_node_command(message_type: &str, message: &str) -> (r: NodeCommand)
    ensures
        message_type@ == "command"@ ==> (if message@ == "delete_server"@ {
            r matches NodeCommand::DeleteServerFiles { path } && path@ == definite_path(
                Seq::empty(),
            )
        } else if message@ == "stop_server"@ {
            r is StopServer
        } else if message@ == "start_server"@ {
            r is StartServer
        } else if message@ == "server_data"@ {
            r is ServerData
        } else if message@ == "server_name"@ {
            r is ServerName
        } else {
            r matches NodeCommand::Unknown(m) && m@ == unknown_command_message(message@)
        }),
        message_type@ != "command"@ && message_type@ == "console"@ ==> (r matches NodeCommand::Console(
            line,
        ) && line@ == message@),
        message_type@ != "command"@ && message_type@ != "console"@ ==> r is Ignore,
{
    proof {
        reveal_strlit("");
    }
    if str_eq(message_type, "command") {
        if str_eq(message, "delete_server") {
            NodeCommand::DeleteServerFiles { path: definite_server_path("") }
        } else if str_eq(message, "stop_server") {
            NodeCommand::StopServer
        } else if str_eq(message, "start_server") {
            NodeCommand::StartServer
        } else if str_eq(message, "server_data") {
            NodeCommand::ServerData
        } else if str_eq(message, "server_name") {
            NodeCommand::ServerName
        } else {
            let mut m = owned("Unknown command: ");
            m.append(message);
            NodeCommand::Unknown(m)
        }
    } else if str_eq(message_type, "console") {
        NodeCommand::Console(owned(message))
    } else {
        NodeCommand::Ignore
    }
}

/// The line written to the server's input for `input`, and the message
/// that reports it.
pub fn console_input(input: &str) -> (r: (String, String))
    ensures
        r.0@ == input@ + seq!['\n'],
        r.1@ == sent_message(input@),
{
    proof {
        reveal_strlit("\n");
    }
    let mut line = owned(input);
    line.append("\n");
    let mut msg = owned("Sent to server: ");
    msg.append(input);
    (line, msg)
}

/// The keywords that mark the Minecraft server's start and stop in its
/// output: `help` and `All dimensions are saved`.
pub fn server_state_keywords() -> (r: (String, String))
    ensures
        r.0@ == "help"@,
        r.1@ == "All dimensions are saved"@,
{
    (owned("help"), owned("All dimensions are saved"))
}

/// How a start request ends.
#[derive(Debug)]
pub enum StartPlan {
    /// Refused with this message.
    Refuse(String),
    /// Launch this command in the background, answering "Server started".
    Launch(CommandSpec),
}

/// Deciding a start: a running server refuses, a missing provider or start
/// command is reported, else the provider's start command is launched.
pub fn start_server_plan(running: bool, provider: Option<ProviderType>, os: TargetOs) -> (r:
    StartPlan)
    ensures
        running ==> (r matches StartPlan::Refuse(m) && m@
            == "Server is already running. Use 'stop_server' first."@),
        !running && provider is None ==> (r matches StartPlan::Refuse(m) && m@
            == "Failed to get provider for server"@),
        !running && provider is Some ==> match provider_stage(
            provider.unwrap()@,
            os,
            minecraft_start(os),
            "start"@,
        ) {
            Some(c) => (r matches StartPlan::Launch(cmd) && cmd@ == c),
            None => (r matches StartPlan::Refuse(m) && m@
                == "No start command available for this provider"@),
        },
{
    if running {
        return StartPlan::Refuse(owned("Server is already running. Use 'stop_server' first."));
    }
    match provider {
        None => StartPlan::Refuse(owned("Failed to get provider for server")),
        Some(p) => match p.start(os) {
            Some(cmd) => StartPlan::Launch(cmd),
            None => StartPlan::Refuse(owned("No start command available for this provider")),
        },
    }
}

/// A stage of creating a server: the command, its label, and whether it
/// runs in the background (the server itself) rather than to completion.
#[derive(Debug)]
pub struct PlanStep {
    pub label: String,
    pub command: CommandSpec,
    pub background: bool,
}

pub struct PlanStepView {
    pub label: Seq<char>,
    pub command: CommandView,
    pub background: bool,
}

impl View for PlanStep {
    type V = PlanStepView;

    open spec fn view(&self) -> PlanStepView {
        PlanStepView { label: self.label@, command: self.command@, background: self.background }
    }
}

/// A plan step for an optional command.
pub open spec fn opt_step(label: Seq<char>, c: Option<CommandView>, background: bool) -> Seq<
    PlanStepView,
> {
    match c {
        Some(x) => seq![PlanStepView { label, command: x, background }],
        None => Seq::empty(),
    }
}

/// Creating a server runs the provider's pre-hook, install and post-hook
/// stages in turn, then launches its start command in the background.
pub open spec fn creation_plan(p: ProviderTypeView, os: TargetOs) -> Seq<PlanStepView> {
    opt_step(
        "Pre-hook"@,
        provider_stage(p, os, minecraft_pre_hook(os), "pre_hook"@),
        false,
    ) + opt_step("Install"@, provider_stage(p, os, minecraft_install(os), "install"@), false)
        + opt_step(
        "Post-hook"@,
        provider_stage(p, os, minecraft_post_hook(os), "post_hook"@),
        false,
    ) + opt_step("Server"@, provider_stage(p, os, minecraft_start(os), "start"@), true)
}

fn push_step(plan: &mut Vec<PlanStep>, label: &str, c: Option<CommandSpec>, background: bool)
    ensures
        final(plan)@.map_values(|s: PlanStep| s@) == old(plan)@.map_values(|s: PlanStep| s@)
            + opt_step(label@, opt_command(c), background),
{
    match c {
        Some(command) => {
            let step = PlanStep { label: owned(label), command, background };
            let ghost sv = step@;
            plan.push(step);
            assert(plan@.map_values(|s: PlanStep| s@) =~= old(plan)@.map_values(
                |s: PlanStep| s@,
            ).push(sv));
        },
        None => {
            assert(old(plan)@.map_values(|s: PlanStep| s@) + Seq::<PlanStepView>::empty()
                =~= old(plan)@.map_values(|s: PlanStep| s@));
        },
    }
}

/// The steps of creating a server with a provider (see `creation_plan`).
pub fn create_server_plan(provider: &ProviderType, os: TargetOs) -> (r: Vec<PlanStep>)
    ensures
        r@.map_values(|s: PlanStep| s@) == creation_plan(provider@, os),
{
    let mut plan: Vec<PlanStep> = Vec::new();
    assert(plan@.map_values(|s: PlanStep| s@) =~= Seq::<PlanStepView>::empty());
    push_step(&mut plan, "Pre-hook", provider.pre_hook(os), false);
    push_step(&mut plan, "Install", provider.install(os), false);
    push_step(&mut plan, "Post-hook", provider.post_hook(os), false);
    push_step(&mut plan, "Server", provider.start(os), true);
    assert(plan@.map_values(|s: PlanStep| s@) =~= creation_plan(provider@, os));
    plan
}

/// Whether every character of `s` is an ASCII digit.
pub open spec fn all_digits(s: Seq<char>) -> bool {
    forall|i: int| 0 <= i < s.len() ==> '0' <= #[trigger] s[i] <= '9'
}

/// The value of a string of decimal digits.
pub open spec fn digits_value(s: Seq<char>) -> int
    decreases s.len(),
{
    if s.len() == 0 {
        0
    } else {
        digits_value(s.drop_last()) * 10 + (s.last() as int - '0' as int)
    }
}

/// The number a decimal text denotes: an optional `+`, then at least one
/// digit.
pub open spec fn decimal_of(s: Seq<char>) -> Option<int> {
    let body = if s.len() > 0 && s[0] == '+' {
        s.drop_first()
    } else {
        s
    };
    if body.len() > 0 && all_digits(body) {
        Some(digits_value(body))
    } else {
        None
    }
}

proof fn lemma_digits_value_nonneg(s: Seq<char>)
    requires
        all_digits(s),
    ensures
        digits_value(s) >= 0,
    decreases s.len(),
{
    if s.len() > 0 {
        assert(all_digits(s.drop_last())) by {
            assert forall|i: int| 0 <= i < s.drop_last().len() implies '0' <= #[trigger] s.drop_last()[i] <= '9' by {
                assert(s.drop_last()[i] == s[i]);
            }
        }
        lemma_digits_value_nonneg(s.drop_last());
    }
}

/// Reads an unsigned 64-bit number written in decimal (see `decimal_of`);
/// nothing when the text is not one or the number does not fit.
pub fn parse_u64(s: &str) -> (r: Option<u64>)
    ensures
        match decimal_of(s@) {
            Some(v) => if v <= u64::MAX {
                r == Some(v as u64)
            } else {
                r is None
            },
            None => r is None,
        },
{
    let n = s.unicode_len();
    let mut i: usize = 0;
    if n > 0 && s.get_char(0) == '+' {
        i = 1;
    }
    let ghost body = if s@.len() > 0 && s@[0] == '+' {
        s@.drop_first()
    } else {
        s@
    };
    assert(body =~= s@.subrange(i as int, n as int));
    if i == n {
        return None;
    }
    let start = i;
    let mut value: u64 = 0;
    let mut overflow = false;
    while i < n
        invariant
            n == s@.len(),
            start <= i <= n,
            start < n,
            body == s@.subrange(start as int, n as int),
            body == (if s@.len() > 0 && s@[0] == '+' {
                s@.drop_first()
            } else {
                s@
            }),
            all_digits(s@.subrange(start as int, i as int)),
            !overflow ==> value as int == digits_value(s@.subrange(start as int, i as int)),
            overflow ==> digits_value(s@.subrange(start as int, i as int)) > u64::MAX,
        decreases n - i,
    {
        let c = s.get_char(i);
        let ghost sub = s@.subrange(start as int, i + 1);
        assert(sub.drop_last() =~= s@.subrange(start as int, i as int));
        assert(sub.last() == c);
        if c < '0' || c > '9' {
            assert(body[i - start] == s@[i as int]);
            assert(!all_digits(body));
            assert(decimal_of(s@) is None);
            return None;
        }
        assert(all_digits(sub)) by {
            assert forall|j: int| 0 <= j < sub.len() implies '0' <= #[trigger] sub[j] <= '9' by {
                if j < sub.len() - 1 {
                    assert(sub[j] == s@.subrange(start as int, i as int)[j]);
                }
            }
        }
        let d: u64 = (c as u32 - '0' as u32) as u64;
        proof {
            lemma_digits_value_nonneg(s@.subrange(start as int, i as int));
        }
        if !overflow {
            if value > (u64::MAX - d) / 10 {
                overflow = true;
                assert(digits_value(sub) > u64::MAX) by (nonlinear_arith)
                    requires
                        digits_value(sub) == value as int * 10 + d as int,
                        value > (u64::MAX - d) / 10,
                        d <= 9,
                ;
            } else {
                assert(value * 10 + d <= u64::MAX) by (nonlinear_arith)
                    requires
                        value <= (u64::MAX - d) / 10,
                        d <= 9,
                ;
                value = value * 10 + d;
            }
        } else {
            assert(digits_value(sub) > u64::MAX) by (nonlinear_arith)
                requires
                    digits_value(sub) == digits_value(s@.subrange(start as int, i as int)) * 10 + d as int,
                    digits_value(s@.subrange(start as int, i as int)) > u64::MAX,
                    d <= 9,
            ;
        }
        i = i + 1;
    }
    assert(s@.subrange(start as int, n as int) == body);
    if overflow {
        None
    } else {
        Some(value)
    }
}

/// What a multipart message asks of the node's file writer.
#[derive(Debug)]
pub enum MultipartAction {
    /// Start writing the file at this path.
    StartFile(String),
    /// Finish the file being written.
    EndFile,
    /// Nothing.
    Ignore,
}

/// A multipart message: `start_file` starts a file under `server/` named
/// by the message, `end_file` finishes it; other types do nothing.
pub fn multipart_action(kind: &str, message: &str) -> (r: MultipartAction)
    ensures
        kind@ == "start_file"@ ==> (r matches MultipartAction::StartFile(p) && p@ == "server/"@
            + message@),
        kind@ != "start_file"@ && kind@ == "end_file"@ ==> r is EndFile,
        kind@ != "start_file"@ && kind@ != "end_file"@ ==> r is Ignore,
{
    if str_eq(kind, "start_file") {
        MultipartAction::StartFile(concat2("server/", message))
    } else if str_eq(kind, "end_file") {
        MultipartAction::EndFile
    } else {
        MultipartAction::Ignore
    }
}

/// What the node does with a message payload read from the panel's
/// stream.
#[derive(Debug)]
pub enum NodeMessageAction {
    /// Receive a file at this path: the bytes that follow, up to the end
    /// marker, are its content.
    StartFile(String),
    /// The end of a file; nothing more to do.
    EndFile,
    /// Clean the end markers out of the file at this path, if it exists.
    CleanFile(String),
    /// A command or console input.
    Command,
}

/// The action for a payload on the node's stream: `start_file` and
/// `clean_file` name a file under `server/`, `end_file` ends one, and any
/// other type is a command.
pub fn node_message_action(kind: &str, message: &str) -> (r: NodeMessageAction)
    ensures
        kind@ == "start_file"@ ==> (r matches NodeMessageAction::StartFile(p) && p@ == "server/"@
            + message@),
        kind@ == "end_file"@ ==> r is EndFile,
        kind@ == "clean_file"@ ==> (r matches NodeMessageAction::CleanFile(p) && p@ == "server/"@
            + message@),
        kind@ != "start_file"@ && kind@ != "end_file"@ && kind@ != "clean_file"@ ==> r is Command,
{
    proof {
        reveal_strlit("start_file");
        reveal_strlit("end_file");
        reveal_strlit("clean_file");
        assert("start_file"@.len() != "end_file"@.len());
        assert("end_file"@.len() != "clean_file"@.len());
        assert("start_file"@[0] != "clean_file"@[0]);
    }
    if str_eq(kind, "start_file") {
        NodeMessageAction::StartFile(concat2("server/", message))
    } else if str_eq(kind, "end_file") {
        NodeMessageAction::EndFile
    } else if str_eq(kind, "clean_file") {
        NodeMessageAction::CleanFile(concat2("server/", message))
    } else {
        NodeMessageAction::Command
    }
}

/// How the node treats a line of its stream while it reads messages.
#[derive(Debug, PartialEq, Eq, Structural)]
pub enum LineStep {
    /// An empty line: drop it.
    Skip,
    /// A stray end-of-file marker: drop it, counting as a message.
    EndMarker,
    /// A line in braces: read it as a JSON message.
    Parse,
    /// Anything else: wait for more input.
    Stop,
}

/// The step for a line (its text, the line feed left out): empty lines are
/// dropped, a line that trims to the end marker is dropped as a message, a
/// line that trims to something in braces is read as JSON, and any other
/// line stops the reading until more comes.
pub fn json_line_step(line: &str) -> (r: LineStep)
    ensures
        r == (if line@.len() == 0 {
            LineStep::Skip
        } else if trim(line@) == "<|END_OF_FILE|>"@ {
            LineStep::EndMarker
        } else if has_prefix(trim(line@), "{"@) && has_suffix(trim(line@), "}"@) {
            LineStep::Parse
        } else {
            LineStep::Stop
        }),
{
    if line.unicode_len() == 0 {
        return LineStep::Skip;
    }
    let t = trim_str(line);
    if str_eq(t, "<|END_OF_FILE|>") {
        LineStep::EndMarker
    } else if starts_with(t, "{") && ends_with(t, "}") {
        LineStep::Parse
    } else {
        LineStep::Stop
    }
}

/// The most bytes the node buffers from its stream.
pub const MAX_BUFFER_SIZE: usize = 52428800;

/// Whether the buffer has outgrown its limit, in which case it is dropped
/// and the node goes back to reading messages.
pub fn buffer_overflows(len: usize) -> (r: bool)
    ensures
        r == (len > MAX_BUFFER_SIZE),
{
    len > MAX_BUFFER_SIZE
}

/// `s` with every occurrence of a non-empty `marker` taken out, occurrences
/// found from the left without overlap.
pub open spec fn without_marker(s: Seq<u8>, marker: Seq<u8>) -> Seq<u8>
    decreases s.len(),
{
    if s.len() == 0 || marker.len() == 0 {
        s
    } else if occurs_at(s, marker, 0) {
        without_marker(s.subrange(marker.len() as int, s.len() as int), marker)
    } else {
        seq![s[0]] + without_marker(s.drop_first(), marker)
    }
}

fn occurs_here(s: &Vec<u8>, marker: &[u8], p: usize) -> (r: bool)
    requires
        p <= s@.len(),
    ensures
        r == occurs_at(s@.subrange(p as int, s@.len() as int), marker@, 0),
{
    let n = marker.len();
    let len = s.len();
    if n > len - p {
        return false;
    }
    let mut k: usize = 0;
    while k < n
        invariant
            n == marker@.len(),
            len == s@.len(),
            p + n <= len,
            k <= n,
            forall|j: int| 0 <= j < k ==> s@[p + j] == marker@[j],
        decreases n - k,
    {
        if s[p + k] != marker[k] {
            assert(s@.subrange(p as int, s@.len() as int).subrange(0, n as int)[k as int]
                != marker@[k as int]);
            return false;
        }
        k = k + 1;
    }
    assert(s@.subrange(p as int, s@.len() as int).subrange(0, n as int) =~= marker@);
    true
}

/// A received file's content with the end markers cleaned out (see
/// `without_marker`).
pub fn strip_end_markers(content: &Vec<u8>, marker: &[u8]) -> (r: Vec<u8>)
    ensures
        r@ == without_marker(content@, marker@),
{
    let n = content.len();
    let m = marker.len();
    let mut out: Vec<u8> = Vec::new();
    if m == 0 {
        proof {
            if content@.len() > 0 {
                assert(without_marker(content@, marker@) == content@);
            }
        }
        let mut i: usize = 0;
        while i < n
            invariant
                n == content@.len(),
                i <= n,
                out@ == content@.subrange(0, i as int),
            decreases n - i,
        {
            out.push(content[i]);
            i = i + 1;
            assert(out@ =~= content@.subrange(0, i as int));
        }
        assert(content@.subrange(0, n as int) =~= content@);
        return out;
    }
    let mut p: usize = 0;
    assert(content@.subrange(0, n as int) =~= content@);
    assert(out@ + without_marker(content@, marker@) =~= without_marker(content@, marker@));
    while p < n
        invariant
            n == content@.len(),
            m == marker@.len(),
            m > 0,
            p <= n,
            out@ + without_marker(content@.subrange(p as int, n as int), marker@) == without_marker(
                content@,
                marker@,
            ),
        decreases n - p,
    {
        let ghost rest = content@.subrange(p as int, n as int);
        if occurs_here(content, marker, p) {
            assert(rest.subrange(m as int, rest.len() as int) =~= content@.subrange(
                p + m,
                n as int,
            ));
            p = p + m;
        } else {
            assert(rest.drop_first() =~= content@.subrange(p + 1, n as int));
            assert(rest[0] == content@[p as int]);
            let ghost before = out@;
            out.push(content[p]);
            assert(out@ + without_marker(content@.subrange(p + 1, n as int), marker@) =~= before
                + (seq![content@[p as int]] + without_marker(
                content@.subrange(p + 1, n as int),
                marker@,
            )));
            p = p + 1;
        }
    }
    assert(content@.subrange(n as int, n as int) =~= Seq::<u8>::empty());
    assert(out@ + Seq::<u8>::empty() =~= out@);
    out
}

/// A line of a command's output as it is reported: the label in brackets,
/// a space, and the line.
pub fn labeled_line(label: &str, line: &str) -> (r: String)
    ensures
        r@ == "["@ + label@ + "] "@ + line@,
{
    let mut r = concat3("[", label, "] ");
    r.append(line);
    r
}

/// The node's answer to `server_name`: a command payload (code `0`) with
/// its host name, or the text of the error met reading it.
pub fn server_name_payload(hostname: Result<String, String>) -> (r: MessagePayload)
    ensures
        r.kind@ == "command"@,
        r.authcode@ == "0"@,
        match hostname {
            Ok(h) => r.message@ == h@,
            Err(e) => r.message@ == e@,
        },
{
    let message = match hostname {
        Ok(h) => h,
        Err(e) => e,
    };
    MessagePayload { kind: owned("command"), message, authcode: owned("0") }
}

/// The type and message fields (where they are strings) of a JSON value,
/// when the text is JSON.
pub open spec fn json_type_and_message(line: Seq<char>) -> Option<(Option<Seq<char>>, Option<Seq<char>>)> {
    match json_string_member_of(line, "type"@) {
        Some(t) => Some(
            (
                t,
                match json_string_member_of(line, "message"@) {
                    Some(m) => m,
                    None => None,
                },
            ),
        ),
        None => None,
    }
}

/// Reads a line as JSON and takes its `type` and `message` strings.
fn json_fields(line: &str) -> (r: Option<(Option<String>, Option<String>)>)
    ensures
        json_type_and_message(line@) == match r {
            Some((t, m)) => Some((opt_view(t), opt_view(m))),
            None => None,
        },
{
    match json_string_member(line, "type") {
        Some(t) => {
            let m = match json_string_member(line, "message") {
                Some(m) => m,
                None => None,
            };
            Some((t, m))
        },
        None => None,
    }
}

/// What the node's file receiver does with a line.
#[derive(Debug)]
pub enum IncomingAction {
    /// Create the file at this path and write the following lines to it.
    StartFile(String),
    /// A `start_file` message without a path.
    MissingPath,
    /// Close the file being written.
    EndFile,
    /// A JSON message with no handler.
    Unmatched,
    /// Write the line to the open file.
    Write,
    /// Not JSON, and no file is open.
    Invalid,
}

/// The action for a line from the file sender: JSON messages of type
/// `start_file` (with the path as message) and `end_file` open and close
/// files; other lines are written to the open file.
pub fn incoming_action(file_open: bool, line: &str) -> (r: IncomingAction)
    ensures
        match json_type_and_message(line@) {
            Some((t, m)) => if t == Some("start_file"@) {
                match m {
                    Some(p) => r matches IncomingAction::StartFile(x) && x@ == p,
                    None => r is MissingPath,
                }
            } else if t == Some("end_file"@) {
                r is EndFile
            } else {
                r is Unmatched
            },
            None => if file_open {
                r is Write
            } else {
                r is Invalid
            },
        },
{
    proof {
        reveal_strlit("start_file");
        reveal_strlit("end_file");
    }
    match json_fields(line) {
        Some((t, m)) => {
            let is_start = match &t {
                Some(x) => str_eq(x.as_str(), "start_file"),
                None => false,
            };
            let is_end = match &t {
                Some(x) => str_eq(x.as_str(), "end_file"),
                None => false,
            };
            if is_start {
                match m {
                    Some(p) => IncomingAction::StartFile(p),
                    None => IncomingAction::MissingPath,
                }
            } else if is_end {
                IncomingAction::EndFile
            } else {
                IncomingAction::Unmatched
            }
        },
        None => if file_open {
            IncomingAction::Write
        } else {
            IncomingAction::Invalid
        },
    }
}

} // verus!
