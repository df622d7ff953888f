//! The requests the panel sends to a node: which message each one puts on
//! the stream, and when it must refuse (another transfer holds the stream,
//! or there is no stream). Serialising and sending are the caller's.
use vstd::prelude::*;
use crate::databasespec::{Filters, ServerMetadata, ServerMetadataView};
use crate::control::AuthTcpMessage;
use crate::text::owned;

verus! {

/// What a command carries besides its name.
#[derive(Debug)]
pub enum MetadataTypes {
    NoMetadata,
    Server {
        servername: String,
        provider: String,
        providertype: String,
        location: String,
        sandbox: bool,
        server_metadata: ServerMetadata,
    },
    Filter(Filters),
    DeleteServerFiles(bool),
    DeleteServer { delete_server_name: String, delete_server_files: bool },
    String(String),
    Boolean(bool),
}

pub enum MetadataView {
    NoMetadata,
    Server {
        servername: Seq<char>,
        provider: Seq<char>,
        providertype: Seq<char>,
        location: Seq<char>,
        sandbox: bool,
        server_metadata: ServerMetadataView,
    },
    Filter(Filters),
    DeleteServerFiles(bool),
    DeleteServer { delete_server_name: Seq<char>, delete_server_files: bool },
    String(Seq<char>),
    Boolean(bool),
}

impl View for MetadataTypes {
    type V = MetadataView;

    open spec fn view(&self) -> MetadataView {
        match self {
            MetadataTypes::NoMetadata => MetadataView::NoMetadata,
            MetadataTypes::Server {
                servername,
                provider,
                providertype,
                location,
                sandbox,
                server_metadata,
            } => MetadataView::Server {
                servername: servername@,
                provider: provider@,
                providertype: providertype@,
                location: location@,
                sandbox: *sandbox,
                server_metadata: server_metadata@,
            },
            MetadataTypes::Filter(f) => MetadataView::Filter(*f),
            MetadataTypes::DeleteServerFiles(b) => MetadataView::DeleteServerFiles(*b),
            MetadataTypes::DeleteServer { delete_server_name, delete_server_files } =>
                MetadataView::DeleteServer {
                delete_server_name: delete_server_name@,
                delete_server_files: *delete_server_files,
            },
            MetadataTypes::String(s) => MetadataView::String(s@),
            MetadataTypes::Boolean(b) => MetadataView::Boolean(*b),
        }
    }
}

impl Clone for MetadataTypes {
    fn clone(&self) -> (r: Self)
        ensures
            r@ == self@,
    {
        match self {
            MetadataTypes::NoMetadata => MetadataTypes::NoMetadata,
            MetadataTypes::Server {
                servername,
                provider,
                providertype,
                location,
                sandbox,
                server_metadata,
            } => MetadataTypes::Server {
                servername: servername.clone(),
                provider: provider.clone(),
                providertype: providertype.clone(),
                location: location.clone(),
                sandbox: *sandbox,
                server_metadata: server_metadata.clone(),
            },
            MetadataTypes::Filter(f) => MetadataTypes::Filter(*f),
            MetadataTypes::DeleteServerFiles(b) => MetadataTypes::DeleteServerFiles(*b),
            MetadataTypes::DeleteServer { delete_server_name, delete_server_files } =>
                MetadataTypes::DeleteServer {
                delete_server_name: delete_server_name.clone(),
                delete_server_files: *delete_server_files,
            },
            MetadataTypes::String(s) => MetadataTypes::String(s.clone()),
            MetadataTypes::Boolean(b) => MetadataTypes::Boolean(*b),
        }
    }
}

/// A command or message for a node: its type, text and authentication code.
#[derive(Debug)]
pub struct MessagePayload {
    pub kind: String,
    pub message: String,
    pub authcode: String,
}

/// A command with metadata.
#[derive(Debug)]
pub struct MessagePayloadWithMetadata {
    pub kind: String,
    pub message: String,
    pub metadata: MetadataTypes,
    pub authcode: String,
}

/// A bare message, such as a ping.
#[derive(Debug)]
pub struct SimpleMessage {
    pub message: String,
}

/// The body of a message to a node.
#[derive(Debug)]
pub enum Outgoing {
    Payload(MessagePayload),
    WithMetadata(MessagePayloadWithMetadata),
    Simple(SimpleMessage),
    Auth(AuthTcpMessage),
    Capabilities(Vec<String>),
    Json(String),
}

/// A message to a node, and whether a line feed follows it on the stream.
#[derive(Debug)]
pub struct OutgoingMessage {
    pub body: Outgoing,
    pub newline: bool,
}

/// Why a request was not sent.
#[derive(Debug, Clone, Copy, PartialEq, Eq, Structural)]
pub enum TransportError {
    /// A file transfer holds the stream.
    HighPriority,
    /// There is no stream to the node.
    NoStream,
}

/// The admission of a request: a request that respects transfers is
/// refused while one holds the stream; then it needs a stream.
pub open spec fn gate_outcome(checks_priority: bool, priority: usize, has_stream: bool) -> Result<
    (),
    TransportError,
> {
    if checks_priority && priority > 0 {
        Err(TransportError::HighPriority)
    } else if !has_stream {
        Err(TransportError::NoStream)
    } else {
        Ok(())
    }
}

/// Decides the admission of a request (see `gate_outcome`).
pub fn gate(checks_priority: bool, priority: usize, has_stream: bool) -> (r: Result<
    (),
    TransportError,
>)
    ensures
        r == gate_outcome(checks_priority, priority, has_stream),
{
    if checks_priority && priority > 0 {
        Err(TransportError::HighPriority)
    } else if !has_stream {
        Err(TransportError::NoStream)
    } else {
        Ok(())
    }
}

/// The text that reports a refusal.
pub fn transport_error_message(e: TransportError) -> (r: String)
    ensures
        e == TransportError::HighPriority ==> r@
            == "high priority task is occuring and cant be interfered with"@,
        e == TransportError::NoStream ==> r@ == "no stream"@,
{
    match e {
        TransportError::HighPriority => owned(
            "high priority task is occuring and cant be interfered with",
        ),
        TransportError::NoStream => owned("no stream"),
    }
}

/// A command payload with that name and authentication code.
pub open spec fn command_payload(o: OutgoingMessage, message: Seq<char>, authcode: Seq<char>) -> bool {
    &&& o.body matches Outgoing::Payload(p)
    &&& p.kind@ == "command"@ && p.message@ == message && p.authcode@ == authcode
    &&& !o.newline
}

/// A command with metadata, with that name, authentication code and line
/// ending.
pub open spec fn metadata_payload(
    o: OutgoingMessage,
    message: Seq<char>,
    metadata: MetadataView,
    authcode: Seq<char>,
    newline: bool,
) -> bool {
    &&& o.body matches Outgoing::WithMetadata(p)
    &&& p.kind@ == "command"@ && p.message@ == message && p.metadata@ == metadata && p.authcode@
        == authcode
    &&& o.newline == newline
}

fn command(message: &str, authcode: &str) -> (r: OutgoingMessage)
    ensures
        command_payload(r, message@, authcode@),
{
    OutgoingMessage {
        body: Outgoing::Payload(
            MessagePayload { kind: owned("command"), message: owned(message), authcode: owned(authcode) },
        ),
        newline: false,
    }
}

fn command_with_metadata(message: &str, metadata: MetadataTypes, authcode: &str, newline: bool) -> (r:
    OutgoingMessage)
    ensures
        metadata_payload(r, message@, metadata@, authcode@, newline),
{
    OutgoingMessage {
        body: Outgoing::WithMetadata(
            MessagePayloadWithMetadata {
                kind: owned("command"),
                message: owned(message),
                metadata,
                authcode: owned(authcode),
            },
        ),
        newline,
    }
}

/// Asks a node for its name.
pub struct ServernameRequest {
    pub ip: String,
}

impl ServernameRequest {
    /// The `server_name` command (code `0`); it needs a stream.
    pub fn plan(&self, has_stream: bool) -> (r: Result<OutgoingMessage, TransportError>)
        ensures
            match r {
                Ok(o) => has_stream && command_payload(o, "server_name"@, "0"@),
                Err(e) => !has_stream && e == TransportError::NoStream,
            },
    {
        gate(false, 0, has_stream)?;
        Ok(command("server_name", "0"))
    }
}

/// Announces the panel's capabilities to a node.
pub struct CapabilitiesRequest {
    pub capabilities: Vec<String>,
}

impl CapabilitiesRequest {
    /// The capability list; it needs a stream.
    pub fn plan(&self, has_stream: bool) -> (r: Result<OutgoingMessage, TransportError>)
        ensures
            match r {
                Ok(o) => has_stream && (o.body matches Outgoing::Capabilities(c) && c@.map_values(
                    |s: String| s@,
                ) == self.capabilities@.map_values(|s: String| s@)) && !o.newline,
                Err(e) => !has_stream && e == TransportError::NoStream,
            },
    {
        gate(false, 0, has_stream)?;
        let mut caps: Vec<String> = Vec::new();
        let mut i: usize = 0;
        while i < self.capabilities.len()
            invariant
                i <= self.capabilities@.len(),
                caps@.len() == i,
                forall|j: int| 0 <= j < i ==> caps@[j]@ == self.capabilities@[j]@,
            decreases self.capabilities@.len() - i,
        {
            caps.push(self.capabilities[i].clone());
            i = i + 1;
        }
        assert(caps@.map_values(|s: String| s@) =~= self.capabilities@.map_values(|s: String| s@));
        Ok(OutgoingMessage { body: Outgoing::Capabilities(caps), newline: false })
    }
}

/// Authenticates with a node.
pub struct PasswordRequest {
    pub password: String,
}

impl PasswordRequest {
    /// The password message; it needs a stream.
    pub fn plan(&self, has_stream: bool) -> (r: Result<OutgoingMessage, TransportError>)
        ensures
            match r {
                Ok(o) => has_stream && (o.body matches Outgoing::Auth(a) && a.password@
                    == self.password@) && !o.newline,
                Err(e) => !has_stream && e == TransportError::NoStream,
            },
    {
        gate(false, 0, has_stream)?;
        Ok(
            OutgoingMessage {
                body: Outgoing::Auth(AuthTcpMessage { password: self.password.clone() }),
                newline: false,
            },
        )
    }
}

/// Stops the server on a node.
pub struct StopServerRequest {}

impl StopServerRequest {
    /// The `stop_server` command (empty code); refused during a transfer,
    /// and it needs a stream.
    pub fn plan(&self, priority: usize, has_stream: bool) -> (r: Result<
        OutgoingMessage,
        TransportError,
    >)
        ensures
            match r {
                Ok(o) => gate_outcome(true, priority, has_stream) is Ok && command_payload(
                    o,
                    "stop_server"@,
                    Seq::empty(),
                ),
                Err(e) => gate_outcome(true, priority, has_stream) == Err::<(), TransportError>(
                    e,
                ),
            },
    {
        proof {
            reveal_strlit("");
        assert(""@ =~= Seq::<char>::empty());
        }
        gate(true, priority, has_stream)?;
        Ok(command("stop_server", ""))
    }
}

/// The `start_server` command (empty code); refused during a transfer, and
/// it needs a stream.
pub fn start_server_message(priority: usize, has_stream: bool) -> (r: Result<
    OutgoingMessage,
    TransportError,
>)
    ensures
        match r {
            Ok(o) => gate_outcome(true, priority, has_stream) is Ok && command_payload(
                o,
                "start_server"@,
                Seq::empty(),
            ),
            Err(e) => gate_outcome(true, priority, has_stream) == Err::<(), TransportError>(e),
        },
{
    proof {
        reveal_strlit("");
        assert(""@ =~= Seq::<char>::empty());
    }
    gate(true, priority, has_stream)?;
    Ok(command("start_server", ""))
}

/// The `create_server` command with the server's metadata (empty code); it
/// needs a stream but goes through during a transfer.
pub fn create_server_message(metadata: MetadataTypes, has_stream: bool) -> (r: Result<
    OutgoingMessage,
    TransportError,
>)
    ensures
        match r {
            Ok(o) => has_stream && metadata_payload(
                o,
                "create_server"@,
                metadata@,
                Seq::empty(),
                false,
            ),
            Err(e) => !has_stream && e == TransportError::NoStream,
        },
{
    proof {
        reveal_strlit("");
        assert(""@ =~= Seq::<char>::empty());
    }
    gate(false, 0, has_stream)?;
    Ok(command_with_metadata("create_server", metadata, "", false))
}

/// Makes a server the node's current one.
pub struct SetServerRequest {
    pub metadata: MetadataTypes,
}

impl SetServerRequest {
    /// The `set_server` command with metadata (code `0`), ended by a line
    /// feed; refused during a transfer, and it needs a stream.
    pub fn plan(&self, priority: usize, has_stream: bool) -> (r: Result<
        OutgoingMessage,
        TransportError,
    >)
        ensures
            match r {
                Ok(o) => gate_outcome(true, priority, has_stream) is Ok && metadata_payload(
                    o,
                    "set_server"@,
                    self.metadata@,
                    "0"@,
                    true,
                ),
                Err(e) => gate_outcome(true, priority, has_stream) == Err::<(), TransportError>(
                    e,
                ),
            },
    {
        gate(true, priority, has_stream)?;
        Ok(command_with_metadata("set_server", self.metadata.clone(), "0", true))
    }
}

/// Asks a node for a server's data.
pub struct ServerDataRequest {
    pub metadata: MetadataTypes,
}

impl ServerDataRequest {
    /// The `server_data` command with metadata (code `0`), ended by a line
    /// feed; refused during a transfer, and it needs a stream.
    pub fn plan(&self, priority: usize, has_stream: bool) -> (r: Result<
        OutgoingMessage,
        TransportError,
    >)
        ensures
            match r {
                Ok(o) => gate_outcome(true, priority, has_stream) is Ok && metadata_payload(
                    o,
                    "server_data"@,
                    self.metadata@,
                    "0"@,
                    true,
                ),
                Err(e) => gate_outcome(true, priority, has_stream) == Err::<(), TransportError>(
                    e,
                ),
            },
    {
        gate(true, priority, has_stream)?;
        Ok(command_with_metadata("server_data", self.metadata.clone(), "0", true))
    }
}

/// Deletes a server on a node.
pub struct DeleteServerRequest {
    pub metadata: MetadataTypes,
}

impl DeleteServerRequest {
    /// The `delete_server` command with metadata (code `0`), ended by a line
    /// feed; refused during a transfer, and it needs a stream.
    pub fn plan(&self, priority: usize, has_stream: bool) -> (r: Result<
        OutgoingMessage,
        TransportError,
    >)
        ensures
            match r {
                Ok(o) => gate_outcome(true, priority, has_stream) is Ok && metadata_payload(
                    o,
                    "delete_server"@,
                    self.metadata@,
                    "0"@,
                    true,
                ),
                Err(e) => gate_outcome(true, priority, has_stream) == Err::<(), TransportError>(
                    e,
                ),
            },
    {
        gate(true, priority, has_stream)?;
        Ok(command_with_metadata("delete_server", self.metadata.clone(), "0", true))
    }
}

/// Sets a node's console filter.
pub struct FilterRequest {
    pub filter: Filters,
}

impl FilterRequest {
    /// The `set_filter` command with the filter (code `0`); refused during a
    /// transfer. Outside a transfer there must be a stream.
    pub fn plan(&self, priority: usize, has_stream: bool) -> (r: Result<
        OutgoingMessage,
        TransportError,
    >)
        requires
            priority == 0 ==> has_stream,
        ensures
            match r {
                Ok(o) => priority == 0 && metadata_payload(
                    o,
                    "set_filter"@,
                    MetadataView::Filter(self.filter),
                    "0"@,
                    false,
                ),
                Err(e) => priority > 0 && e == TransportError::HighPriority,
            },
    {
        gate(true, priority, true)?;
        Ok(command_with_metadata("set_filter", MetadataTypes::Filter(self.filter), "0", false))
    }
}

/// Pings a node.
pub struct Ping {}

impl Ping {
    /// The `ping` message; refused during a transfer, and it needs a stream.
    pub fn plan(&self, priority: usize, has_stream: bool) -> (r: Result<
        OutgoingMessage,
        TransportError,
    >)
        ensures
            match r {
                Ok(o) => gate_outcome(true, priority, has_stream) is Ok && (o.body matches Outgoing::Simple(
                    m,
                ) && m.message@ == "ping"@) && !o.newline,
                Err(e) => gate_outcome(true, priority, has_stream) == Err::<(), TransportError>(
                    e,
                ),
            },
    {
        gate(true, priority, has_stream)?;
        Ok(
            OutgoingMessage {
                body: Outgoing::Simple(SimpleMessage { message: owned("ping") }),
                newline: false,
            },
        )
    }
}

/// An integration's hook value (as JSON text), sent to a node ended by a
/// line feed; refused during a transfer, and it needs a stream.
pub fn integration_key_message(key_json: String, priority: usize, has_stream: bool) -> (r: Result<
    OutgoingMessage,
    TransportError,
>)
    ensures
        match r {
            Ok(o) => gate_outcome(true, priority, has_stream) is Ok && (o.body matches Outgoing::Json(
                j,
            ) && j@ == key_json@) && o.newline,
            Err(e) => gate_outcome(true, priority, has_stream) == Err::<(), TransportError>(e),
        },
{
    gate(true, priority, has_stream)?;
    Ok(OutgoingMessage { body: Outgoing::Json(key_json), newline: true })
}

/// How a node reports whether its server runs.
#[derive(Debug, Clone, Copy, PartialEq, Eq, Structural)]
pub enum StateActionType {
    Immediate,
    OnUpdate,
}

impl StateActionType {
    /// The default: report immediately.
    pub fn default_action() -> (r: StateActionType)
        ensures
            r == StateActionType::Immediate,
    {
        StateActionType::Immediate
    }
}

/// Asks a node whether its server runs.
pub struct ServerStateRequest {}

impl ServerStateRequest {
    /// The state request sends nothing over the stream; it is only refused
    /// during a transfer.
    pub fn plan(&self, priority: usize) -> (r: Result<(), TransportError>)
        ensures
            priority > 0 <==> r == Err::<(), TransportError>(TransportError::HighPriority),
            priority == 0 <==> r is Ok,
    {
        if priority > 0 {
            Err(TransportError::HighPriority)
        } else {
            Ok(())
        }
    }
}

/// Raw bytes for a node's stream.
pub struct RawBytes {
    pub bytes: Vec<u8>,
}

/// A transfer request (its JSON text) for a node, without a line feed;
/// refused during a transfer, and it needs a stream.
pub fn migrate_message(request_json: String, priority: usize, has_stream: bool) -> (r: Result<
    OutgoingMessage,
    TransportError,
>)
    ensures
        match r {
            Ok(o) => gate_outcome(true, priority, has_stream) is Ok && (o.body matches Outgoing::Json(
                j,
            ) && j@ == request_json@) && !o.newline,
            Err(e) => gate_outcome(true, priority, has_stream) == Err::<(), TransportError>(e),
        },
{
    gate(true, priority, has_stream)?;
    Ok(OutgoingMessage { body: Outgoing::Json(request_json), newline: false })
}

/// The priority a file transfer holds the stream with.
pub open spec fn transfer_priority() -> usize {
    1
}

/// The priority of a stream that no transfer holds.
pub open spec fn idle_priority() -> usize {
    0
}

/// Starting a file transfer: it needs a stream, and then holds it until it
/// ends.
pub fn begin_transfer(has_stream: bool) -> (r: Result<usize, TransportError>)
    ensures
        has_stream ==> r == Ok::<usize, TransportError>(transfer_priority()),
        !has_stream ==> r == Err::<usize, TransportError>(TransportError::NoStream),
{
    if has_stream {
        Ok(1)
    } else {
        Err(TransportError::NoStream)
    }
}

/// Ending a file transfer, however it ended, releases the stream.
pub fn end_transfer() -> (r: usize)
    ensures
        r == idle_priority(),
{
    0
}

/// While a transfer holds the stream, every request that respects
/// transfers is refused; once it ends, such a request goes through on a
/// stream.
pub proof fn lemma_transfer_holds_the_stream(has_stream: bool)
    ensures
        gate_outcome(true, transfer_priority(), has_stream) == Err::<(), TransportError>(
            TransportError::HighPriority,
        ),
        has_stream ==> gate_outcome(true, idle_priority(), has_stream) is Ok,
{
}

} // verus!
