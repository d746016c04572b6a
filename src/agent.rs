use vstd::prelude::*;
use crate::decimal::{parse_u16, u16_of};
use crate::demux::SocketVariant;

verus! {

/// Why an agent directory file cannot be used.
#[derive(Clone, Copy, Debug, PartialEq, Eq, Structural)]
pub enum AgentDirError {
    /// The file has no newline after the port number.
    MissingNewline,
    /// The first line is not a decimal port number.
    InvalidPort,
}

/// The local endpoint of the credential agent: a TCP port on localhost and
/// the nonce to send first on each connection.
#[derive(Debug)]
pub struct AgentEndpoint {
    pub port: u16,
    pub nonce: Vec<u8>,
}

/// The index of the first newline at or after `i`.
pub open spec fn newline_from(s: Seq<u8>, i: int) -> Option<int>
    decreases s.len() - i,
{
    if i < 0 || i >= s.len() {
        None
    } else if s[i] == 10 {
        Some(i)
    } else {
        newline_from(s, i + 1)
    }
}

/// What an agent directory file says: the port on its first line and the
/// bytes after the first newline as the nonce.
pub open spec fn agent_directory(content: Seq<u8>) -> Result<(u16, Seq<u8>), AgentDirError> {
    match newline_from(content, 0) {
        None => Err(AgentDirError::MissingNewline),
        Some(n) => match u16_of(content.take(n)) {
            None => Err(AgentDirError::InvalidPort),
            Some(port) => Ok((port, content.skip(n + 1))),
        },
    }
}

/// A fresh vector holding `s[lo..hi]`.
fn copy_range(s: &[u8], lo: usize, hi: usize) -> (r: Vec<u8>)
    requires
        lo <= hi <= s@.len(),
    ensures
        r@ == s@.subrange(lo as int, hi as int),
{
    let mut r: Vec<u8> = Vec::new();
    let mut k: usize = lo;
    while k < hi
        invariant
            lo <= k <= hi <= s@.len(),
            r@ == s@.subrange(lo as int, k as int),
        decreases hi - k,
    {
        r.push(s[k]);
        k = k + 1;
        assert(r@ =~= s@.subrange(lo as int, k as int));
    }
    r
}

/// Reads an agent directory file: a decimal port number, one newline, then
/// the raw nonce bytes up to the end.
pub fn parse_agent_directory(content: &[u8]) -> (r: Result<AgentEndpoint, AgentDirError>)
    ensures
        match agent_directory(content@) {
            Ok((port, nonce)) => r matches Ok(e) && e.port == port && e.nonce@ == nonce,
            Err(err) => r == Err::<AgentEndpoint, AgentDirError>(err),
        },
{
    let mut i: usize = 0;
    while i < content.len()
        invariant
            i <= content@.len(),
            newline_from(content@, i as int) == newline_from(content@, 0),
        decreases content@.len() - i,
    {
        if content[i] == 10 {
            assert(content@.subrange(0, i as int) =~= content@.take(i as int));
            match parse_u16(content, 0, i) {
                None => {
                    return Err(AgentDirError::InvalidPort);
                },
                Some(port) => {
                    let nonce = copy_range(content, i + 1, content.len());
                    assert(nonce@ =~= content@.skip(i + 1));
                    return Ok(AgentEndpoint { port, nonce });
                },
            }
        }
        i = i + 1;
    }
    Err(AgentDirError::MissingNewline)
}

/// Where the server leg of a credential-agent connection stands.
#[derive(Clone, Copy, Debug, PartialEq, Eq, Structural)]
pub enum AgentLegState {
    /// Waiting for the variant byte that follows the tag.
    AwaitVariant,
    /// The directory helper runs for the chosen socket kind.
    AwaitDirectory,
    /// The helper that makes sure the local agent runs is running.
    AwaitAgent,
    /// The agent directory file is being read.
    AwaitDirectoryFile,
    /// Connected to the local agent; bytes are relayed.
    Relaying,
    /// The connection was dropped.
    Closed,
}

/// What the outside world reports to the server leg.
#[derive(Debug)]
pub enum AgentLegEvent {
    /// The byte after the tag.
    VariantByte(u8),
    /// The directory helper finished; `true` when it succeeded.
    DirectoryQueried(bool),
    /// The agent-starting helper finished; `true` when it succeeded.
    AgentEnsured(bool),
    /// The raw bytes of the agent directory file.
    DirectoryFile(Vec<u8>),
}

/// Why the server leg drops its connection.
#[derive(Clone, Copy, Debug, PartialEq, Eq, Structural)]
pub enum AgentLegError {
    InvalidVariant,
    DirectoryQueryFailed,
    AgentStartFailed,
    Directory(AgentDirError),
    /// An event came that the current state does not wait for.
    UnexpectedEvent,
}

/// What the server leg asks the outside world to do next.
#[derive(Debug)]
pub enum AgentLegAction {
    /// Run the directory helper for this socket kind.
    QueryDirectory(SocketVariant),
    /// Run the helper that makes sure the local agent runs.
    EnsureAgent,
    /// Read the agent directory file that the directory helper named.
    ReadDirectoryFile,
    /// Connect to localhost at `port`, send `nonce` first, then relay.
    Connect { port: u16, nonce: Vec<u8> },
    /// Drop the connection; the listener goes on.
    Drop(AgentLegError),
}

/// The next state and action of the server leg.
#[derive(Debug)]
pub struct AgentStep {
    pub state: AgentLegState,
    pub action: AgentLegAction,
}

/// The step is a drop for `err` into the closed state.
pub open spec fn drops(r: AgentStep, err: AgentLegError) -> bool {
    r.state == AgentLegState::Closed && r.action == AgentLegAction::Drop(err)
}

/// Advances the server leg of a credential-agent connection by one event.
/// Each helper must succeed, in order, before the directory file is read,
/// and bytes flow only once that file gave a port and a nonce; any failure
/// drops this connection alone.
pub fn agent_leg_step(state: AgentLegState, event: AgentLegEvent) -> (r: AgentStep)
    ensures
        match (state, event) {
            (AgentLegState::AwaitVariant, AgentLegEvent::VariantByte(b)) => match SocketVariant::spec_from_code(b) {
                Some(v) => r.state == AgentLegState::AwaitDirectory && r.action == AgentLegAction::QueryDirectory(v),
                None => drops(r, AgentLegError::InvalidVariant),
            },
            (AgentLegState::AwaitDirectory, AgentLegEvent::DirectoryQueried(ok)) => if ok {
                r.state == AgentLegState::AwaitAgent && r.action == AgentLegAction::EnsureAgent
            } else {
                drops(r, AgentLegError::DirectoryQueryFailed)
            },
            (AgentLegState::AwaitAgent, AgentLegEvent::AgentEnsured(ok)) => if ok {
                r.state == AgentLegState::AwaitDirectoryFile && r.action == AgentLegAction::ReadDirectoryFile
            } else {
                drops(r, AgentLegError::AgentStartFailed)
            },
            (AgentLegState::AwaitDirectoryFile, AgentLegEvent::DirectoryFile(content)) => match agent_directory(content@) {
                Ok((port, nonce)) => r.state == AgentLegState::Relaying && (r.action matches AgentLegAction::Connect { port: p, nonce: n } && p == port && n@ == nonce),
                Err(e) => drops(r, AgentLegError::Directory(e)),
            },
            _ => drops(r, AgentLegError::UnexpectedEvent),
        },
{
    let closed = AgentLegState::Closed;
    match (state, event) {
        (AgentLegState::AwaitVariant, AgentLegEvent::VariantByte(b)) => match SocketVariant::from_code(b) {
            Some(v) => AgentStep { state: AgentLegState::AwaitDirectory, action: AgentLegAction::QueryDirectory(v) },
            None => AgentStep { state: closed, action: AgentLegAction::Drop(AgentLegError::InvalidVariant) },
        },
        (AgentLegState::AwaitDirectory, AgentLegEvent::DirectoryQueried(ok)) => if ok {
            AgentStep { state: AgentLegState::AwaitAgent, action: AgentLegAction::EnsureAgent }
        } else {
            AgentStep { state: closed, action: AgentLegAction::Drop(AgentLegError::DirectoryQueryFailed) }
        },
        (AgentLegState::AwaitAgent, AgentLegEvent::AgentEnsured(ok)) => if ok {
            AgentStep { state: AgentLegState::AwaitDirectoryFile, action: AgentLegAction::ReadDirectoryFile }
        } else {
            AgentStep { state: closed, action: AgentLegAction::Drop(AgentLegError::AgentStartFailed) }
        },
        (AgentLegState::AwaitDirectoryFile, AgentLegEvent::DirectoryFile(content)) => match parse_agent_directory(content.as_slice()) {
            Ok(e) => AgentStep { state: AgentLegState::Relaying, action: AgentLegAction::Connect { port: e.port, nonce: e.nonce } },
            Err(e) => AgentStep { state: closed, action: AgentLegAction::Drop(AgentLegError::Directory(e)) },
        },
        _ => AgentStep { state: closed, action: AgentLegAction::Drop(AgentLegError::UnexpectedEvent) },
    }
}

/// The socket kind whose directory the helper is asked for.
pub fn directory_kind(variant: SocketVariant) -> (r: &'static str)
    ensures
        variant == SocketVariant::Default ==> r@ == "agent-socket"@,
        variant == SocketVariant::Extra ==> r@ == "agent-extra-socket"@,
{
    match variant {
        SocketVariant::Default => "agent-socket",
        SocketVariant::Extra => "agent-extra-socket",
    }
}

} // verus!
