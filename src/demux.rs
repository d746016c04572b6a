use vstd::prelude::*;
use vstd::slice::slice_subrange;

verus! {

/// The four-byte discriminator that opens every transport connection.
#[derive(Clone, Copy, Debug, PartialEq, Eq, Structural)]
pub enum FunctionTag {
    Display,
    Time,
    Tcp,
    SshAgent,
    CredentialAgent,
    NoOp,
}

/// Which of the two credential-agent sockets a connection serves.
#[derive(Clone, Copy, Debug, PartialEq, Eq, Structural)]
pub enum SocketVariant {
    Default,
    Extra,
}

/// The handler that owns the rest of a demultiplexed connection.
#[derive(Clone, Copy, Debug, PartialEq, Eq, Structural)]
pub enum Handler {
    Display,
    Time,
    Tcp,
    SshAgent,
    CredentialAgent(SocketVariant),
    NoOp,
}

/// Where a connection goes, and how many leading bytes the decision used.
#[derive(Clone, Copy, Debug, PartialEq, Eq, Structural)]
pub struct Dispatch {
    pub handler: Handler,
    pub consumed: usize,
}

/// Why a connection is dropped before any handler runs.
#[derive(Clone, Copy, Debug, PartialEq, Eq, Structural)]
pub enum DemuxError {
    /// The stream ended before the tag (or the variant byte) was complete.
    ShortRead,
    /// The first four bytes name no known function.
    UnknownFunction,
    /// The credential-agent variant byte is neither `0` nor `1`.
    InvalidVariant,
}

/// Length of a function tag on the wire.
pub const TAG_LEN: usize = 4;

fn same_bytes(b: &[u8], t: [u8; 4]) -> (r: bool)
    requires
        b@.len() == 4,
    ensures
        r == (b@ == t@),
{
    let r = b[0] == t[0] && b[1] == t[1] && b[2] == t[2] && b[3] == t[3];
    if r {
        assert(b@ =~= t@);
    }
    r
}

impl FunctionTag {
    /// The wire bytes of the tag: `x11\0`, `time`, `tcp\0`, `ssha`, `gpga`, `noop`.
    pub open spec fn spec_bytes(self) -> Seq<u8> {
        match self {
            FunctionTag::Display => seq![120u8, 49u8, 49u8, 0u8],
            FunctionTag::Time => seq![116u8, 105u8, 109u8, 101u8],
            FunctionTag::Tcp => seq![116u8, 99u8, 112u8, 0u8],
            FunctionTag::SshAgent => seq![115u8, 115u8, 104u8, 97u8],
            FunctionTag::CredentialAgent => seq![103u8, 112u8, 103u8, 97u8],
            FunctionTag::NoOp => seq![110u8, 111u8, 111u8, 112u8],
        }
    }

    pub fn bytes(self) -> (r: [u8; 4])
        ensures
            r@ == self.spec_bytes(),
    {
        let r: [u8; 4] = match self {
            FunctionTag::Display => [120u8, 49u8, 49u8, 0u8],
            FunctionTag::Time => [116u8, 105u8, 109u8, 101u8],
            FunctionTag::Tcp => [116u8, 99u8, 112u8, 0u8],
            FunctionTag::SshAgent => [115u8, 115u8, 104u8, 97u8],
            FunctionTag::CredentialAgent => [103u8, 112u8, 103u8, 97u8],
            FunctionTag::NoOp => [110u8, 111u8, 111u8, 112u8],
        };
        assert(r@ =~= self.spec_bytes());
        r
    }

    /// The tag whose wire bytes are `b`, if any.
    pub open spec fn spec_from_bytes(b: Seq<u8>) -> Option<FunctionTag> {
        if b == FunctionTag::Display.spec_bytes() {
            Some(FunctionTag::Display)
        } else if b == FunctionTag::Time.spec_bytes() {
            Some(FunctionTag::Time)
        } else if b == FunctionTag::Tcp.spec_bytes() {
            Some(FunctionTag::Tcp)
        } else if b == FunctionTag::SshAgent.spec_bytes() {
            Some(FunctionTag::SshAgent)
        } else if b == FunctionTag::CredentialAgent.spec_bytes() {
            Some(FunctionTag::CredentialAgent)
        } else if b == FunctionTag::NoOp.spec_bytes() {
            Some(FunctionTag::NoOp)
        } else {
            None
        }
    }

    /// Reading a tag's own bytes gives that tag back.
    pub proof fn lemma_from_spec_bytes(t: FunctionTag)
        ensures
            FunctionTag::spec_from_bytes(t.spec_bytes()) == Some(t),
    {
        lemma_tags_distinct(t, FunctionTag::Display);
        lemma_tags_distinct(t, FunctionTag::Time);
        lemma_tags_distinct(t, FunctionTag::Tcp);
        lemma_tags_distinct(t, FunctionTag::SshAgent);
        lemma_tags_distinct(t, FunctionTag::CredentialAgent);
    }

    /// Recognises a tag from the first four bytes of a connection.
    pub fn from_bytes(b: &[u8]) -> (r: Option<FunctionTag>)
        requires
            b@.len() == 4,
        ensures
            r == FunctionTag::spec_from_bytes(b@),
            r matches Some(t) ==> t.spec_bytes() == b@,
    {
        if same_bytes(b, FunctionTag::Display.bytes()) {
            Some(FunctionTag::Display)
        } else if same_bytes(b, FunctionTag::Time.bytes()) {
            Some(FunctionTag::Time)
        } else if same_bytes(b, FunctionTag::Tcp.bytes()) {
            Some(FunctionTag::Tcp)
        } else if same_bytes(b, FunctionTag::SshAgent.bytes()) {
            Some(FunctionTag::SshAgent)
        } else if same_bytes(b, FunctionTag::CredentialAgent.bytes()) {
            Some(FunctionTag::CredentialAgent)
        } else if same_bytes(b, FunctionTag::NoOp.bytes()) {
            Some(FunctionTag::NoOp)
        } else {
            None
        }
    }
}

impl SocketVariant {
    /// The ASCII digit that names the variant on the wire: `0` or `1`.
    pub open spec fn spec_code(self) -> u8 {
        match self {
            SocketVariant::Default => 48u8,
            SocketVariant::Extra => 49u8,
        }
    }

    pub fn code(self) -> (r: u8)
        ensures
            r == self.spec_code(),
    {
        match self {
            SocketVariant::Default => 48u8,
            SocketVariant::Extra => 49u8,
        }
    }

    /// The variant whose code is `b`, if any.
    pub open spec fn spec_from_code(b: u8) -> Option<SocketVariant> {
        if b == 48 {
            Some(SocketVariant::Default)
        } else if b == 49 {
            Some(SocketVariant::Extra)
        } else {
            None
        }
    }

    pub fn from_code(b: u8) -> (r: Option<SocketVariant>)
        ensures
            r == SocketVariant::spec_from_code(b),
            r matches Some(v) ==> v.spec_code() == b,
    {
        if b == 48 {
            Some(SocketVariant::Default)
        } else if b == 49 {
            Some(SocketVariant::Extra)
        } else {
            None
        }
    }
}

/// What the demultiplexer does with a connection whose first bytes are `input`.
pub open spec fn dispatch_spec(input: Seq<u8>) -> Result<Dispatch, DemuxError> {
    if input.len() < 4 {
        Err(DemuxError::ShortRead)
    } else {
        match FunctionTag::spec_from_bytes(input.take(4)) {
            None => Err(DemuxError::UnknownFunction),
            Some(FunctionTag::CredentialAgent) => if input.len() < 5 {
                Err(DemuxError::ShortRead)
            } else {
                match SocketVariant::spec_from_code(input[4]) {
                    None => Err(DemuxError::InvalidVariant),
                    Some(v) => Ok(Dispatch { handler: Handler::CredentialAgent(v), consumed: 5 }),
                }
            },
            Some(t) => Ok(Dispatch { handler: handler_of(t), consumed: 4 }),
        }
    }
}

/// The handler of a tag that takes no further header byte.
pub open spec fn handler_of(t: FunctionTag) -> Handler {
    match t {
        FunctionTag::Display => Handler::Display,
        FunctionTag::Time => Handler::Time,
        FunctionTag::Tcp => Handler::Tcp,
        FunctionTag::SshAgent => Handler::SshAgent,
        FunctionTag::CredentialAgent => Handler::CredentialAgent(SocketVariant::Default),
        FunctionTag::NoOp => Handler::NoOp,
    }
}

/// Chooses the handler for a connection from its first bytes. Only the
/// tag, and for the credential agent the variant byte after it, are read:
/// the handler gets the stream from `consumed` on.
pub fn dispatch(input: &[u8]) -> (r: Result<Dispatch, DemuxError>)
    ensures
        r == dispatch_spec(input@),
        r matches Ok(d) ==> d.consumed <= input@.len(),
{
    if input.len() < TAG_LEN {
        return Err(DemuxError::ShortRead);
    }
    let head = slice_subrange(input, 0, 4);
    assert(head@ =~= input@.take(4));
    match FunctionTag::from_bytes(head) {
        None => Err(DemuxError::UnknownFunction),
        Some(FunctionTag::CredentialAgent) => {
            if input.len() < 5 {
                Err(DemuxError::ShortRead)
            } else {
                match SocketVariant::from_code(input[4]) {
                    None => Err(DemuxError::InvalidVariant),
                    Some(v) => Ok(Dispatch { handler: Handler::CredentialAgent(v), consumed: 5 }),
                }
            }
        },
        Some(FunctionTag::Display) => Ok(Dispatch { handler: Handler::Display, consumed: 4 }),
        Some(FunctionTag::Time) => Ok(Dispatch { handler: Handler::Time, consumed: 4 }),
        Some(FunctionTag::Tcp) => Ok(Dispatch { handler: Handler::Tcp, consumed: 4 }),
        Some(FunctionTag::SshAgent) => Ok(Dispatch { handler: Handler::SshAgent, consumed: 4 }),
        Some(FunctionTag::NoOp) => Ok(Dispatch { handler: Handler::NoOp, consumed: 4 }),
    }
}

/// The header a client writes on a fresh transport connection for the
/// credential agent: the tag, then the variant's code.
pub fn credential_agent_header(variant: SocketVariant) -> (r: Vec<u8>)
    ensures
        r@ == FunctionTag::CredentialAgent.spec_bytes().push(variant.spec_code()),
{
    let tag = FunctionTag::CredentialAgent.bytes();
    let mut r: Vec<u8> = Vec::new();
    r.push(tag[0]);
    r.push(tag[1]);
    r.push(tag[2]);
    r.push(tag[3]);
    r.push(variant.code());
    assert(r@ =~= FunctionTag::CredentialAgent.spec_bytes().push(variant.spec_code()));
    r
}

/// Distinct functions have distinct tags, so a connection goes to one handler.
pub proof fn lemma_tags_distinct(a: FunctionTag, b: FunctionTag)
    ensures
        a.spec_bytes() == b.spec_bytes() <==> a == b,
{
    if a.spec_bytes() == b.spec_bytes() && a != b {
        assert(a.spec_bytes()[0] == b.spec_bytes()[0]);
        assert(a.spec_bytes()[1] == b.spec_bytes()[1]);
        assert(a.spec_bytes()[3] == b.spec_bytes()[3]);
    }
}

/// A connection that starts with a known tag goes to that tag's handler, and
/// the demultiplexer takes the tag alone (the tag and one variant byte for
/// the credential agent), whatever follows.
pub proof fn lemma_dispatch_takes_tag(t: FunctionTag, rest: Seq<u8>)
    ensures
        t != FunctionTag::CredentialAgent ==> dispatch_spec(t.spec_bytes() + rest) == Ok::<
            Dispatch,
            DemuxError,
        >(Dispatch { handler: handler_of(t), consumed: 4 }),
        t == FunctionTag::CredentialAgent ==> dispatch_spec(t.spec_bytes() + rest) == (if rest.len()
            == 0 {
            Err(DemuxError::ShortRead)
        } else {
            match SocketVariant::spec_from_code(rest[0]) {
                None => Err(DemuxError::InvalidVariant),
                Some(v) => Ok(Dispatch { handler: Handler::CredentialAgent(v), consumed: 5 }),
            }
        }),
{
    let input = t.spec_bytes() + rest;
    assert(input.take(4) =~= t.spec_bytes());
    FunctionTag::lemma_from_spec_bytes(t);
    if rest.len() > 0 {
        assert(input[4] == rest[0]);
    }
}

/// Four bytes that are no known tag close the connection, whatever follows,
/// and no handler runs.
pub proof fn lemma_unknown_tag_rejected(input: Seq<u8>)
    requires
        input.len() >= 4,
        forall|t: FunctionTag| input.take(4) != t.spec_bytes(),
    ensures
        dispatch_spec(input) == Err::<Dispatch, DemuxError>(DemuxError::UnknownFunction),
{
    assert(input.take(4) != FunctionTag::Display.spec_bytes());
    assert(input.take(4) != FunctionTag::Time.spec_bytes());
    assert(input.take(4) != FunctionTag::Tcp.spec_bytes());
    assert(input.take(4) != FunctionTag::SshAgent.spec_bytes());
    assert(input.take(4) != FunctionTag::CredentialAgent.spec_bytes());
    assert(input.take(4) != FunctionTag::NoOp.spec_bytes());
}

} // verus!
