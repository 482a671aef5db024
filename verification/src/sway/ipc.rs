//! Messages to and from Sway, in the i3 format: the text `i3-ipc`, the length of
//! the payload and the type of the message as little-endian numbers of 32 bits,
//! and the payload.

use vstd::bytes::*;
use vstd::prelude::*;
use vstd::slice::*;
use vstd::string::*;
use vstd::utf8::*;

use crate::json::{parse, parsed, Json};
use crate::text::{cat, cat3, dec, dec_of, opt_text, owned, text_from_utf8, utf8_error};
use crate::types::{unit_view, AgentShellError, ErrorView};

verus! {

/// How many bytes stand in front of the payload.
pub const HEADER_LEN: usize = 14;

/// The largest payload that is accepted.
pub const MAX_PAYLOAD: u32 = 16_777_216;

/// Set in the type of a message that is an event.
pub const EVENT_MASK: u32 = 0x8000_0000;

/// The type of a workspace event.
pub const EVENT_WORKSPACE: u32 = 0x8000_0000;

/// The type of a window event.
pub const EVENT_WINDOW: u32 = 0x8000_0003;

/// The requests in use.
#[derive(Clone, Copy, Debug, PartialEq, Eq, Structural)]
pub enum IpcCommand {
    GetVersion,
    GetWorkspaces,
    GetOutputs,
    GetTree,
    RunCommand,
    Subscribe,
}

/// The type of the message for a request.
pub open spec fn type_of(cmd: IpcCommand) -> u32 {
    match cmd {
        IpcCommand::GetVersion => 0,
        IpcCommand::GetWorkspaces => 1,
        IpcCommand::GetOutputs => 3,
        IpcCommand::GetTree => 4,
        IpcCommand::RunCommand => 0,
        IpcCommand::Subscribe => 100,
    }
}

impl IpcCommand {
    /// The type of the message for the request.
    pub fn as_u32(self) -> (r: u32)
        ensures
            r == type_of(self),
    {
        match self {
            IpcCommand::GetVersion => 0,
            IpcCommand::GetWorkspaces => 1,
            IpcCommand::GetOutputs => 3,
            IpcCommand::GetTree => 4,
            IpcCommand::RunCommand => 0,
            IpcCommand::Subscribe => 100,
        }
    }
}

// ---------------------------------------------------------------------------
// Framing
// ---------------------------------------------------------------------------
/// The bytes of `i3-ipc`.
pub open spec fn magic() -> Seq<u8> {
    seq![0x69u8, 0x33u8, 0x2du8, 0x69u8, 0x70u8, 0x63u8]
}

/// The bytes of a message.
pub open spec fn frame(kind: u32, payload: Seq<u8>) -> Seq<u8> {
    magic() + spec_u32_to_le_bytes(payload.len() as u32) + spec_u32_to_le_bytes(kind) + payload
}

/// What the header of a message says: the length of the payload and the type.
/// Another start is refused, as is a payload beyond the limit.
pub open spec fn header_of(h: Seq<u8>) -> Result<(u32, u32), ErrorView> {
    let len = spec_u32_from_le_bytes(h.subrange(6, 10));
    if h.take(6) != magic() {
        Err(ErrorView::DBus("sway ipc: bad magic (protocol desync)"@))
    } else if len > MAX_PAYLOAD {
        Err(
            ErrorView::DBus(
                "sway ipc: payload "@ + dec(len as nat) + " exceeds sanity limit"@,
            ),
        )
    } else {
        Ok((len, spec_u32_from_le_bytes(h.subrange(10, 14))))
    }
}

/// What a payload says.
pub open spec fn payload_of(bytes: Seq<u8>) -> Result<Seq<char>, ErrorView> {
    if valid_utf8(bytes) {
        Ok(decode_utf8(bytes))
    } else {
        Err(ErrorView::DBus("sway ipc: non-utf8 payload: "@ + utf8_error(bytes)))
    }
}

/// The bytes of a request.
pub fn encode_message(cmd: IpcCommand, payload: &str) -> (r: Vec<u8>)
    ensures
        r@ == frame(type_of(cmd), payload.spec_bytes()),
{
    let bytes = payload.as_bytes();
    let mut buf: Vec<u8> = Vec::new();
    buf.push(0x69);
    buf.push(0x33);
    buf.push(0x2d);
    buf.push(0x69);
    buf.push(0x70);
    buf.push(0x63);
    assert(buf@ =~= magic());
    let n: u32 = #[verifier::truncate] (bytes.len() as u32);
    let mut len = u32_to_le_bytes(n);
    buf.append(&mut len);
    let mut kind = u32_to_le_bytes(cmd.as_u32());
    buf.append(&mut kind);
    let mut body = slice_to_vec(bytes);
    buf.append(&mut body);
    assert(buf@ =~= frame(type_of(cmd), payload.spec_bytes()));
    buf
}

/// Reads the header of a message: the length of the payload and the type.
pub fn decode_header(header: &[u8]) -> (r: Result<(u32, u32), AgentShellError>)
    requires
        header@.len() == HEADER_LEN,
    ensures
        match r {
            Ok(p) => header_of(header@) == Ok::<(u32, u32), ErrorView>(p),
            Err(e) => header_of(header@) == Err::<(u32, u32), ErrorView>(e@),
        },
{
    let good = header[0] == 0x69 && header[1] == 0x33 && header[2] == 0x2d && header[3] == 0x69
        && header[4] == 0x70 && header[5] == 0x63;
    proof {
        if good {
            assert(header@.take(6) =~= magic());
        } else {
            assert(header@.take(6)[0] == header@[0] && header@.take(6)[1] == header@[1]
                && header@.take(6)[2] == header@[2] && header@.take(6)[3] == header@[3]
                && header@.take(6)[4] == header@[4] && header@.take(6)[5] == header@[5]);
        }
    }
    if !good {
        return Err(AgentShellError::DBus(owned("sway ipc: bad magic (protocol desync)")));
    }
    let len: u32 = u32_from_le_bytes(slice_subrange(header, 6, 10));
    let kind: u32 = u32_from_le_bytes(slice_subrange(header, 10, 14));
    if len > MAX_PAYLOAD {
        let n = dec_of(len as u64);
        return Err(
            AgentShellError::DBus(cat3("sway ipc: payload ", n.as_str(), " exceeds sanity limit")),
        );
    }
    Ok((len, kind))
}

/// Reads the payload of a message.
pub fn decode_payload(payload: Vec<u8>) -> (r: Result<String, AgentShellError>)
    ensures
        match r {
            Ok(s) => payload_of(payload@) == Ok::<Seq<char>, ErrorView>(s@),
            Err(e) => payload_of(payload@) == Err::<Seq<char>, ErrorView>(e@),
        },
{
    match text_from_utf8(payload) {
        Ok(s) => Ok(s),
        Err(e) => Err(AgentShellError::DBus(cat("sway ipc: non-utf8 payload: ", e.as_str()))),
    }
}

/// What is read of a message is what was written: its type, the length of its
/// payload, and the payload itself.
pub proof fn law_message_round_trip(kind: u32, text: Seq<char>)
    requires
        encode_utf8(text).len() <= MAX_PAYLOAD,
    ensures
        ({
            let bytes = encode_utf8(text);
            let message = frame(kind, bytes);
            &&& message.len() == HEADER_LEN + bytes.len()
            &&& header_of(message.take(HEADER_LEN as int)) == Ok::<(u32, u32), ErrorView>(
                (bytes.len() as u32, kind),
            )
            &&& payload_of(message.skip(HEADER_LEN as int)) == Ok::<Seq<char>, ErrorView>(text)
        }),
{
    let bytes = encode_utf8(text);
    let message = frame(kind, bytes);
    lemma_auto_spec_u32_to_from_le_bytes();
    let n = bytes.len() as u32;
    assert(spec_u32_to_le_bytes(n).len() == 4);
    assert(spec_u32_to_le_bytes(kind).len() == 4);
    let h = message.take(HEADER_LEN as int);
    assert(h.take(6) =~= magic());
    assert(h.subrange(6, 10) =~= spec_u32_to_le_bytes(n));
    assert(h.subrange(10, 14) =~= spec_u32_to_le_bytes(kind));
    assert(message.skip(HEADER_LEN as int) =~= bytes);
    encode_utf8_valid_utf8(text);
    encode_utf8_decode_utf8(text);
}

// ---------------------------------------------------------------------------
// Requests
// ---------------------------------------------------------------------------
/// Where Sway listens.
#[derive(Debug)]
pub struct SwayIpc {
    socket_path: String,
}

impl SwayIpc {
    /// The path of the socket.
    pub closed spec fn path(self) -> Seq<char> {
        self.socket_path@
    }

    /// The socket that the environment names. Without it this is no Sway
    /// session.
    pub fn from_env(swaysock: Option<String>) -> (r: Result<SwayIpc, AgentShellError>)
        ensures
            match opt_text(swaysock) {
                Some(p) => r matches Ok(ipc) && ipc.path() == p,
                None => r matches Err(e) && e@ == ErrorView::BackendUnavailable(
                    "SWAYSOCK not set (not a sway session?)"@,
                ),
            },
    {
        match swaysock {
            Some(socket_path) => Ok(SwayIpc { socket_path }),
            None => Err(
                AgentShellError::BackendUnavailable(
                    owned("SWAYSOCK not set (not a sway session?)"),
                ),
            ),
        }
    }

    /// A socket at a given path.
    pub fn with_socket_path(path: &str) -> (r: SwayIpc)
        ensures
            r.path() == path@,
    {
        SwayIpc { socket_path: owned(path) }
    }

    /// The path of the socket.
    pub fn socket_path(&self) -> (r: &str)
        ensures
            r@ == self.path(),
    {
        self.socket_path.as_str()
    }

    /// The error for a connection that failed.
    pub fn connect_error(&self, reason: &str) -> (r: AgentShellError)
        ensures
            r@ == ErrorView::BackendUnavailable(
                "sway ipc connect "@ + self.path() + ": "@ + reason@,
            ),
    {
        let mut out = cat3("sway ipc connect ", self.socket_path.as_str(), ": ");
        out.append(reason);
        AgentShellError::BackendUnavailable(out)
    }
}

/// What an answer holds.
pub open spec fn reply_value(body: Seq<char>) -> Result<Json, ErrorView> {
    match parsed(body) {
        Ok(v) => Ok(v),
        Err(e) => Err(ErrorView::Other("sway ipc: invalid JSON reply: "@ + e)),
    }
}

/// Reads an answer.
pub fn read_reply(body: &str) -> (r: Result<Json, AgentShellError>)
    ensures
        match r {
            Ok(v) => reply_value(body@) == Ok::<Json, ErrorView>(v),
            Err(e) => reply_value(body@) == Err::<Json, ErrorView>(e@),
        },
{
    match parse(body) {
        Ok(v) => Ok(v),
        Err(e) => Err(AgentShellError::Other(cat("sway ipc: invalid JSON reply: ", e.as_str()))),
    }
}

/// What the first entry that reports a failure says, if there is one.
pub open spec fn first_failure(entries: Seq<Json>) -> Option<Seq<char>>
    decreases entries.len(),
{
    if entries.len() == 0 {
        None
    } else if entries[0].bool_of("success"@) == Some(false) {
        Some(
            match entries[0].str_of("error"@) {
                Some(e) => e,
                None => "unknown error"@,
            },
        )
    } else {
        first_failure(entries.skip(1))
    }
}

/// Whether a command was carried out: no entry of the answer reports a failure.
pub open spec fn command_outcome(command: Seq<char>, reply: Json) -> Result<(), ErrorView> {
    match reply.items() {
        None => Ok(()),
        Some(entries) => match first_failure(entries) {
            None => Ok(()),
            Some(e) => Err(ErrorView::Other("sway ipc: `"@ + command + "` failed: "@ + e)),
        },
    }
}

/// Checks the answer to a command.
pub fn check_command(command: &str, reply: &Json) -> (r: Result<(), AgentShellError>)
    ensures
        unit_view(r) == command_outcome(command@, *reply),
{
    let entries = match reply.as_array() {
        Some(a) => a,
        None => return Ok(()),
    };
    let mut i: usize = 0;
    assert(entries@.skip(0) =~= entries@);
    while i < entries.len()
        invariant
            i <= entries.len(),
            reply.items() == Some(entries@),
            first_failure(entries@) == first_failure(entries@.skip(i as int)),
        decreases entries.len() - i,
    {
        let failed = match entries[i].get_bool("success") {
            Some(ok) => !ok,
            None => false,
        };
        if failed {
            let e = match entries[i].get_str("error") {
                Some(e) => e,
                None => "unknown error",
            };
            let mut out = cat3("sway ipc: `", command, "` failed: ");
            out.append(e);
            return Err(AgentShellError::Other(out));
        }
        assert(entries@.skip(i as int).skip(1) =~= entries@.skip(i as int + 1));
        i = i + 1;
    }
    Ok(())
}

/// Whether a subscription was accepted, from the answer to it.
pub open spec fn subscribed(body: Seq<char>) -> bool {
    match parsed(body) {
        Ok(v) => v.bool_of("success"@) == Some(true),
        Err(_) => false,
    }
}

/// Checks the answer to a subscription.
pub fn check_subscription(body: &str) -> (r: Result<(), AgentShellError>)
    ensures
        unit_view(r) == (if subscribed(body@) {
            Ok(())
        } else {
            Err(ErrorView::BackendUnavailable("sway ipc subscribe rejected: "@ + body@))
        }),
{
    let ok = match parse(body) {
        Ok(v) => match v.get_bool("success") {
            Some(b) => b,
            None => false,
        },
        Err(_) => false,
    };
    if ok {
        Ok(())
    } else {
        Err(AgentShellError::BackendUnavailable(cat("sway ipc subscribe rejected: ", body)))
    }
}

} // verus!
