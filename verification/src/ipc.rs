//! IPC message types exchanged between clients and the daemon.

use vstd::prelude::*;

verus! {

/// The version of the client/daemon protocol.
pub const PROTOCOL_VERSION: u32 = 1;

/// A request from a client to the daemon.
#[derive(Debug, Clone, PartialEq)]
pub enum ClientMessage {
    Ping,
    GetVersion,
    KeyInput { data: Vec<u8> },
    Resize { cols: u16, rows: u16 },
    SpawnPane { direction: Option<String> },
    KillPane { pane_id: u32 },
    FocusPane { pane_id: u32 },
    Detach,
    ListSessions,
    KillSession { name: String },
}

/// Metadata about an active session returned by `ListSessions`.
#[derive(Debug, Clone, PartialEq)]
pub struct SessionEntry {
    /// Session name.
    pub name: String,
    /// Number of tabs in the session.
    pub tabs: usize,
    /// Number of panes in the active tab.
    pub panes: usize,
    /// Terminal width in columns.
    pub cols: usize,
    /// Terminal height in rows.
    pub rows: usize,
}

/// A reply from the daemon to a client.
#[derive(Debug, Clone, PartialEq)]
pub enum ServerMessage {
    Pong,
    Version { version: u32 },
    Render { pane_id: u32, content: String },
    SpawnResult { pane_id: u32 },
    Error { message: String },
    Ack,
    SessionList { sessions: Vec<SessionEntry> },
}


// ---------------------------------------------------------------------------
// Framing: a 4-byte big-endian length, then the payload
// ---------------------------------------------------------------------------

/// The number a 4-byte big-endian header holds.
pub open spec fn be_u32(h: [u8; 4]) -> nat {
    h[0] as nat * 16777216 + h[1] as nat * 65536 + h[2] as nat * 256 + h[3] as nat
}

/// The 4 big-endian bytes of `n` (below 2^32).
pub open spec fn be_bytes(n: nat) -> Seq<u8> {
    seq![
        ((n / 16777216) % 256) as u8,
        ((n / 65536) % 256) as u8,
        ((n / 256) % 256) as u8,
        (n % 256) as u8,
    ]
}

/// A payload framed for the wire: its length, then the payload.
pub open spec fn framed(payload: Seq<u8>) -> Seq<u8> {
    be_bytes(payload.len()) + payload
}

/// The number of the first four bytes of `b`, read big-endian.
pub open spec fn be_prefix(b: Seq<u8>) -> nat {
    b[0] as nat * 16777216 + b[1] as nat * 65536 + b[2] as nat * 256 + b[3] as nat
}

/// The length a frame header announces.
pub fn frame_length(header: [u8; 4]) -> (r: u32)
    ensures
        r == be_u32(header),
{
    header[0] as u32 * 16777216 + header[1] as u32 * 65536 + header[2] as u32 * 256
        + header[3] as u32
}

/// Frame a payload for the wire; none when it is too long for a 4-byte
/// length.
pub fn encode_frame(payload: &[u8]) -> (r: Option<Vec<u8>>)
    ensures
        r is Some <==> payload@.len() <= u32::MAX,
        r matches Some(v) ==> v@ == framed(payload@),
{
    if payload.len() > u32::MAX as usize {
        return None;
    }
    let n = payload.len() as u32;
    let mut out: Vec<u8> = Vec::new();
    out.push((n / 16777216 % 256) as u8);
    out.push((n / 65536 % 256) as u8);
    out.push((n / 256 % 256) as u8);
    out.push((n % 256) as u8);
    let mut body = vstd::slice::slice_to_vec(payload);
    out.append(&mut body);
    proof {
        assert(out@ =~= framed(payload@));
    }
    Some(out)
}

/// The first complete frame at the start of `buf`: its payload and the
/// number of bytes it takes; none while the header or the payload is still
/// incomplete.
pub open spec fn first_frame(buf: Seq<u8>) -> Option<(Seq<u8>, nat)> {
    if buf.len() < 4 {
        None
    } else {
        let n = be_prefix(buf);
        if buf.len() < 4 + n {
            None
        } else {
            Some((buf.subrange(4, 4 + n as int), (4 + n) as nat))
        }
    }
}

/// Take the first complete frame off the start of `buf`.
pub fn split_frame(buf: &[u8]) -> (r: Option<(Vec<u8>, usize)>)
    ensures
        match first_frame(buf@) {
            Some((p, used)) => r matches Some((v, u)) && v@ == p && u == used,
            None => r is None,
        },
{
    if buf.len() < 4 {
        return None;
    }
    let n = buf[0] as usize * 16777216 + buf[1] as usize * 65536 + buf[2] as usize * 256
        + buf[3] as usize;
    if buf.len() - 4 < n {
        return None;
    }
    let payload = vstd::slice::slice_to_vec(&buf[4..4 + n]);
    Some((payload, 4 + n))
}

proof fn lemma_be_bytes_read_back(n: nat)
    requires
        n <= u32::MAX,
    ensures
        be_prefix(be_bytes(n)) == n,
{
    let b3 = n % 256;
    let b2 = (n / 256) % 256;
    let b1 = (n / 65536) % 256;
    let b0 = (n / 16777216) % 256;
    assert(b0 * 16777216 + b1 * 65536 + b2 * 256 + b3 == n) by (nonlinear_arith)
        requires
            n <= 4294967295,
            b3 == n % 256,
            b2 == (n / 256) % 256,
            b1 == (n / 65536) % 256,
            b0 == (n / 16777216) % 256,
    ;
}

/// A framed payload reads back as itself, whatever follows it.
pub proof fn law_frame_round_trip(payload: Seq<u8>, rest: Seq<u8>)
    requires
        payload.len() <= u32::MAX,
    ensures
        first_frame(framed(payload) + rest) == Some((payload, (4 + payload.len()) as nat)),
{
    lemma_be_bytes_read_back(payload.len());
    let buf = framed(payload) + rest;
    assert(be_prefix(buf) == be_prefix(be_bytes(payload.len())));
    assert(buf.subrange(4, 4 + payload.len() as int) =~= payload);
}

} // verus!
