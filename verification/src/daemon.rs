//! The daemon's rules: how it answers each client message, and how session
//! names map to socket file names.
//!
//! Answering a message takes two steps. [`session_command`] says what the
//! session must do first (resize, focus, split or close a pane); the caller
//! does it and hands the result to [`reply`], which builds the answer and
//! says whether the session changed.
//!
//! The daemon's event loop is [`daemon_step`]: from the clients it has and
//! one event (a connection, a message, a failed read or write, a pane's
//! output) to the clients it keeps and the actions to take.

use vstd::prelude::*;
use crate::ipc::{be_u32, frame_length, ClientMessage, PROTOCOL_VERSION, ServerMessage, SessionEntry};
use crate::text::{
    chars_equal, chars_of, decimal, decimal_chars, push_str, spells, string_from_chars,
};

verus! {

/// The direction of a split: `Horizontal` stacks the panes top and bottom,
/// `Vertical` puts them side by side.
#[derive(Debug, Clone, Copy, PartialEq, Eq, Structural)]
pub enum SplitDirection {
    Horizontal,
    Vertical,
}

/// What the session must do before a message can be answered.
#[derive(Debug, Clone, Copy, PartialEq, Eq, Structural)]
pub enum SessionCommand {
    /// Nothing: the answer depends on the message alone.
    Nothing,
    /// Resize the session to `cols` by `rows`.
    Resize { cols: usize, rows: usize },
    /// Focus a pane of the active tab; the result says whether it exists.
    Focus { pane_id: u32 },
    /// Split the active pane; the result is the new pane, if any.
    Split { direction: SplitDirection },
    /// Close a pane of the active tab; the result says whether it was closed.
    Kill { pane_id: u32 },
}

/// The split direction a `SpawnPane` request names: horizontal only when it
/// says exactly "horizontal".
pub open spec fn spawn_direction(direction: Option<String>) -> SplitDirection {
    match direction {
        Some(d) => if d@ == "horizontal"@ {
            SplitDirection::Horizontal
        } else {
            SplitDirection::Vertical
        },
        None => SplitDirection::Vertical,
    }
}

/// The session work a message calls for.
pub open spec fn command_of(msg: ClientMessage) -> SessionCommand {
    match msg {
        ClientMessage::Resize { cols, rows } => SessionCommand::Resize {
            cols: cols as usize,
            rows: rows as usize,
        },
        ClientMessage::FocusPane { pane_id } => SessionCommand::Focus { pane_id },
        ClientMessage::SpawnPane { direction } => SessionCommand::Split {
            direction: spawn_direction(direction),
        },
        ClientMessage::KillPane { pane_id } => SessionCommand::Kill { pane_id },
        _ => SessionCommand::Nothing,
    }
}

/// Decide what the session must do for a message.
pub fn session_command(msg: &ClientMessage) -> (r: SessionCommand)
    ensures
        r == command_of(*msg),
{
    match msg {
        ClientMessage::Resize { cols, rows } => SessionCommand::Resize {
            cols: *cols as usize,
            rows: *rows as usize,
        },
        ClientMessage::FocusPane { pane_id } => SessionCommand::Focus { pane_id: *pane_id },
        ClientMessage::SpawnPane { direction } => {
            let d = match direction {
                Some(d) => if spells(chars_of(d.as_str()).as_slice(), "horizontal") {
                    SplitDirection::Horizontal
                } else {
                    SplitDirection::Vertical
                },
                None => SplitDirection::Vertical,
            };
            SessionCommand::Split { direction: d }
        },
        ClientMessage::KillPane { pane_id } => SessionCommand::Kill { pane_id: *pane_id },
        _ => SessionCommand::Nothing,
    }
}

/// What the session reported for the work it was given.
#[derive(Debug, Clone, Copy, PartialEq, Eq, Structural)]
pub enum CommandResult {
    /// The work had no result to report.
    Done,
    /// Whether the pane was found (focus) or closed (kill).
    Found(bool),
    /// The pane a split created, if the split was possible.
    Spawned(Option<u32>),
}

/// What the daemon knows of its session when it answers.
#[derive(Debug, Clone)]
pub struct SessionSummary {
    pub name: String,
    /// Number of tabs.
    pub tabs: usize,
    /// Number of panes in the active tab.
    pub panes: usize,
    pub cols: usize,
    pub rows: usize,
}

/// An answer, and whether the session changed in a way worth saving.
#[derive(Debug, Clone)]
pub struct Reply {
    pub message: ServerMessage,
    pub dirty: bool,
}

/// Whether `m` is an error whose message is `text`.
pub open spec fn is_error(m: ServerMessage, text: Seq<char>) -> bool {
    m matches ServerMessage::Error { message } && message@ == text
}

/// The error text for a pane that does not exist.
pub open spec fn pane_not_found(pane_id: u32) -> Seq<char> {
    "pane "@ + decimal(pane_id as nat) + " not found"@
}

/// The answer to each message: `Pong` to `Ping`; the protocol version;
/// `Ack` to a resize (which changes the session), to key input and to a
/// detach; `Ack` to a focus or kill of an existing pane and an error naming
/// the pane otherwise (only a kill changes the session); the new pane of a
/// split (a change) or an error; the session's one entry for a listing; and
/// `Ack` to a kill of this session, an error naming any other.
pub open spec fn answers(msg: ClientMessage, result: CommandResult, session: SessionSummary, r: Reply) -> bool {
    match msg {
        ClientMessage::Ping => r.message == ServerMessage::Pong && !r.dirty,
        ClientMessage::GetVersion => r.message == (ServerMessage::Version {
            version: PROTOCOL_VERSION,
        }) && !r.dirty,
        ClientMessage::Resize { .. } => r.message == ServerMessage::Ack && r.dirty,
        ClientMessage::FocusPane { pane_id } => !r.dirty && if result == CommandResult::Found(
            true,
        ) {
            r.message == ServerMessage::Ack
        } else {
            is_error(r.message, pane_not_found(pane_id))
        },
        ClientMessage::KeyInput { .. } => r.message == ServerMessage::Ack && !r.dirty,
        ClientMessage::SpawnPane { .. } => match result {
            CommandResult::Spawned(Some(id)) => r.message == (ServerMessage::SpawnResult {
                pane_id: id,
            }) && r.dirty,
            _ => is_error(r.message, "cannot split pane"@) && !r.dirty,
        },
        ClientMessage::KillPane { pane_id } => if result == CommandResult::Found(true) {
            r.message == ServerMessage::Ack && r.dirty
        } else {
            is_error(r.message, "cannot kill pane "@ + decimal(pane_id as nat)) && !r.dirty
        },
        ClientMessage::Detach => r.message == ServerMessage::Ack && !r.dirty,
        ClientMessage::ListSessions => !r.dirty && (r.message matches ServerMessage::SessionList {
            sessions,
        } && sessions@.len() == 1 && sessions@[0].name@ == session.name@ && sessions@[0].tabs
            == session.tabs && sessions@[0].panes == session.panes && sessions@[0].cols
            == session.cols && sessions@[0].rows == session.rows),
        ClientMessage::KillSession { name } => !r.dirty && if name@ == session.name@ {
            r.message == ServerMessage::Ack
        } else {
            is_error(r.message, "no such session: "@ + name@)
        },
    }
}

/// An error answer with the given text.
fn error_reply(text: Vec<char>, dirty: bool) -> (r: Reply)
    ensures
        is_error(r.message, text@),
        r.dirty == dirty,
{
    Reply { message: ServerMessage::Error { message: string_from_chars(text.as_slice()) }, dirty }
}

/// Build the answer to a message, once the session has done the work that
/// [`session_command`] asked for and reported `result`.
pub fn reply(msg: &ClientMessage, result: CommandResult, session: &SessionSummary) -> (r: Reply)
    ensures
        answers(*msg, result, *session, r),
{
    match msg {
        ClientMessage::Ping => Reply { message: ServerMessage::Pong, dirty: false },
        ClientMessage::GetVersion => Reply {
            message: ServerMessage::Version { version: PROTOCOL_VERSION },
            dirty: false,
        },
        ClientMessage::Resize { .. } => Reply { message: ServerMessage::Ack, dirty: true },
        ClientMessage::FocusPane { pane_id } => {
            if result == CommandResult::Found(true) {
                Reply { message: ServerMessage::Ack, dirty: false }
            } else {
                let mut text = chars_of("pane ");
                let mut digits = decimal_chars(*pane_id as u64);
                text.append(&mut digits);
                push_str(&mut text, " not found");
                error_reply(text, false)
            }
        },
        ClientMessage::KeyInput { .. } => Reply { message: ServerMessage::Ack, dirty: false },
        ClientMessage::SpawnPane { .. } => match result {
            CommandResult::Spawned(Some(id)) => Reply {
                message: ServerMessage::SpawnResult { pane_id: id },
                dirty: true,
            },
            _ => error_reply(chars_of("cannot split pane"), false),
        },
        ClientMessage::KillPane { pane_id } => {
            if result == CommandResult::Found(true) {
                Reply { message: ServerMessage::Ack, dirty: true }
            } else {
                let mut text = chars_of("cannot kill pane ");
                let mut digits = decimal_chars(*pane_id as u64);
                text.append(&mut digits);
                error_reply(text, false)
            }
        },
        ClientMessage::Detach => Reply { message: ServerMessage::Ack, dirty: false },
        ClientMessage::ListSessions => {
            let entry = SessionEntry {
                name: session.name.clone(),
                tabs: session.tabs,
                panes: session.panes,
                cols: session.cols,
                rows: session.rows,
            };
            let mut sessions: Vec<SessionEntry> = Vec::new();
            sessions.push(entry);
            Reply { message: ServerMessage::SessionList { sessions }, dirty: false }
        },
        ClientMessage::KillSession { name } => {
            let asked = chars_of(name.as_str());
            let ours = chars_of(session.name.as_str());
            if chars_equal(asked.as_slice(), ours.as_slice()) {
                Reply { message: ServerMessage::Ack, dirty: false }
            } else {
                let mut text = chars_of("no such session: ");
                let mut rest = asked;
                text.append(&mut rest);
                error_reply(text, false)
            }
        },
    }
}

/// The answer of the daemon's own event loop, and whether it stops: a kill
/// request is acknowledged whatever session it names and stops the daemon
/// only when it names this one; every other message is answered as
/// [`reply`] answers it.
pub fn loop_reply(msg: &ClientMessage, result: CommandResult, session: &SessionSummary) -> (r: (ServerMessage, bool))
    ensures
        match *msg {
            ClientMessage::KillSession { name } => r.0 == ServerMessage::Ack && r.1 == (name@
                == session.name@),
            _ => !r.1 && exists|dirty: bool|
                answers(*msg, result, *session, Reply { message: r.0, dirty }),
        },
{
    match msg {
        ClientMessage::KillSession { name } => {
            let asked = chars_of(name.as_str());
            let ours = chars_of(session.name.as_str());
            (ServerMessage::Ack, chars_equal(asked.as_slice(), ours.as_slice()))
        },
        _ => {
            let r = reply(msg, result, session);
            proof {
                assert(answers(*msg, result, *session, Reply { message: r.message, dirty: r.dirty }));
            }
            (r.message, false)
        },
    }
}

/// The refusal to start a second daemon for a session that is running.
pub open spec fn already_running_text(name: Seq<char>) -> Seq<char> {
    "session '"@ + name + "' is already running"@
}

/// The refusal to start a second daemon for the session `name`.
pub fn already_running_message(name: &str) -> (r: String)
    ensures
        r@ == already_running_text(name@),
{
    let mut v = chars_of("session '");
    push_str(&mut v, name);
    push_str(&mut v, "' is already running");
    string_from_chars(v.as_slice())
}

/// The largest request an agent may send, in bytes.
pub const MAX_AGENT_FRAME: u32 = 1_000_000;

/// The payload length an agent's frame header announces, as a big-endian
/// `u32`; none when it exceeds the limit (the connection is then dropped).
pub fn agent_frame_length(header: [u8; 4]) -> (r: Option<u32>)
    ensures
        match r {
            Some(n) => n == be_u32(header) && n <= MAX_AGENT_FRAME,
            None => be_u32(header) > MAX_AGENT_FRAME,
        },
{
    let n = frame_length(header);
    if n > MAX_AGENT_FRAME {
        None
    } else {
        Some(n)
    }
}

// ---------------------------------------------------------------------------
// Socket names
// ---------------------------------------------------------------------------

/// The socket file name of a session: `emux-<name>.sock`.
pub open spec fn socket_name(name: Seq<char>) -> Seq<char> {
    "emux-"@ + name + ".sock"@
}

/// The file name of the socket for the session `name`.
pub fn socket_file_name(name: &str) -> (r: String)
    ensures
        r@ == socket_name(name@),
{
    let mut v = chars_of("emux-");
    push_str(&mut v, name);
    push_str(&mut v, ".sock");
    string_from_chars(v.as_slice())
}

/// The session a socket file name belongs to: what lies between the
/// `emux-` prefix and the `.sock` suffix, where the name has both.
pub open spec fn session_of_socket(file_name: Seq<char>) -> Option<Seq<char>> {
    let prefix = "emux-"@;
    let suffix = ".sock"@;
    if file_name.len() >= prefix.len() && file_name.take(prefix.len() as int) == prefix {
        let rest = file_name.skip(prefix.len() as int);
        if rest.len() >= suffix.len() && rest.skip(rest.len() - suffix.len()) == suffix {
            Some(rest.take(rest.len() - suffix.len()))
        } else {
            None
        }
    } else {
        None
    }
}

/// The session that owns a socket file, if the file name is a session
/// socket's.
pub fn session_name_from_socket(file_name: &str) -> (r: Option<String>)
    ensures
        match session_of_socket(file_name@) {
            Some(n) => r matches Some(s) && s@ == n,
            None => r is None,
        },
{
    let chars = chars_of(file_name);
    let prefix = chars_of("emux-");
    let suffix = chars_of(".sock");
    let n = chars.len();
    if n < prefix.len() {
        return None;
    }
    let head = &chars.as_slice()[0..prefix.len()];
    proof {
        assert(head@ =~= chars@.take(prefix@.len() as int));
    }
    if !chars_equal(head, prefix.as_slice()) {
        return None;
    }
    let rest = &chars.as_slice()[prefix.len()..n];
    proof {
        assert(rest@ =~= chars@.skip(prefix@.len() as int));
    }
    let m = rest.len();
    if m < suffix.len() {
        return None;
    }
    let tail = &rest[m - suffix.len()..m];
    proof {
        assert(tail@ =~= rest@.skip(m - suffix@.len()));
    }
    if !chars_equal(tail, suffix.as_slice()) {
        return None;
    }
    let name = &rest[0..m - suffix.len()];
    proof {
        assert(name@ =~= rest@.take(m - suffix@.len()));
    }
    Some(string_from_chars(name))
}

/// A session's socket file name gives back the session's name.
pub proof fn law_socket_name_round_trip(name: Seq<char>)
    ensures
        session_of_socket(socket_name(name)) == Some(name),
{
    let prefix = "emux-"@;
    let suffix = ".sock"@;
    let f = socket_name(name);
    assert(f.take(prefix.len() as int) =~= prefix);
    let rest = f.skip(prefix.len() as int);
    assert(rest =~= name + suffix);
    assert(rest.skip(rest.len() - suffix.len()) =~= suffix);
    assert(rest.take(rest.len() - suffix.len()) =~= name);
}

} // verus!

verus! {

// ---------------------------------------------------------------------------
// The daemon's event loop, one event at a time
// ---------------------------------------------------------------------------

/// Something that happened to the daemon, as its event loop reports it.
#[derive(Debug, Clone, PartialEq)]
pub enum DaemonEvent {
    /// A new connection, given the id `client`.
    Accepted { client: u64 },
    /// A one-shot client sent `msg`; the session already did the work
    /// [`session_command`] asked for, with `result`.
    Message { client: u64, msg: ClientMessage, result: CommandResult },
    /// A one-shot client asked to become an attached client of a terminal
    /// of `cols` by `rows`.
    Attach { client: u64, cols: u16, rows: u16 },
    /// Reading from a one-shot client failed; `retry` when the read only
    /// would have blocked or timed out.
    ReadFailed { client: u64, retry: bool },
    /// A pane's terminal produced `data`.
    PaneOutput { pane_id: u32, data: Vec<u8> },
    /// Writing to an attached client failed.
    WriteFailed { client: u64 },
}

/// What the event loop must do next.
#[derive(Debug, Clone, PartialEq)]
pub enum DaemonAction {
    /// Send an answer to a client.
    Send { client: u64, msg: ServerMessage },
    /// Send a pane's output to an attached client.
    SendOutput { client: u64, pane_id: u32, data: Vec<u8> },
    /// Write input to a pane's terminal.
    WritePane { pane_id: u32, data: Vec<u8> },
    /// Resize the session.
    ResizeSession { cols: u16, rows: u16 },
    /// Close the connection to a client.
    DropClient { client: u64 },
    /// Stop the daemon.
    Stop,
}

/// An event as a value.
pub ghost enum DaemonEventModel {
    Accepted { client: u64 },
    Message { client: u64, msg: ClientMessage, result: CommandResult },
    Attach { client: u64, cols: u16, rows: u16 },
    ReadFailed { client: u64, retry: bool },
    PaneOutput { pane_id: u32, data: Seq<u8> },
    WriteFailed { client: u64 },
}

/// An action as a value.
pub ghost enum DaemonActionModel {
    Send { client: u64, msg: ServerMessage },
    SendOutput { client: u64, pane_id: u32, data: Seq<u8> },
    WritePane { pane_id: u32, data: Seq<u8> },
    ResizeSession { cols: u16, rows: u16 },
    DropClient { client: u64 },
    Stop,
}

impl View for DaemonEvent {
    type V = DaemonEventModel;

    open spec fn view(&self) -> DaemonEventModel {
        match self {
            DaemonEvent::Accepted { client } => DaemonEventModel::Accepted { client: *client },
            DaemonEvent::Message { client, msg, result } => DaemonEventModel::Message {
                client: *client,
                msg: *msg,
                result: *result,
            },
            DaemonEvent::Attach { client, cols, rows } => DaemonEventModel::Attach {
                client: *client,
                cols: *cols,
                rows: *rows,
            },
            DaemonEvent::ReadFailed { client, retry } => DaemonEventModel::ReadFailed {
                client: *client,
                retry: *retry,
            },
            DaemonEvent::PaneOutput { pane_id, data } => DaemonEventModel::PaneOutput {
                pane_id: *pane_id,
                data: data@,
            },
            DaemonEvent::WriteFailed { client } => DaemonEventModel::WriteFailed { client: *client },
        }
    }
}

impl View for DaemonAction {
    type V = DaemonActionModel;

    open spec fn view(&self) -> DaemonActionModel {
        match self {
            DaemonAction::Send { client, msg } => DaemonActionModel::Send { client: *client, msg: *msg },
            DaemonAction::SendOutput { client, pane_id, data } => DaemonActionModel::SendOutput {
                client: *client,
                pane_id: *pane_id,
                data: data@,
            },
            DaemonAction::WritePane { pane_id, data } => DaemonActionModel::WritePane {
                pane_id: *pane_id,
                data: data@,
            },
            DaemonAction::ResizeSession { cols, rows } => DaemonActionModel::ResizeSession {
                cols: *cols,
                rows: *rows,
            },
            DaemonAction::DropClient { client } => DaemonActionModel::DropClient { client: *client },
            DaemonAction::Stop => DaemonActionModel::Stop,
        }
    }
}

/// The views of a list of actions, in order.
pub open spec fn daemon_action_models(actions: Seq<DaemonAction>) -> Seq<DaemonActionModel>
    decreases actions.len(),
{
    if actions.len() == 0 {
        Seq::empty()
    } else {
        daemon_action_models(actions.drop_last()).push(actions.last()@)
    }
}

/// The clients of `s` other than `client`, in order.
pub open spec fn without(s: Seq<u64>, client: u64) -> Seq<u64>
    decreases s.len(),
{
    if s.len() == 0 {
        s
    } else if s.last() == client {
        without(s.drop_last(), client)
    } else {
        without(s.drop_last(), client).push(s.last())
    }
}

/// A pane's output, sent to each attached client in order.
pub open spec fn output_to(attached: Seq<u64>, pane_id: u32, data: Seq<u8>) -> Seq<DaemonActionModel>
    decreases attached.len(),
{
    if attached.len() == 0 {
        Seq::empty()
    } else {
        output_to(attached.drop_last(), pane_id, data).push(
            DaemonActionModel::SendOutput { client: attached.last(), pane_id, data },
        )
    }
}

/// What the event loop answers a one-shot client: `Ack` to a kill request,
/// whatever session it names, and to every other message what [`reply`]
/// answers.
pub open spec fn loop_answer(msg: ClientMessage, result: CommandResult, session: SessionSummary, answer: ServerMessage) -> bool {
    match msg {
        ClientMessage::KillSession { .. } => answer == ServerMessage::Ack,
        _ => exists|dirty: bool| answers(msg, result, session, Reply { message: answer, dirty }),
    }
}

/// The daemon's state after an event, and what it must do, given the one-shot
/// clients waiting for an answer (`clients`), the attached clients, the
/// session, its active pane, and `answer`, the answer a message gets:
/// - a new connection joins the one-shot clients;
/// - a message from a one-shot client is answered and the client is then
///   dropped; key input goes first to the active pane, if there is one; a
///   kill request naming this session then stops the daemon;
/// - a request to attach resizes the session, is acknowledged, and moves the
///   client to the attached ones;
/// - a read that would block or timed out keeps the client; any other read
///   failure drops it;
/// - a pane's output is sent to every attached client, in order;
/// - an attached client that could not be written to is dropped;
/// - an event from a client the daemon does not have changes nothing.
pub open spec fn daemon_transition(
    clients: Seq<u64>,
    attached: Seq<u64>,
    session: SessionSummary,
    active_pane: Option<u32>,
    event: DaemonEventModel,
    answer: ServerMessage,
) -> (Seq<u64>, Seq<u64>, Seq<DaemonActionModel>) {
    let unchanged = (clients, attached, Seq::<DaemonActionModel>::empty());
    match event {
        DaemonEventModel::Accepted { client } => if clients.contains(client) || attached.contains(client) {
            unchanged
        } else {
            (clients.push(client), attached, Seq::empty())
        },
        DaemonEventModel::Message { client, msg, result } => if !clients.contains(client) {
            unchanged
        } else {
            let answered = seq![
                DaemonActionModel::Send { client, msg: answer },
                DaemonActionModel::DropClient { client },
            ];
            let actions = match msg {
                ClientMessage::KeyInput { data } => match active_pane {
                    Some(p) => seq![DaemonActionModel::WritePane { pane_id: p, data: data@ }] + answered,
                    None => answered,
                },
                ClientMessage::KillSession { name } => if name@ == session.name@ {
                    answered.push(DaemonActionModel::Stop)
                } else {
                    answered
                },
                _ => answered,
            };
            (without(clients, client), attached, actions)
        },
        DaemonEventModel::Attach { client, cols, rows } => if !clients.contains(client) {
            unchanged
        } else {
            (
                without(clients, client),
                attached.push(client),
                seq![
                    DaemonActionModel::ResizeSession { cols, rows },
                    DaemonActionModel::Send { client, msg: ServerMessage::Ack },
                ],
            )
        },
        DaemonEventModel::ReadFailed { client, retry } => if retry || !clients.contains(client) {
            unchanged
        } else {
            (without(clients, client), attached, seq![DaemonActionModel::DropClient { client }])
        },
        DaemonEventModel::PaneOutput { pane_id, data } => (
            clients,
            attached,
            output_to(attached, pane_id, data),
        ),
        DaemonEventModel::WriteFailed { client } => if !attached.contains(client) {
            unchanged
        } else {
            (clients, without(attached, client), seq![DaemonActionModel::DropClient { client }])
        },
    }
}

/// Whether `client` is among `ids`.
fn has_client(ids: &[u64], client: u64) -> (r: bool)
    ensures
        r == ids@.contains(client),
{
    let mut i: usize = 0;
    while i < ids.len()
        invariant
            0 <= i <= ids@.len(),
            forall|j: int| 0 <= j < i ==> ids@[j] != client,
        decreases ids@.len() - i,
    {
        if ids[i] == client {
            return true;
        }
        i = i + 1;
    }
    false
}

/// The ids of `ids` other than `client`, in order.
fn without_client(ids: &[u64], client: u64) -> (r: Vec<u64>)
    ensures
        r@ == without(ids@, client),
{
    let mut out: Vec<u64> = Vec::new();
    let mut i: usize = 0;
    while i < ids.len()
        invariant
            0 <= i <= ids@.len(),
            out@ == without(ids@.take(i as int), client),
        decreases ids@.len() - i,
    {
        proof {
            assert(ids@.take(i + 1).drop_last() =~= ids@.take(i as int));
        }
        if ids[i] != client {
            out.push(ids[i]);
        }
        i = i + 1;
    }
    proof {
        assert(ids@.take(ids@.len() as int) =~= ids@);
    }
    out
}

/// A copy of a list of ids.
fn copy_ids(ids: &[u64]) -> (r: Vec<u64>)
    ensures
        r@ == ids@,
{
    let mut out: Vec<u64> = Vec::new();
    let mut i: usize = 0;
    while i < ids.len()
        invariant
            0 <= i <= ids@.len(),
            out@ == ids@.take(i as int),
        decreases ids@.len() - i,
    {
        out.push(ids[i]);
        i = i + 1;
        proof {
            assert(out@ =~= ids@.take(i as int));
        }
    }
    proof {
        assert(ids@.take(ids@.len() as int) =~= ids@);
    }
    out
}

/// A copy of a pane's data.
fn copy_bytes(data: &Vec<u8>) -> (r: Vec<u8>)
    ensures
        r@ == data@,
{
    let r = data.clone();
    proof {
        assert(r@ =~= data@);
    }
    r
}

/// Add an action at the end of a list.
fn push_action(actions: &mut Vec<DaemonAction>, a: DaemonAction)
    ensures
        daemon_action_models(final(actions)@) == daemon_action_models(old(actions)@).push(a@),
{
    let ghost before = actions@;
    actions.push(a);
    proof {
        assert(actions@.drop_last() =~= before);
    }
}

/// One turn of the daemon's event loop: given the one-shot clients waiting
/// for an answer, the attached clients, the session, its active pane and an
/// event, the clients afterwards and the actions to take, in order (see
/// [`daemon_transition`]).
pub fn daemon_step(
    clients: &[u64],
    attached: &[u64],
    session: &SessionSummary,
    active_pane: Option<u32>,
    event: &DaemonEvent,
) -> (r: (Vec<u64>, Vec<u64>, Vec<DaemonAction>))
    ensures
        exists|answer: ServerMessage|
            #![trigger daemon_transition(clients@, attached@, *session, active_pane, event@, answer)]
            (match event@ {
                DaemonEventModel::Message { client, msg, result } => clients@.contains(client)
                    ==> loop_answer(msg, result, *session, answer),
                _ => true,
            }) && (r.0@, r.1@, daemon_action_models(r.2@)) == daemon_transition(
                clients@,
                attached@,
                *session,
                active_pane,
                event@,
                answer,
            ),
{
    let mut actions: Vec<DaemonAction> = Vec::new();
    proof {
        assert(daemon_action_models(actions@) =~= Seq::<DaemonActionModel>::empty());
    }
    let ghost t = daemon_transition(clients@, attached@, *session, active_pane, event@, ServerMessage::Ack);
    match event {
        DaemonEvent::Accepted { client } => {
            if has_client(clients, *client) || has_client(attached, *client) {
                (copy_ids(clients), copy_ids(attached), actions)
            } else {
                let mut c = copy_ids(clients);
                c.push(*client);
                (c, copy_ids(attached), actions)
            }
        },
        DaemonEvent::Message { client, msg, result } => {
            if !has_client(clients, *client) {
                return (copy_ids(clients), copy_ids(attached), actions);
            }
            let (answer, stop) = loop_reply(msg, *result, session);
            let ghost a = answer;
            proof {
                match *msg {
                    ClientMessage::KillSession { .. } => {},
                    _ => {
                        let dirty = choose|dirty: bool| answers(*msg, *result, *session, Reply { message: a, dirty });
                        assert(answers(*msg, *result, *session, Reply { message: a, dirty }));
                    },
                }
                assert(loop_answer(*msg, *result, *session, a));
            }
            match msg {
                ClientMessage::KeyInput { data } => {
                    match active_pane {
                        Some(p) => push_action(&mut actions, DaemonAction::WritePane { pane_id: p, data: copy_bytes(data) }),
                        None => {},
                    }
                },
                _ => {},
            }
            push_action(&mut actions, DaemonAction::Send { client: *client, msg: answer });
            push_action(&mut actions, DaemonAction::DropClient { client: *client });
            if stop {
                push_action(&mut actions, DaemonAction::Stop);
            }
            let rest = without_client(clients, *client);
            let r = (rest, copy_ids(attached), actions);
            proof {
                let want = daemon_transition(clients@, attached@, *session, active_pane, event@, a);
                assert(daemon_action_models(r.2@) =~= want.2);
                assert((r.0@, r.1@, daemon_action_models(r.2@)) == want);
            }
            r
        },
        DaemonEvent::Attach { client, cols, rows } => {
            if !has_client(clients, *client) {
                return (copy_ids(clients), copy_ids(attached), actions);
            }
            push_action(&mut actions, DaemonAction::ResizeSession { cols: *cols, rows: *rows });
            push_action(&mut actions, DaemonAction::Send { client: *client, msg: ServerMessage::Ack });
            let mut att = copy_ids(attached);
            att.push(*client);
            let r = (without_client(clients, *client), att, actions);
            proof {
                assert(daemon_action_models(r.2@) =~= t.2);
            }
            r
        },
        DaemonEvent::ReadFailed { client, retry } => {
            if *retry || !has_client(clients, *client) {
                return (copy_ids(clients), copy_ids(attached), actions);
            }
            push_action(&mut actions, DaemonAction::DropClient { client: *client });
            let r = (without_client(clients, *client), copy_ids(attached), actions);
            proof {
                assert(daemon_action_models(r.2@) =~= t.2);
            }
            r
        },
        DaemonEvent::PaneOutput { pane_id, data } => {
            let mut i: usize = 0;
            while i < attached.len()
                invariant
                    0 <= i <= attached@.len(),
                    daemon_action_models(actions@) == output_to(attached@.take(i as int), *pane_id, data@),
                decreases attached@.len() - i,
            {
                proof {
                    assert(attached@.take(i + 1).drop_last() =~= attached@.take(i as int));
                }
                push_action(
                    &mut actions,
                    DaemonAction::SendOutput { client: attached[i], pane_id: *pane_id, data: copy_bytes(data) },
                );
                i = i + 1;
            }
            proof {
                assert(attached@.take(attached@.len() as int) =~= attached@);
            }
            (copy_ids(clients), copy_ids(attached), actions)
        },
        DaemonEvent::WriteFailed { client } => {
            if !has_client(attached, *client) {
                return (copy_ids(clients), copy_ids(attached), actions);
            }
            push_action(&mut actions, DaemonAction::DropClient { client: *client });
            let r = (copy_ids(clients), without_client(attached, *client), actions);
            proof {
                assert(daemon_action_models(r.2@) =~= t.2);
            }
            r
        },
    }
}


/// Each client is listed once, and either waits for an answer or is
/// attached, never both.
pub open spec fn clients_apart(clients: Seq<u64>, attached: Seq<u64>) -> bool {
    &&& clients.no_duplicates()
    &&& attached.no_duplicates()
    &&& forall|c: u64| clients.contains(c) ==> !attached.contains(c)
}

/// Leaving a client out keeps every other one, adds none, and keeps a list
/// free of repeats.
proof fn lemma_without(s: Seq<u64>, client: u64)
    ensures
        forall|x: u64| #[trigger] without(s, client).contains(x) <==> (s.contains(x) && x != client),
        s.no_duplicates() ==> without(s, client).no_duplicates(),
    decreases s.len(),
{
    if s.len() > 0 {
        let init = s.drop_last();
        lemma_without(init, client);
        assert forall|x: u64| #[trigger] s.contains(x) <==> (init.contains(x) || x == s.last()) by {
            if s.contains(x) {
                let i = choose|i: int| 0 <= i < s.len() && s[i] == x;
                if i < s.len() - 1 {
                    assert(init[i] == x);
                }
            }
            if init.contains(x) {
                let i = choose|i: int| 0 <= i < init.len() && init[i] == x;
                assert(s[i] == x);
            }
            if x == s.last() {
                assert(s[s.len() - 1] == x);
            }
        }
        if s.last() != client {
            let w = without(init, client);
            assert forall|x: u64| #[trigger] w.push(s.last()).contains(x) <==> (w.contains(x) || x == s.last()) by {
                if w.push(s.last()).contains(x) {
                    let i = choose|i: int| 0 <= i < w.len() + 1 && w.push(s.last())[i] == x;
                    if i < w.len() {
                        assert(w[i] == x);
                    }
                }
                if w.contains(x) {
                    let i = choose|i: int| 0 <= i < w.len() && w[i] == x;
                    assert(w.push(s.last())[i] == x);
                }
                if x == s.last() {
                    assert(w.push(s.last())[w.len() as int] == x);
                }
            }
            if s.no_duplicates() {
                assert(init.no_duplicates()) by {
                    assert forall|i: int, j: int| 0 <= i < j < init.len() implies init[i] != init[j] by {
                        assert(init[i] == s[i] && init[j] == s[j]);
                    }
                }
                assert(!init.contains(s.last())) by {
                    if init.contains(s.last()) {
                        let i = choose|i: int| 0 <= i < init.len() && init[i] == s.last();
                        assert(s[i] == s[s.len() - 1]);
                    }
                }
                let v = w.push(s.last());
                assert forall|i: int, j: int| 0 <= i < j < v.len() implies v[i] != v[j] by {
                    if j == v.len() - 1 {
                        assert(w.contains(v[i]));
                    } else {
                        assert(v[i] == w[i] && v[j] == w[j]);
                    }
                }
            }
        } else if s.no_duplicates() {
            assert forall|i: int, j: int| 0 <= i < j < init.len() implies init[i] != init[j] by {
                assert(init[i] == s[i] && init[j] == s[j]);
            }
        }
    }
}

/// Adding a client that is not listed keeps a list free of repeats.
proof fn lemma_push_new(s: Seq<u64>, client: u64)
    requires
        s.no_duplicates(),
        !s.contains(client),
    ensures
        s.push(client).no_duplicates(),
        forall|x: u64| #[trigger] s.push(client).contains(x) <==> (s.contains(x) || x == client),
{
    let v = s.push(client);
    assert forall|i: int, j: int| 0 <= i < j < v.len() implies v[i] != v[j] by {
        if j == v.len() - 1 {
            assert(s[i] == v[i]);
        } else {
            assert(v[i] == s[i] && v[j] == s[j]);
        }
    }
    assert forall|x: u64| #[trigger] v.contains(x) <==> (s.contains(x) || x == client) by {
        if v.contains(x) {
            let i = choose|i: int| 0 <= i < v.len() && v[i] == x;
            if i < s.len() {
                assert(s[i] == x);
            }
        }
        if s.contains(x) {
            let i = choose|i: int| 0 <= i < s.len() && s[i] == x;
            assert(v[i] == x);
        }
        if x == client {
            assert(v[s.len() as int] == x);
        }
    }
}

/// Whatever happens, the daemon keeps each client listed once, either
/// waiting for an answer or attached, never both.
pub proof fn law_daemon_keeps_clients_apart(
    clients: Seq<u64>,
    attached: Seq<u64>,
    session: SessionSummary,
    active_pane: Option<u32>,
    event: DaemonEventModel,
    answer: ServerMessage,
)
    requires
        clients_apart(clients, attached),
    ensures
        ({
            let t = daemon_transition(clients, attached, session, active_pane, event, answer);
            clients_apart(t.0, t.1)
        }),
{
    match event {
        DaemonEventModel::Accepted { client } => {
            if !(clients.contains(client) || attached.contains(client)) {
                lemma_push_new(clients, client);
            }
        },
        DaemonEventModel::Attach { client, .. } => {
            if clients.contains(client) {
                lemma_without(clients, client);
                lemma_push_new(attached, client);
            }
        },
        DaemonEventModel::Message { client, .. } => {
            lemma_without(clients, client);
        },
        DaemonEventModel::ReadFailed { client, .. } => {
            lemma_without(clients, client);
        },
        DaemonEventModel::WriteFailed { client } => {
            lemma_without(attached, client);
        },
        DaemonEventModel::PaneOutput { .. } => {},
    }
}

} // verus!
