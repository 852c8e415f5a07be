//! The daemon's answers to client messages, and socket names.

use emux::daemon::{
    agent_frame_length, daemon_step, DaemonAction, DaemonEvent, already_running_message, loop_reply, reply, session_command, session_name_from_socket, socket_file_name, CommandResult,
    SessionCommand, SessionSummary, SplitDirection,
};
use emux::ipc::{ClientMessage, ServerMessage, SessionEntry, PROTOCOL_VERSION};

fn summary() -> SessionSummary {
    SessionSummary { name: "main".to_string(), tabs: 2, panes: 3, cols: 80, rows: 24 }
}

#[test]
fn simple_messages_need_no_session_work() {
    for msg in [
        ClientMessage::Ping,
        ClientMessage::GetVersion,
        ClientMessage::KeyInput { data: vec![1, 2] },
        ClientMessage::Detach,
        ClientMessage::ListSessions,
        ClientMessage::KillSession { name: "x".to_string() },
    ] {
        assert_eq!(session_command(&msg), SessionCommand::Nothing);
    }
    let r = reply(&ClientMessage::Ping, CommandResult::Done, &summary());
    assert_eq!(r.message, ServerMessage::Pong);
    assert!(!r.dirty);
    let r = reply(&ClientMessage::GetVersion, CommandResult::Done, &summary());
    assert_eq!(r.message, ServerMessage::Version { version: PROTOCOL_VERSION });
    assert_eq!(PROTOCOL_VERSION, 1);
    let r = reply(&ClientMessage::KeyInput { data: vec![b'a'] }, CommandResult::Done, &summary());
    assert_eq!(r.message, ServerMessage::Ack);
    let r = reply(&ClientMessage::Detach, CommandResult::Done, &summary());
    assert_eq!(r.message, ServerMessage::Ack);
    assert!(!r.dirty);
}

#[test]
fn resize_changes_the_session() {
    let msg = ClientMessage::Resize { cols: 120, rows: 40 };
    assert_eq!(session_command(&msg), SessionCommand::Resize { cols: 120, rows: 40 });
    let r = reply(&msg, CommandResult::Done, &summary());
    assert_eq!(r.message, ServerMessage::Ack);
    assert!(r.dirty);
}

#[test]
fn focus_answers_by_whether_the_pane_exists() {
    let msg = ClientMessage::FocusPane { pane_id: 7 };
    assert_eq!(session_command(&msg), SessionCommand::Focus { pane_id: 7 });
    assert_eq!(reply(&msg, CommandResult::Found(true), &summary()).message, ServerMessage::Ack);
    let r = reply(&msg, CommandResult::Found(false), &summary());
    assert_eq!(r.message, ServerMessage::Error { message: "pane 7 not found".to_string() });
    assert!(!r.dirty);
    let r = reply(&ClientMessage::FocusPane { pane_id: 4294967295 }, CommandResult::Found(false), &summary());
    assert_eq!(r.message, ServerMessage::Error { message: "pane 4294967295 not found".to_string() });
}

#[test]
fn spawn_splits_in_the_named_direction() {
    let h = ClientMessage::SpawnPane { direction: Some("horizontal".to_string()) };
    assert_eq!(session_command(&h), SessionCommand::Split { direction: SplitDirection::Horizontal });
    let v = ClientMessage::SpawnPane { direction: Some("Horizontal".to_string()) };
    assert_eq!(session_command(&v), SessionCommand::Split { direction: SplitDirection::Vertical });
    let n = ClientMessage::SpawnPane { direction: None };
    assert_eq!(session_command(&n), SessionCommand::Split { direction: SplitDirection::Vertical });
    let r = reply(&h, CommandResult::Spawned(Some(3)), &summary());
    assert_eq!(r.message, ServerMessage::SpawnResult { pane_id: 3 });
    assert!(r.dirty);
    let r = reply(&h, CommandResult::Spawned(None), &summary());
    assert_eq!(r.message, ServerMessage::Error { message: "cannot split pane".to_string() });
    assert!(!r.dirty);
}

#[test]
fn kill_pane_answers_by_whether_it_was_closed() {
    let msg = ClientMessage::KillPane { pane_id: 0 };
    assert_eq!(session_command(&msg), SessionCommand::Kill { pane_id: 0 });
    let r = reply(&msg, CommandResult::Found(true), &summary());
    assert_eq!(r.message, ServerMessage::Ack);
    assert!(r.dirty);
    let r = reply(&ClientMessage::KillPane { pane_id: 12 }, CommandResult::Found(false), &summary());
    assert_eq!(r.message, ServerMessage::Error { message: "cannot kill pane 12".to_string() });
    assert!(!r.dirty);
}

#[test]
fn list_sessions_reports_this_session() {
    let r = reply(&ClientMessage::ListSessions, CommandResult::Done, &summary());
    assert_eq!(
        r.message,
        ServerMessage::SessionList {
            sessions: vec![SessionEntry { name: "main".to_string(), tabs: 2, panes: 3, cols: 80, rows: 24 }]
        }
    );
}

#[test]
fn kill_session_only_for_this_session() {
    let ok = reply(&ClientMessage::KillSession { name: "main".to_string() }, CommandResult::Done, &summary());
    assert_eq!(ok.message, ServerMessage::Ack);
    let other = reply(&ClientMessage::KillSession { name: "work".to_string() }, CommandResult::Done, &summary());
    assert_eq!(other.message, ServerMessage::Error { message: "no such session: work".to_string() });
}

#[test]
fn socket_names_round_trip() {
    assert_eq!(socket_file_name("main"), "emux-main.sock");
    assert_eq!(session_name_from_socket("emux-main.sock"), Some("main".to_string()));
    assert_eq!(session_name_from_socket(&socket_file_name("a.b-c")), Some("a.b-c".to_string()));
    assert_eq!(session_name_from_socket("emux-.sock"), Some(String::new()));
    assert_eq!(session_name_from_socket("emux-main.port"), None);
    assert_eq!(session_name_from_socket("tmux-main.sock"), None);
    assert_eq!(session_name_from_socket("emux-"), None);
    assert_eq!(session_name_from_socket("emux.sock"), None);
}

#[test]
fn daemon_refusals_and_agent_frames() {
    assert_eq!(already_running_message("main"), "session 'main' is already running");
    assert_eq!(agent_frame_length([0, 0, 0, 5]), Some(5));
    assert_eq!(agent_frame_length([0, 0x0f, 0x42, 0x40]), Some(1_000_000));
    assert_eq!(agent_frame_length([0, 0x0f, 0x42, 0x41]), None);
    assert_eq!(agent_frame_length([0xff, 0xff, 0xff, 0xff]), None);
    assert_eq!(agent_frame_length([0, 1, 2, 3]), Some(66051));
}

#[test]
fn the_daemon_loop_acknowledges_every_kill() {
    let (m, stop) = loop_reply(&ClientMessage::KillSession { name: "main".to_string() }, CommandResult::Done, &summary());
    assert_eq!(m, ServerMessage::Ack);
    assert!(stop);
    let (m, stop) = loop_reply(&ClientMessage::KillSession { name: "other".to_string() }, CommandResult::Done, &summary());
    assert_eq!(m, ServerMessage::Ack);
    assert!(!stop);
    let (m, stop) = loop_reply(&ClientMessage::KillPane { pane_id: 2 }, CommandResult::Found(false), &summary());
    assert_eq!(m, ServerMessage::Error { message: "cannot kill pane 2".to_string() });
    assert!(!stop);
}

#[test]
fn frames_round_trip() {
    use_frames();
}

fn use_frames() {
    let payload = b"{\"Ping\":null}".to_vec();
    let mut wire = emux::ipc::encode_frame(&payload).unwrap();
    assert_eq!(&wire[..4], &[0, 0, 0, 13]);
    assert_eq!(emux::ipc::frame_length([wire[0], wire[1], wire[2], wire[3]]), 13);
    wire.extend_from_slice(b"next");
    assert_eq!(emux::ipc::split_frame(&wire), Some((payload.clone(), 17)));
    assert_eq!(emux::ipc::split_frame(&wire[..10]), None);
    assert_eq!(emux::ipc::split_frame(&wire[..3]), None);
    assert_eq!(emux::ipc::split_frame(&[0, 0, 0, 0]), Some((vec![], 4)));
    assert_eq!(emux::ipc::frame_length([1, 2, 3, 4]), 16909060);
}

fn step(
    clients: &[u64],
    attached: &[u64],
    active: Option<u32>,
    event: DaemonEvent,
) -> (Vec<u64>, Vec<u64>, Vec<DaemonAction>) {
    daemon_step(clients, attached, &summary(), active, &event)
}

#[test]
fn daemon_kill_of_this_session_acks_drops_and_stops() {
    let ev = DaemonEvent::Message {
        client: 7,
        msg: ClientMessage::KillSession { name: "main".into() },
        result: CommandResult::Done,
    };
    let (c, a, acts) = step(&[3, 7], &[9], None, ev);
    assert_eq!(c, vec![3]);
    assert_eq!(a, vec![9]);
    assert_eq!(
        acts,
        vec![
            DaemonAction::Send { client: 7, msg: ServerMessage::Ack },
            DaemonAction::DropClient { client: 7 },
            DaemonAction::Stop,
        ]
    );
}

#[test]
fn daemon_kill_of_another_session_is_acked_without_stopping() {
    let ev = DaemonEvent::Message {
        client: 7,
        msg: ClientMessage::KillSession { name: "other".into() },
        result: CommandResult::Done,
    };
    let (c, _, acts) = step(&[7], &[], None, ev);
    assert!(c.is_empty());
    assert_eq!(
        acts,
        vec![DaemonAction::Send { client: 7, msg: ServerMessage::Ack }, DaemonAction::DropClient { client: 7 }]
    );
}

#[test]
fn daemon_key_input_goes_to_the_active_pane() {
    let ev = DaemonEvent::Message {
        client: 1,
        msg: ClientMessage::KeyInput { data: b"ls\r".to_vec() },
        result: CommandResult::Done,
    };
    let (_, _, acts) = step(&[1], &[], Some(4), ev.clone());
    assert_eq!(
        acts,
        vec![
            DaemonAction::WritePane { pane_id: 4, data: b"ls\r".to_vec() },
            DaemonAction::Send { client: 1, msg: ServerMessage::Ack },
            DaemonAction::DropClient { client: 1 },
        ]
    );
    let (_, _, none) = step(&[1], &[], None, ev);
    assert_eq!(none.len(), 2);
}

#[test]
fn daemon_other_requests_get_the_reply_then_drop() {
    let ev = DaemonEvent::Message { client: 2, msg: ClientMessage::Ping, result: CommandResult::Done };
    let (c, _, acts) = step(&[2, 5], &[], None, ev);
    assert_eq!(c, vec![5]);
    assert_eq!(
        acts,
        vec![DaemonAction::Send { client: 2, msg: ServerMessage::Pong }, DaemonAction::DropClient { client: 2 }]
    );
}

#[test]
fn daemon_attach_moves_the_client() {
    let ev = DaemonEvent::Attach { client: 2, cols: 120, rows: 40 };
    let (c, a, acts) = step(&[2], &[8], None, ev);
    assert!(c.is_empty());
    assert_eq!(a, vec![8, 2]);
    assert_eq!(
        acts,
        vec![
            DaemonAction::ResizeSession { cols: 120, rows: 40 },
            DaemonAction::Send { client: 2, msg: ServerMessage::Ack },
        ]
    );
}

#[test]
fn daemon_read_failures_keep_or_drop() {
    let (c, _, acts) = step(&[2], &[], None, DaemonEvent::ReadFailed { client: 2, retry: true });
    assert_eq!(c, vec![2]);
    assert!(acts.is_empty());
    let (c, _, acts) = step(&[2], &[], None, DaemonEvent::ReadFailed { client: 2, retry: false });
    assert!(c.is_empty());
    assert_eq!(acts, vec![DaemonAction::DropClient { client: 2 }]);
}

#[test]
fn daemon_pane_output_reaches_every_attached_client() {
    let ev = DaemonEvent::PaneOutput { pane_id: 1, data: b"hi".to_vec() };
    let (_, _, acts) = step(&[4], &[8, 9], None, ev);
    assert_eq!(
        acts,
        vec![
            DaemonAction::SendOutput { client: 8, pane_id: 1, data: b"hi".to_vec() },
            DaemonAction::SendOutput { client: 9, pane_id: 1, data: b"hi".to_vec() },
        ]
    );
}

#[test]
fn daemon_drops_an_attached_client_it_cannot_write_to() {
    let (_, a, acts) = step(&[], &[8, 9], None, DaemonEvent::WriteFailed { client: 8 });
    assert_eq!(a, vec![9]);
    assert_eq!(acts, vec![DaemonAction::DropClient { client: 8 }]);
}

#[test]
fn daemon_accepts_new_clients_once() {
    let (c, _, _) = step(&[1], &[2], None, DaemonEvent::Accepted { client: 3 });
    assert_eq!(c, vec![1, 3]);
    let (c, _, _) = step(&[1], &[2], None, DaemonEvent::Accepted { client: 2 });
    assert_eq!(c, vec![1]);
}

#[test]
fn daemon_ignores_unknown_clients() {
    let ev = DaemonEvent::Message { client: 9, msg: ClientMessage::Ping, result: CommandResult::Done };
    let (c, a, acts) = step(&[1], &[2], None, ev);
    assert_eq!((c, a), (vec![1], vec![2]));
    assert!(acts.is_empty());
}
