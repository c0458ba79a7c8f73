use weframe::{
    ClientFrame, Collaborator, CursorPosition, EditOperation, Metadata, OTOperation, Outbound,
    ServerMessage, SessionManager, TimeSpan, VideoClip, VideoSession,
};

const HOUR: u64 = 3_600_000;

fn secs(n: u64) -> TimeSpan {
    TimeSpan::from_secs(n)
}

fn clip(id: &str, start: u64, end: u64, track: usize) -> VideoClip {
    VideoClip {
        id: id.to_string(),
        source_file: "a.mp4".to_string(),
        start_time: secs(start),
        end_time: secs(end),
        track,
        effects: Vec::new(),
        transition: None,
    }
}

fn session() -> VideoSession {
    VideoSession::with_project_id(
        Metadata { name: "room".to_string(), created_at: 1000, max_duration: secs(3600) },
        "project-a".to_string(),
        1000,
    )
}

fn envelope(client: &str, base: u64, operation: EditOperation) -> OTOperation {
    OTOperation { client_id: client.to_string(), client_version: 0, server_version: base, operation }
}

fn person(id: &str, name: &str) -> Collaborator {
    Collaborator {
        id: id.to_string(),
        name: name.to_string(),
        cursor_position: CursorPosition { track: 0, time: secs(0) },
    }
}

fn recipients(out: &[Outbound]) -> Vec<String> {
    out.iter().map(|o| o.recipient.clone()).collect()
}

#[test]
fn fresh_session() {
    let s = session();
    assert_eq!(s.server_version(), 0);
    assert_eq!(s.last_activity(), 1000);
    assert!(s.clients().is_empty());
    assert!(s.history().is_empty());
    assert_eq!(s.metadata().name, "room");
    assert_eq!(s.project().id, "project-a");
    assert_eq!(s.project().name, "room");
    assert_eq!(s.project().collaborators, vec![person("server", "Server")]);
}

#[test]
fn new_session_draws_a_project_id() {
    let meta = |n: &str| Metadata { name: n.to_string(), created_at: 5, max_duration: secs(1) };
    let a = VideoSession::new(meta("x"), 5);
    let b = VideoSession::new(meta("x"), 5);
    assert_eq!(a.project().id.len(), 36);
    assert_eq!(a.project().id.matches('-').count(), 4);
    assert_ne!(a.project().id, b.project().id);
    assert_eq!(a.project().name, "x");
    assert_eq!(a.server_version(), 0);
}

#[test]
fn join_registers_and_announces() {
    let mut s = session();
    let j = s.join("A", 2000);
    assert_eq!(s.clients(), &vec!["A".to_string()]);
    assert_eq!(s.last_activity(), 2000);
    assert_eq!(s.project().collaborators, vec![person("server", "Server"), person("A", "User A")]);
    assert_eq!(j.server_version, 0);
    assert_eq!(&j.project, s.project());
    assert_eq!(
        j.announcements,
        vec![Outbound {
            recipient: "A".to_string(),
            message: ServerMessage::NewClient {
                client_id: "A".to_string(),
                name: "User A".to_string()
            },
        }]
    );
    let j = s.join("B", 3000);
    assert_eq!(recipients(&j.announcements), vec!["A", "B"]);
}

#[test]
fn joining_twice_changes_nothing() {
    let mut s = session();
    s.join("A", 2000);
    let j = s.join("A", 9000);
    assert!(j.announcements.is_empty());
    assert_eq!(s.clients(), &vec!["A".to_string()]);
    assert_eq!(s.project().collaborators.len(), 2);
    assert_eq!(s.last_activity(), 2000);
}

#[test]
fn connect_gives_a_numbered_id() {
    let mut s = session();
    let (id, joined) = s.connect(10);
    assert!(id.starts_with("user-"));
    let n: u32 = id["user-".len()..].parse().unwrap();
    assert_eq!(id, format!("user-{}", n));
    assert!(s.has_client(&id));
    assert_eq!(recipients(&joined.announcements), vec![id.clone()]);
    assert_eq!(s.project().collaborators[1], person(&id, &format!("User {}", id)));
}

#[test]
fn free_client_id_skips_the_taken_ones() {
    let mut s = session();
    assert_eq!(s.free_client_id(5), "user-5");
    s.join("user-5", 1);
    s.join("user-6", 1);
    s.join("user-4294967295", 1);
    assert_eq!(s.free_client_id(5), "user-7");
    assert_eq!(s.free_client_id(6), "user-7");
    assert_eq!(s.free_client_id(4), "user-4");
    assert_eq!(s.free_client_id(u32::MAX), "user-0");
    s.join("user-0", 1);
    assert_eq!(s.free_client_id(u32::MAX), "user-1");
}

#[test]
fn connected_clients_get_different_ids() {
    let mut s = session();
    let mut ids = Vec::new();
    for k in 0..50 {
        let (id, joined) = s.connect(k);
        assert!(!ids.contains(&id));
        assert_eq!(joined.announcements.len(), ids.len() + 1);
        ids.push(id);
    }
    assert_eq!(s.clients(), &ids);
}

#[test]
fn disconnect_cleans_roster() {
    let mut s = session();
    s.join("A", 1);
    s.join("B", 2);
    s.join("C", 3);
    let out = s.leave("B");
    assert_eq!(s.clients(), &vec!["A".to_string(), "C".to_string()]);
    assert_eq!(
        out,
        vec![
            Outbound {
                recipient: "A".to_string(),
                message: ServerMessage::ClientDisconnected("B".to_string())
            },
            Outbound {
                recipient: "C".to_string(),
                message: ServerMessage::ClientDisconnected("B".to_string())
            },
        ]
    );
    let ids: Vec<&str> = s.project().collaborators.iter().map(|c| c.id.as_str()).collect();
    assert_eq!(ids, vec!["server", "A", "C"]);
    assert!(!s.has_client("B"));
}

#[test]
fn leave_of_a_stranger_still_tells_everyone() {
    let mut s = session();
    s.join("A", 1);
    let out = s.leave("Z");
    assert_eq!(recipients(&out), vec!["A"]);
    assert_eq!(s.clients(), &vec!["A".to_string()]);
}

#[test]
fn submit_commits_stamps_and_broadcasts() {
    let mut s = session();
    s.join("A", 1);
    s.join("B", 2);
    let out = s.submit(&envelope("A", 0, EditOperation::AddClip(clip("c1", 0, 10, 0))), 50);
    assert_eq!(s.server_version(), 1);
    assert_eq!(s.last_activity(), 50);
    assert_eq!(s.project().clips, vec![clip("c1", 0, 10, 0)]);
    let committed = OTOperation {
        client_id: "A".to_string(),
        client_version: 0,
        server_version: 1,
        operation: EditOperation::AddClip(clip("c1", 0, 10, 0)),
    };
    assert_eq!(s.history(), &vec![committed.clone()]);
    assert_eq!(
        out,
        vec![
            Outbound {
                recipient: "A".to_string(),
                message: ServerMessage::ClientOperation(committed.clone())
            },
            Outbound { recipient: "B".to_string(), message: ServerMessage::ClientOperation(committed) },
        ]
    );
}

#[test]
fn version_goes_up_by_one_per_submit() {
    let mut s = session();
    s.join("A", 1);
    for k in 0..20u64 {
        assert_eq!(s.server_version(), k);
        let out = s.submit(&envelope("A", k, EditOperation::RenameProject(format!("n{}", k))), 10 + k);
        assert_eq!(s.server_version(), k + 1);
        match &out[0].message {
            ServerMessage::ClientOperation(op) => assert_eq!(op.server_version, k + 1),
            other => panic!("unexpected {:?}", other),
        }
    }
    let versions: Vec<u64> = s.history().iter().map(|o| o.server_version).collect();
    assert_eq!(versions, (1..=20).collect::<Vec<u64>>());
}

#[test]
fn an_edit_of_a_missing_clip_is_still_committed() {
    let mut s = session();
    s.join("A", 1);
    let out = s.submit(&envelope("A", 0, EditOperation::RemoveClip("nope".to_string())), 5);
    assert_eq!(s.server_version(), 1);
    assert!(s.project().clips.is_empty());
    assert_eq!(out.len(), 1);
}

#[test]
fn submit_transforms_against_what_the_sender_has_not_seen() {
    let mut s = session();
    s.join("a", 1);
    s.join("b", 2);
    s.submit(&envelope("a", 0, EditOperation::AddClip(clip("c1", 0, 10, 0))), 3);
    s.submit(&envelope("b", 0, EditOperation::AddClip(clip("c2", 0, 4, 0))), 4);
    assert_eq!(s.project().clips, vec![clip("c1", 0, 10, 0), clip("c2", 10, 14, 0)]);
    // A sender that has seen everything is taken at its word.
    s.submit(&envelope("b", 2, EditOperation::AddClip(clip("c3", 0, 4, 0))), 5);
    assert_eq!(s.project().clips[2], clip("c3", 0, 4, 0));
    // A sender that claims a version from the future is taken at its word too.
    s.submit(&envelope("b", 99, EditOperation::AddClip(clip("c4", 1, 2, 0))), 6);
    assert_eq!(s.project().clips[3], clip("c4", 1, 2, 0));
    assert_eq!(s.server_version(), 4);
}

#[test]
fn rebase_folds_oldest_first() {
    let mut s = session();
    s.join("a", 1);
    let trim = |a: u64, b: u64| EditOperation::TrimClip {
        id: "c1".to_string(),
        new_start_time: secs(a),
        new_end_time: secs(b),
    };
    s.submit(&envelope("a", 0, EditOperation::AddClip(clip("c1", 0, 100, 0))), 3);
    s.submit(&envelope("a", 1, trim(10, 90)), 4);
    s.submit(&envelope("a", 2, trim(20, 95)), 5);
    let r = s.rebase(&envelope("b", 1, trim(0, 80)));
    assert_eq!(r.operation, trim(20, 80));
    assert_eq!(r.client_id, "b");
    let r = s.rebase(&envelope("b", 3, trim(0, 80)));
    assert_eq!(r.operation, trim(0, 80));
}

#[test]
fn ping_and_pong() {
    let s = session();
    assert_eq!(s.send_ping(123), ServerMessage::Ping(123));
    assert_eq!(s.send_pong(1500, 1200), ServerMessage::Pong(300));
    assert_eq!(s.send_pong(7, 7), ServerMessage::Pong(0));
    assert_eq!(s.send_pong(7, 8), ServerMessage::Pong(0));
    assert_eq!(s.send_pong(0, u64::MAX), ServerMessage::Pong(0));
    assert_eq!(s.send_pong(u64::MAX, 0), ServerMessage::Pong(u64::MAX));
}

#[test]
fn receive_answers_a_probe_to_its_sender_alone() {
    let mut s = session();
    s.join("A", 1);
    s.join("B", 2);
    let out = s.receive("B", &ClientFrame::Ping(900), 1000);
    assert_eq!(
        out,
        vec![Outbound { recipient: "B".to_string(), message: ServerMessage::Pong(100) }]
    );
    assert_eq!(s.server_version(), 0);
    assert_eq!(s.last_activity(), 2);
    let out = s.receive("B", &ClientFrame::Ping(2000), 1000);
    assert_eq!(
        out,
        vec![Outbound { recipient: "B".to_string(), message: ServerMessage::Pong(0) }]
    );
    assert_eq!(s.last_activity(), 2);
}

#[test]
fn receive_commits_an_edit() {
    let mut s = session();
    s.join("A", 1);
    s.join("B", 2);
    let frame = ClientFrame::Operation(envelope("A", 0, EditOperation::RenameProject("n".into())));
    let out = s.receive("A", &frame, 77);
    assert_eq!(recipients(&out), vec!["A", "B"]);
    assert_eq!(s.project().name, "n");
    assert_eq!(s.server_version(), 1);
    assert_eq!(s.last_activity(), 77);
}

#[test]
fn deliver_joins_a_sender_that_is_not_on_the_roster() {
    let mut s = session();
    s.join("A", 1);
    let frame = ClientFrame::Operation(envelope("B", 0, EditOperation::RenameProject("n".into())));
    let out = s.deliver("B", &frame, 9);
    assert_eq!(s.clients(), &vec!["A".to_string(), "B".to_string()]);
    assert_eq!(recipients(&out), vec!["A", "B", "A", "B"]);
    assert_eq!(
        out[0].message,
        ServerMessage::NewClient { client_id: "B".to_string(), name: "User B".to_string() }
    );
    assert!(matches!(out[2].message, ServerMessage::ClientOperation(_)));
    assert_eq!(s.project().name, "n");
    let out = s.deliver("B", &ClientFrame::Ping(4), 10);
    assert_eq!(
        out,
        vec![Outbound { recipient: "B".to_string(), message: ServerMessage::Pong(6) }]
    );
    assert_eq!(s.clients().len(), 2);
}

#[test]
fn manager_delivers_to_a_session_made_anew() {
    let mut m = SessionManager::new();
    let i = m.get_or_create_session("room", 0);
    m.session_mut(i).join("A", 0);
    m.cleanup_inactive_sessions(25 * HOUR);
    assert_eq!(m.len(), 0);
    let frame = ClientFrame::Operation(envelope("A", 0, EditOperation::RenameProject("n".into())));
    let out = m.deliver("room", "A", &frame, 25 * HOUR);
    assert_eq!(m.len(), 1);
    assert_eq!(m.session(0).clients(), &vec!["A".to_string()]);
    assert_eq!(m.session(0).server_version(), 1);
    assert_eq!(m.session(0).project().name, "n");
    assert_eq!(recipients(&out), vec!["A", "A"]);
    let out = m.deliver("room", "A", &ClientFrame::Ping(0), 25 * HOUR + 5);
    assert_eq!(
        out,
        vec![Outbound { recipient: "A".to_string(), message: ServerMessage::Pong(25 * HOUR + 5) }]
    );
    assert_eq!(m.len(), 1);
}

#[test]
fn expiry_counts_from_the_last_activity() {
    let mut s = session();
    let day = secs(86_400);
    assert!(!s.expired(1000, day));
    assert!(!s.expired(1000 + 24 * HOUR - 1, day));
    assert!(!s.expired(1000 + 24 * HOUR, day));
    assert!(s.expired(1000 + 24 * HOUR + 1, day));
    assert!(s.expired(1000 + 25 * HOUR, day));
    assert!(!s.expired(0, day));
    s.submit(&envelope("A", 0, EditOperation::RenameProject("n".into())), 1000 + 20 * HOUR);
    assert!(!s.expired(1000 + 25 * HOUR, day));
    assert!(!s.expired(1000 + 20 * HOUR, TimeSpan::zero()));
    assert!(s.expired(1000 + 20 * HOUR + 1, TimeSpan::zero()));
    assert!(!s.expired(5, TimeSpan::zero()));
}

#[test]
fn manager_makes_a_session_once() {
    let mut m = SessionManager::new();
    assert_eq!(m.len(), 0);
    assert_eq!(m.config().session_idle_ttl, secs(86_400));
    assert_eq!(m.config().session_max_duration, secs(3_600));
    assert_eq!(m.config().broadcast_capacity, 100);
    assert_eq!(m.config().sweeper_interval, secs(3_600));
    let i = m.get_or_create_session("room-1", 10);
    assert_eq!(i, 0);
    assert_eq!(m.session_id(i), "room-1");
    assert_eq!(m.session(i).metadata().name, "room-1");
    assert_eq!(m.session(i).metadata().created_at, 10);
    assert_eq!(m.session(i).metadata().max_duration, secs(3_600));
    assert_eq!(m.session(i).last_activity(), 10);
    m.session_mut(i).join("A", 11);
    let j = m.get_or_create_session("room-2", 12);
    assert_eq!(j, 1);
    let again = m.get_or_create_session("room-1", 13);
    assert_eq!(again, 0);
    assert_eq!(m.len(), 2);
    assert_eq!(m.session(again).clients(), &vec!["A".to_string()]);
    assert_eq!(m.position("room-2"), Some(1));
    assert_eq!(m.position("room-3"), None);
}

#[test]
fn idle_expiry() {
    let mut m = SessionManager::new();
    let i = m.get_or_create_session("room", 0);
    m.session_mut(i).join("A", 0);
    let old_project = m.session(i).project().id.clone();
    m.cleanup_inactive_sessions(25 * HOUR);
    assert_eq!(m.len(), 0);
    assert_eq!(m.position("room"), None);
    let i = m.get_or_create_session("room", 25 * HOUR);
    assert!(m.session(i).clients().is_empty());
    assert_eq!(m.session(i).server_version(), 0);
    assert_ne!(m.session(i).project().id, old_project);
}

#[test]
fn cleanup_keeps_the_active_sessions_in_order() {
    let mut m = SessionManager::new();
    m.get_or_create_session("a", 0);
    m.get_or_create_session("b", 2 * HOUR);
    m.get_or_create_session("c", 0);
    m.get_or_create_session("d", 3 * HOUR);
    m.cleanup_inactive_sessions(24 * HOUR);
    assert_eq!(m.len(), 4);
    m.cleanup_inactive_sessions(24 * HOUR + 1);
    assert_eq!(m.len(), 2);
    assert_eq!(m.session_id(0), "b");
    assert_eq!(m.session_id(1), "d");
    m.cleanup_inactive_sessions(26 * HOUR);
    assert_eq!(m.len(), 2);
    m.cleanup_inactive_sessions(26 * HOUR + 1);
    assert_eq!(m.len(), 1);
    assert_eq!(m.session_id(0), "d");
}

#[test]
fn a_session_idle_for_exactly_a_day_stays() {
    let mut m = SessionManager::new();
    let i = m.get_or_create_session("room", 500);
    m.session_mut(i).join("A", 500);
    m.cleanup_inactive_sessions(500 + 24 * HOUR);
    assert_eq!(m.position("room"), Some(0));
    assert_eq!(m.session(0).clients(), &vec!["A".to_string()]);
    assert_eq!(m.session(0).last_activity(), 500);
    m.cleanup_inactive_sessions(500 + 24 * HOUR + 1);
    assert_eq!(m.position("room"), None);
}

#[test]
fn apply_operation_commits_as_given() {
    let mut s = session();
    let given = OTOperation {
        client_id: "A".to_string(),
        client_version: 4,
        server_version: 77,
        operation: EditOperation::AddClip(clip("c1", 0, 10, 0)),
    };
    let committed = s.apply_operation(&given);
    assert_eq!(committed, OTOperation { server_version: 1, ..given });
    assert_eq!(s.server_version(), 1);
    assert_eq!(s.history(), &vec![committed]);
    assert_eq!(s.project().clips, vec![clip("c1", 0, 10, 0)]);
    assert_eq!(s.last_activity(), 1000);
}

#[test]
fn add_and_remove_client() {
    let mut s = session();
    s.add_client("A".to_string(), 5);
    s.add_client("B".to_string(), 6);
    s.add_client("A".to_string(), 7);
    assert_eq!(s.clients(), &vec!["A".to_string(), "B".to_string()]);
    assert_eq!(s.last_activity(), 6);
    assert_eq!(s.project().collaborators.len(), 3);
    s.remove_client("A");
    assert_eq!(s.clients(), &vec!["B".to_string()]);
    assert_eq!(s.project().collaborators, vec![person("server", "Server"), person("B", "User B")]);
    assert_eq!(s.last_activity(), 6);
    s.remove_client("A");
    assert_eq!(s.clients(), &vec!["B".to_string()]);
}

#[test]
fn broadcast_message_addresses_every_client_in_order() {
    let mut s = session();
    assert!(s.broadcast_message(&ServerMessage::Ping(1)).is_empty());
    for id in ["A", "B", "C"] {
        s.add_client(id.to_string(), 0);
    }
    let chat = ServerMessage::ChatMessage { client_id: "A".to_string(), message: "hi".to_string() };
    let out = s.broadcast_message(&chat);
    assert_eq!(recipients(&out), vec!["A", "B", "C"]);
    assert!(out.iter().all(|o| o.message == chat));
}
