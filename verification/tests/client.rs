use weframe::{
    ClientError, Collaborator, CursorPosition, EditOperation, Effect, EffectType, Metadata,
    OTOperation, Outbound, ServerMessage, TimeSpan, VideoClip, VideoProject, VideoSession,
    WeframeClient,
};

fn secs(n: u64) -> TimeSpan {
    TimeSpan::from_secs(n)
}

fn clip(id: &str, start: u64, end: u64, track: usize) -> VideoClip {
    VideoClip {
        id: id.to_string(),
        source_file: "a.mp4".to_string(),
        start_time: secs(start),
        end_time: secs(end),
        track,
        effects: Vec::new(),
        transition: None,
    }
}

fn replica(id: &str) -> WeframeClient {
    WeframeClient::with_project_id("project-a".to_string(), id, "Name")
}

fn session() -> VideoSession {
    VideoSession::with_project_id(
        Metadata { name: "room".to_string(), created_at: 0, max_duration: secs(3600) },
        "project-a".to_string(),
        0,
    )
}

fn deliver(out: &[Outbound], clients: &mut [&mut WeframeClient]) {
    for o in out {
        for c in clients.iter_mut() {
            if c.client_id() == &o.recipient {
                c.on_inbound(&o.message);
            }
        }
    }
}

fn seeded(ids: &[&str], first: VideoClip) -> (VideoSession, Vec<WeframeClient>) {
    let mut s = session();
    let mut clients: Vec<WeframeClient> = ids.iter().map(|id| replica(id)).collect();
    for id in ids {
        s.join(id, 0);
    }
    for c in clients.iter_mut() {
        c.on_inbound(&ServerMessage::ProjectUpdate(s.project().clone()));
    }
    let out = s.submit(
        &OTOperation {
            client_id: "seed".to_string(),
            client_version: 0,
            server_version: 0,
            operation: EditOperation::AddClip(first),
        },
        0,
    );
    for c in clients.iter_mut() {
        for o in &out {
            if c.client_id() == &o.recipient {
                c.on_inbound(&o.message);
            }
        }
    }
    (s, clients)
}

#[test]
fn fresh_replica() {
    let c = replica("A");
    assert_eq!(c.client_id(), "A");
    assert_eq!(c.client_version(), 0);
    assert_eq!(c.last_server_version(), 0);
    assert_eq!(
        c.get_project(),
        &VideoProject::new("project-a".into(), "New Project".into(), "A".into(), "Name".into())
    );
    let d = WeframeClient::new("A", "Name");
    assert_eq!(d.get_project().id.len(), 36);
    assert_eq!(d.get_project().name, "New Project");
}

#[test]
fn local_intent_applies_and_wraps() {
    let mut c = replica("A");
    c.on_inbound(&ServerMessage::ClientOperation(OTOperation {
        client_id: "B".to_string(),
        client_version: 0,
        server_version: 4,
        operation: EditOperation::RenameProject("r".to_string()),
    }));
    let env = c.local_intent(EditOperation::AddClip(clip("c1", 0, 10, 0)));
    assert_eq!(
        env,
        OTOperation {
            client_id: "A".to_string(),
            client_version: 0,
            server_version: 4,
            operation: EditOperation::AddClip(clip("c1", 0, 10, 0)),
        }
    );
    assert_eq!(c.client_version(), 1);
    assert_eq!(c.get_project().clips, vec![clip("c1", 0, 10, 0)]);
    let env = c.rename_project("again");
    assert_eq!(env.client_version, 1);
    assert_eq!(env.operation, EditOperation::RenameProject("again".to_string()));
    assert_eq!(c.get_project().name, "again");
    assert_eq!(c.client_version(), 2);
}

#[test]
fn inbound_operation_is_replayed_and_noted() {
    let mut c = replica("A");
    let forward = c.on_inbound(&ServerMessage::ClientOperation(OTOperation {
        client_id: "B".to_string(),
        client_version: 3,
        server_version: 9,
        operation: EditOperation::AddClip(clip("c1", 0, 10, 0)),
    }));
    assert!(forward);
    assert_eq!(c.last_server_version(), 9);
    assert_eq!(c.client_version(), 0);
    assert_eq!(c.get_project().clips, vec![clip("c1", 0, 10, 0)]);
}

#[test]
fn inbound_roster_messages_update_the_collaborators() {
    let mut c = replica("A");
    assert!(c.on_inbound(&ServerMessage::NewClient {
        client_id: "B".to_string(),
        name: "User B".to_string()
    }));
    assert_eq!(
        c.get_project().collaborators[1],
        Collaborator {
            id: "B".to_string(),
            name: "User B".to_string(),
            cursor_position: CursorPosition { track: 0, time: secs(0) },
        }
    );
    assert!(c.on_inbound(&ServerMessage::NewClient {
        client_id: "B".to_string(),
        name: "Other".to_string()
    }));
    assert_eq!(c.get_project().collaborators.len(), 2);
    assert!(c.on_inbound(&ServerMessage::ClientDisconnected("B".to_string())));
    assert_eq!(c.get_project().collaborators.len(), 1);
}

#[test]
fn inbound_snapshot_replaces_the_copy() {
    let mut c = replica("A");
    let mut p = VideoProject::new("px".into(), "Shared".into(), "server".into(), "Server".into());
    p.apply_operation(&EditOperation::AddClip(clip("c1", 0, 10, 0)));
    assert!(c.on_inbound(&ServerMessage::ProjectUpdate(p.clone())));
    assert_eq!(c.get_project(), &p);
    assert_eq!(c.last_server_version(), 0);
}

#[test]
fn other_inbound_messages_change_nothing() {
    let mut c = replica("A");
    let before = c.get_project().clone();
    assert!(c.on_inbound(&ServerMessage::ChatMessage {
        client_id: "B".to_string(),
        message: "hi".to_string()
    }));
    assert!(c.on_inbound(&ServerMessage::Error {
        client_id: "A".to_string(),
        message: "no".to_string()
    }));
    assert!(!c.on_inbound(&ServerMessage::Ping(5)));
    assert!(!c.on_inbound(&ServerMessage::Pong(5)));
    assert_eq!(c.get_project(), &before);
    assert_eq!(c.last_server_version(), 0);
    assert_eq!(c.client_version(), 0);
}

#[test]
fn update_cursor_position_moves_the_own_cursor() {
    let mut c = replica("A");
    let env = c.update_cursor_position(3, secs(9));
    assert_eq!(
        env.operation,
        EditOperation::UpdateCollaboratorCursor {
            collaborator_id: "A".to_string(),
            new_position: CursorPosition { track: 3, time: secs(9) },
        }
    );
    assert_eq!(
        c.get_project().collaborators[0].cursor_position,
        CursorPosition { track: 3, time: secs(9) }
    );
    assert_eq!(c.client_version(), 1);
}

#[test]
fn move_clip_needs_the_clip() {
    let mut c = replica("A");
    assert_eq!(c.move_clip("c1", secs(5), 1), Err(ClientError::ClipNotFound));
    assert_eq!(c.client_version(), 0);
    c.local_intent(EditOperation::AddClip(clip("c1", 0, 10, 0)));
    let env = c.move_clip("c1", secs(5), 1).unwrap();
    assert_eq!(
        env.operation,
        EditOperation::MoveClip { id: "c1".to_string(), new_start_time: secs(5), new_track: 1 }
    );
    assert_eq!(env.client_version, 1);
    assert_eq!(c.get_project().clips, vec![clip("c1", 5, 15, 1)]);
    assert_eq!(c.client_version(), 2);
}

#[test]
fn resize_clip_keeps_the_start() {
    let mut c = replica("A");
    assert_eq!(c.resize_clip("c1", secs(5)), Err(ClientError::ClipNotFound));
    c.local_intent(EditOperation::AddClip(clip("c0", 1, 2, 0)));
    c.local_intent(EditOperation::AddClip(clip("c1", 3, 10, 0)));
    let env = c.resize_clip("c1", secs(8)).unwrap();
    assert_eq!(
        env.operation,
        EditOperation::TrimClip {
            id: "c1".to_string(),
            new_start_time: secs(3),
            new_end_time: secs(8)
        }
    );
    assert_eq!(c.get_project().clips, vec![clip("c0", 1, 2, 0), clip("c1", 3, 8, 0)]);
}

#[test]
fn add_clip_draws_an_id() {
    let mut c = replica("A");
    let env = c.add_clip(secs(1), secs(2), 4, "movie.mp4");
    let added = match &env.operation {
        EditOperation::AddClip(added) => added.clone(),
        other => panic!("unexpected {:?}", other),
    };
    assert!(added.id.starts_with("clip-"));
    assert_eq!(added.id.len(), "clip-".len() + 36);
    assert_eq!(added, VideoClip { id: added.id.clone(), source_file: "movie.mp4".into(), ..clip("", 1, 2, 4) });
    assert_eq!(c.get_project().clips, vec![added.clone()]);
    let env2 = c.add_clip(secs(1), secs(2), 4, "movie.mp4");
    assert_ne!(env2.operation, env.operation);
    assert_eq!(c.get_project().clips.len(), 2);
    let env3 = c.add_clip_with_token("t", secs(1), secs(2), 4, "m");
    assert_eq!(
        env3.operation,
        EditOperation::AddClip(VideoClip { source_file: "m".into(), ..clip("clip-t", 1, 2, 4) })
    );
}

#[test]
fn apply_effect_checks_the_name_then_the_clip() {
    let mut c = replica("A");
    assert_eq!(c.apply_effect("c1", "sparkle", 1), Err(ClientError::UnsupportedEffectType));
    assert_eq!(c.apply_effect("c1", "hue", 1), Err(ClientError::ClipNotFound));
    assert_eq!(c.client_version(), 0);
    c.local_intent(EditOperation::AddClip(clip("c1", 0, 10, 0)));
    assert_eq!(c.apply_effect("c1", "sparkle", 1), Err(ClientError::UnsupportedEffectType));
    let env = c.apply_effect_with_token("t1", "hue", "c1", 1);
    assert_eq!(env, Err(ClientError::UnsupportedEffectType));
    let env = c.apply_effect_with_token("t1", "c1", "hue", 0.25f64.to_bits()).unwrap();
    assert_eq!(
        env.operation,
        EditOperation::AddEffect {
            clip_id: "c1".to_string(),
            effect: Effect::with_token("t1", EffectType::Hue, 0.25f64.to_bits()),
        }
    );
    c.apply_effect_with_token("t2", "c1", "contrast", 2).unwrap();
    c.apply_effect_with_token("t3", "c1", "hue", 3).unwrap();
    let ids: Vec<&str> = c.get_project().clips[0].effects.iter().map(|e| e.id.as_str()).collect();
    assert_eq!(ids, vec!["effect-t2", "effect-t3"]);
    let env = c.apply_effect("c1", "grayscale", 9).unwrap();
    match env.operation {
        EditOperation::AddEffect { effect, .. } => {
            assert!(effect.id.starts_with("effect-"));
            assert_eq!(effect.effect_type, EffectType::Grayscale);
        }
        other => panic!("unexpected {:?}", other),
    }
    assert_eq!(c.get_project().clips[0].effects.len(), 3);
}

#[test]
fn error_messages() {
    assert_eq!(ClientError::ClipNotFound.message(), "Clip not found");
    assert_eq!(ClientError::UnsupportedEffectType.message(), "Unsupported effect type");
}

#[test]
fn single_client_add_move() {
    let mut s = session();
    let mut a = replica("A");
    s.join("A", 0);
    a.on_inbound(&ServerMessage::ProjectUpdate(s.project().clone()));
    let e1 = a.local_intent(EditOperation::AddClip(clip("c1", 0, 10, 0)));
    let out = s.submit(&e1, 1);
    deliver(&out, &mut [&mut a]);
    let e2 = a.move_clip("c1", secs(5), 1).unwrap();
    let out = s.submit(&e2, 2);
    deliver(&out, &mut [&mut a]);
    assert_eq!(s.project().clips, vec![clip("c1", 5, 15, 1)]);
    assert_eq!(a.get_project(), s.project());
    assert_eq!(a.last_server_version(), 2);
    assert_eq!(e2.server_version, 1);
}

#[test]
fn concurrent_add_clip_tiebreak() {
    let mut s = session();
    let mut a = replica("a");
    let mut b = replica("b");
    let mut watcher = replica("w");
    for id in ["a", "b", "w"] {
        s.join(id, 0);
    }
    for c in [&mut a, &mut b, &mut watcher] {
        c.on_inbound(&ServerMessage::ProjectUpdate(s.project().clone()));
    }
    let ea = a.local_intent(EditOperation::AddClip(clip("c1", 0, 10, 0)));
    let eb = b.local_intent(EditOperation::AddClip(clip("c2", 0, 4, 0)));
    assert_eq!(ea.server_version, 0);
    assert_eq!(eb.server_version, 0);
    let out = s.submit(&ea, 1);
    deliver(&out, &mut [&mut a, &mut b, &mut watcher]);
    let out = s.submit(&eb, 2);
    deliver(&out, &mut [&mut a, &mut b, &mut watcher]);
    let expected = vec![clip("c1", 0, 10, 0), clip("c2", 10, 14, 0)];
    assert_eq!(s.project().clips, expected);
    assert_eq!(a.get_project().clips, expected);
    assert_eq!(watcher.get_project().clips, expected);
    assert_eq!(a.get_project(), s.project());
    assert_eq!(watcher.get_project(), s.project());
    // The replica that added its clip at once still holds it where it put it.
    assert_eq!(b.get_project().clips, vec![clip("c2", 0, 4, 0), clip("c1", 0, 10, 0)]);
    assert_eq!(b.last_server_version(), 2);
}

#[test]
fn concurrent_trim() {
    let (mut s, mut clients) = seeded(&["A", "B"], clip("c1", 0, 20, 0));
    let (left, right) = clients.split_at_mut(1);
    let (a, b) = (&mut left[0], &mut right[0]);
    assert_eq!(a.last_server_version(), 1);
    let ea = a.local_intent(EditOperation::TrimClip {
        id: "c1".to_string(),
        new_start_time: secs(2),
        new_end_time: secs(18),
    });
    let eb = b.local_intent(EditOperation::TrimClip {
        id: "c1".to_string(),
        new_start_time: secs(5),
        new_end_time: secs(15),
    });
    let out = s.submit(&ea, 1);
    deliver(&out, &mut [&mut *a, &mut *b]);
    let out = s.submit(&eb, 2);
    deliver(&out, &mut [&mut *a, &mut *b]);
    assert_eq!(s.project().clips, vec![clip("c1", 5, 15, 0)]);
    assert_eq!(a.get_project(), s.project());
    assert_eq!(b.get_project(), s.project());
}

#[test]
fn concurrent_trims_meet_in_either_order() {
    for first_is_a in [true, false] {
        let (mut s, mut clients) = seeded(&["A", "B"], clip("c1", 0, 20, 0));
        let (left, right) = clients.split_at_mut(1);
        let (a, b) = (&mut left[0], &mut right[0]);
        let ea = a.local_intent(EditOperation::TrimClip {
            id: "c1".to_string(),
            new_start_time: secs(2),
            new_end_time: secs(12),
        });
        let eb = b.local_intent(EditOperation::TrimClip {
            id: "c1".to_string(),
            new_start_time: secs(5),
            new_end_time: secs(15),
        });
        let (e1, e2) = if first_is_a { (&ea, &eb) } else { (&eb, &ea) };
        let out = s.submit(e1, 1);
        deliver(&out, &mut [&mut *a, &mut *b]);
        let out = s.submit(e2, 2);
        deliver(&out, &mut [&mut *a, &mut *b]);
        assert_eq!(s.project().clips, vec![clip("c1", 5, 12, 0)]);
        assert_eq!(a.get_project(), s.project());
        assert_eq!(b.get_project(), s.project());
    }
}

#[test]
fn concurrent_move_same_clip() {
    let (mut s, mut clients) = seeded(&["A", "B"], clip("c1", 0, 10, 0));
    let (left, right) = clients.split_at_mut(1);
    let (a, b) = (&mut left[0], &mut right[0]);
    let ea = a.move_clip("c1", secs(3), 1).unwrap();
    let eb = b.move_clip("c1", secs(7), 2).unwrap();
    assert_eq!(b.get_project().clips, vec![clip("c1", 7, 17, 2)]);
    let out = s.submit(&ea, 1);
    deliver(&out, &mut [&mut *a, &mut *b]);
    let out = s.submit(&eb, 2);
    deliver(&out, &mut [&mut *a, &mut *b]);
    assert_eq!(s.project().clips, vec![clip("c1", 3, 13, 1)]);
    assert_eq!(a.get_project(), s.project());
    assert_eq!(b.get_project(), s.project());
    assert_eq!(s.server_version(), 3);
}

#[test]
fn received_versions_go_up() {
    let (mut s, mut clients) = seeded(&["A", "B"], clip("c1", 0, 10, 0));
    let mut seen: Vec<u64> = Vec::new();
    for k in 0..10u64 {
        let sender = (k % 2) as usize;
        let e = clients[sender].rename_project(&format!("n{}", k));
        let out = s.submit(&e, k);
        for o in &out {
            if o.recipient == "B" {
                if let ServerMessage::ClientOperation(op) = &o.message {
                    seen.push(op.server_version);
                }
            }
            for c in clients.iter_mut() {
                if c.client_id() == &o.recipient {
                    c.on_inbound(&o.message);
                }
            }
        }
    }
    assert_eq!(seen, (2..=11).collect::<Vec<u64>>());
    assert!(seen.windows(2).all(|w| w[0] < w[1]));
    assert_eq!(clients[0].get_project(), s.project());
    assert_eq!(clients[1].get_project(), s.project());
}

#[test]
fn roster_news_keeps_replicas_in_step() {
    let mut s = session();
    let mut a = replica("A");
    let j = s.join("A", 0);
    a.on_inbound(&ServerMessage::ProjectUpdate(j.project));
    deliver(&j.announcements, &mut [&mut a]);
    assert_eq!(a.get_project(), s.project());
    let j = s.join("B", 1);
    deliver(&j.announcements, &mut [&mut a]);
    assert_eq!(a.get_project(), s.project());
    let out = s.leave("B");
    deliver(&out, &mut [&mut a]);
    assert_eq!(a.get_project(), s.project());
}

#[test]
fn a_removal_of_a_missing_clip_before_its_adding_leaves_the_copies_alike() {
    let (mut s, mut clients) = seeded(&["A", "B"], clip("c0", 0, 1, 0));
    let (left, right) = clients.split_at_mut(1);
    let (a, b) = (&mut left[0], &mut right[0]);
    let ea = a.local_intent(EditOperation::RemoveClip("c9".to_string()));
    let eb = b.local_intent(EditOperation::AddClip(clip("c9", 3, 4, 1)));
    let out = s.submit(&ea, 1);
    deliver(&out, &mut [&mut *a, &mut *b]);
    let out = s.submit(&eb, 2);
    deliver(&out, &mut [&mut *a, &mut *b]);
    assert_eq!(s.project().clips, vec![clip("c0", 0, 1, 0), clip("c9", 3, 4, 1)]);
    assert_eq!(a.get_project(), s.project());
    assert_eq!(b.get_project(), s.project());
}
