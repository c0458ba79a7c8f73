use weframe::{EditOperation, OTOperation, TimeSpan, VideoClip, VideoProject};

fn secs(n: u64) -> TimeSpan {
    TimeSpan::from_secs(n)
}

fn clip(id: &str, start: u64, end: u64, track: usize) -> VideoClip {
    VideoClip {
        id: id.to_string(),
        source_file: "a.mp4".to_string(),
        start_time: secs(start),
        end_time: secs(end),
        track,
        effects: Vec::new(),
        transition: None,
    }
}

fn envelope(client: &str, client_version: u64, operation: EditOperation) -> OTOperation {
    OTOperation { client_id: client.to_string(), client_version, server_version: 0, operation }
}

fn move_to(id: &str, start: u64, track: usize) -> EditOperation {
    EditOperation::MoveClip { id: id.to_string(), new_start_time: secs(start), new_track: track }
}

fn trim(id: &str, start: u64, end: u64) -> EditOperation {
    EditOperation::TrimClip {
        id: id.to_string(),
        new_start_time: secs(start),
        new_end_time: secs(end),
    }
}

#[test]
fn add_after_add_from_an_earlier_id_is_put_off() {
    let server = envelope("a", 0, EditOperation::AddClip(clip("c1", 0, 10, 0)));
    let client = envelope("b", 3, EditOperation::AddClip(clip("c2", 0, 4, 0)));
    let r = VideoProject::transform_operation(&server, &client, 7);
    assert_eq!(
        r,
        OTOperation {
            client_id: "b".to_string(),
            client_version: 3,
            server_version: 7,
            operation: EditOperation::AddClip(clip("c2", 10, 14, 0)),
        }
    );
}

#[test]
fn add_after_add_from_a_later_id_stays() {
    let server = envelope("b", 0, EditOperation::AddClip(clip("c1", 0, 10, 0)));
    let client = envelope("a", 0, EditOperation::AddClip(clip("c2", 0, 4, 0)));
    let r = VideoProject::transform_operation(&server, &client, 1);
    assert_eq!(r.operation, EditOperation::AddClip(clip("c2", 0, 4, 0)));
    assert_eq!(r.client_id, "a");
    assert_eq!(r.server_version, 1);
}

#[test]
fn add_after_add_from_the_same_id_stays() {
    let server = envelope("a", 0, EditOperation::AddClip(clip("c1", 0, 10, 0)));
    let client = envelope("a", 1, EditOperation::AddClip(clip("c2", 0, 4, 0)));
    let r = VideoProject::transform_operation(&server, &client, 1);
    assert_eq!(r.operation, EditOperation::AddClip(clip("c2", 0, 4, 0)));
}

#[test]
fn ids_are_ordered_by_characters_and_prefixes_come_first() {
    for (first, second) in [("a", "b"), ("a", "ab"), ("", "a"), ("user-10", "user-9"), ("Z", "a")] {
        let server = envelope(first, 0, EditOperation::AddClip(clip("c1", 0, 10, 0)));
        let client = envelope(second, 0, EditOperation::AddClip(clip("c2", 0, 4, 0)));
        let r = VideoProject::transform_operation(&server, &client, 1);
        assert_eq!(r.operation, EditOperation::AddClip(clip("c2", 10, 14, 0)));
        let server = envelope(second, 0, EditOperation::AddClip(clip("c1", 0, 10, 0)));
        let client = envelope(first, 0, EditOperation::AddClip(clip("c2", 0, 4, 0)));
        let r = VideoProject::transform_operation(&server, &client, 1);
        assert_eq!(r.operation, EditOperation::AddClip(clip("c2", 0, 4, 0)));
    }
}

#[test]
fn add_that_cannot_be_put_off_stays() {
    let far = VideoClip {
        start_time: TimeSpan::from_nanos(u128::MAX - 5),
        end_time: TimeSpan::from_nanos(u128::MAX),
        ..clip("c2", 0, 0, 0)
    };
    let server = envelope("a", 0, EditOperation::AddClip(clip("c1", 0, 10, 0)));
    let client = envelope("b", 0, EditOperation::AddClip(far.clone()));
    let r = VideoProject::transform_operation(&server, &client, 1);
    assert_eq!(r.operation, EditOperation::AddClip(far));
    let server = envelope("a", 0, EditOperation::AddClip(clip("c1", 10, 0, 0)));
    let client = envelope("b", 0, EditOperation::AddClip(clip("c2", 0, 4, 0)));
    let r = VideoProject::transform_operation(&server, &client, 1);
    assert_eq!(r.operation, EditOperation::AddClip(clip("c2", 0, 4, 0)));
}

#[test]
fn remove_after_remove_is_the_same_remove() {
    let server = envelope("a", 0, EditOperation::RemoveClip("c1".to_string()));
    let client = envelope("b", 2, EditOperation::RemoveClip("c1".to_string()));
    let r = VideoProject::transform_operation(&server, &client, 4);
    assert_eq!(
        r,
        OTOperation {
            client_id: "b".to_string(),
            client_version: 2,
            server_version: 4,
            operation: EditOperation::RemoveClip("c1".to_string()),
        }
    );
    let other = envelope("b", 2, EditOperation::RemoveClip("c2".to_string()));
    let r = VideoProject::transform_operation(&server, &other, 4);
    assert_eq!(r.operation, EditOperation::RemoveClip("c2".to_string()));
}

#[test]
fn move_after_move_of_the_same_clip_gives_the_servers() {
    let server = envelope("a", 5, move_to("c1", 3, 1));
    let client = envelope("b", 9, move_to("c1", 7, 2));
    let r = VideoProject::transform_operation(&server, &client, 1);
    assert_eq!(
        r,
        OTOperation {
            client_id: "b".to_string(),
            client_version: 9,
            server_version: 1,
            operation: move_to("c1", 3, 1),
        }
    );
}

#[test]
fn move_after_move_of_another_clip_stays() {
    let server = envelope("a", 5, move_to("c1", 3, 1));
    let client = envelope("b", 9, move_to("c2", 7, 2));
    let r = VideoProject::transform_operation(&server, &client, 1);
    assert_eq!(
        r,
        OTOperation {
            client_id: "b".to_string(),
            client_version: 9,
            server_version: 1,
            operation: move_to("c2", 7, 2),
        }
    );
}

#[test]
fn trim_after_trim_of_the_same_clip_is_the_common_span() {
    let server = envelope("a", 0, trim("c1", 2, 18));
    let client = envelope("b", 1, trim("c1", 5, 15));
    let r = VideoProject::transform_operation(&server, &client, 1);
    assert_eq!(
        r,
        OTOperation {
            client_id: "b".to_string(),
            client_version: 1,
            server_version: 1,
            operation: trim("c1", 5, 15),
        }
    );
    let client = envelope("b", 1, trim("c1", 1, 30));
    let r = VideoProject::transform_operation(&server, &client, 1);
    assert_eq!(r.operation, trim("c1", 2, 18));
    let client = envelope("b", 1, trim("c1", 1, 9));
    let r = VideoProject::transform_operation(&server, &client, 1);
    assert_eq!(r.operation, trim("c1", 2, 9));
}

#[test]
fn trim_after_trim_of_another_clip_stays() {
    let server = envelope("a", 0, trim("c1", 2, 18));
    let client = envelope("b", 1, trim("c2", 5, 15));
    let r = VideoProject::transform_operation(&server, &client, 1);
    assert_eq!(r.operation, trim("c2", 5, 15));
}

#[test]
fn duration_after_duration_gives_the_servers() {
    let server = envelope("a", 4, EditOperation::SetProjectDuration(secs(100)));
    let client = envelope("b", 6, EditOperation::SetProjectDuration(secs(200)));
    let r = VideoProject::transform_operation(&server, &client, 3);
    assert_eq!(
        r,
        OTOperation {
            client_id: "b".to_string(),
            client_version: 6,
            server_version: 3,
            operation: EditOperation::SetProjectDuration(secs(100)),
        }
    );
}

#[test]
fn other_pairs_stay() {
    let server = envelope("a", 0, EditOperation::RemoveClip("c1".to_string()));
    let client = envelope("b", 1, trim("c1", 5, 15));
    let r = VideoProject::transform_operation(&server, &client, 2);
    assert_eq!(
        r,
        OTOperation {
            client_id: "b".to_string(),
            client_version: 1,
            server_version: 2,
            operation: trim("c1", 5, 15),
        }
    );
    let server = envelope("a", 0, EditOperation::RenameProject("x".to_string()));
    let client = envelope("b", 1, EditOperation::RenameProject("y".to_string()));
    let r = VideoProject::transform_operation(&server, &client, 2);
    assert_eq!(r.operation, EditOperation::RenameProject("y".to_string()));
    let server = envelope("a", 0, move_to("c1", 1, 1));
    let client = envelope("b", 1, trim("c1", 5, 15));
    let r = VideoProject::transform_operation(&server, &client, 2);
    assert_eq!(r.operation, trim("c1", 5, 15));
}
