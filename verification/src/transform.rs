//! Reconciling an edit with one that the session committed before it.
//!
//! A client sends an edit made against the last version it has seen. Where
//! the session has committed other edits since, the client's edit is
//! transformed against each of them in turn before it is carried out.

use crate::clip::ClipView;
use crate::operation::{EditOperation, EditOperationView, OTOperation, OTOperationView};
use crate::project::VideoProject;
use crate::text::lex_lt;
use crate::text;
use crate::time::TimeSpan;
use vstd::prelude::*;

verus! {

/// The later of two points in time.
pub open spec fn later(a: nat, b: nat) -> nat {
    if a >= b {
        a
    } else {
        b
    }
}

/// The earlier of two points in time.
pub open spec fn earlier(a: nat, b: nat) -> nat {
    if a <= b {
        a
    } else {
        b
    }
}

/// The clip that a client adds, seen after the session has committed the
/// adding of `server_clip` by the client `server_id`.
///
/// Where `server_id` comes before `client_id`, the client's clip is put off
/// by the length of the server's clip; else it stays. It also stays where the
/// server's clip ends before it starts.
pub open spec fn clip_after_added(
    server_id: Seq<char>,
    server_clip: ClipView,
    client_id: Seq<char>,
    client_clip: ClipView,
) -> ClipView {
    if lex_lt(server_id, client_id) && server_clip.span_ordered() {
        client_clip.shifted(server_clip.length() as nat)
    } else {
        client_clip
    }
}

/// The edit that stands for the client's once the server's has been carried
/// out.
///
/// - Both add a clip: the client's clip is put off as [`clip_after_added`]
///   says.
/// - Both move the same clip, or both set the project's length: the
///   server's edit, which wins.
/// - Both trim the same clip: the trim to the span that the two have in
///   common.
/// - Any other pair: the client's edit as it is.
pub open spec fn reconciled(server: OTOperationView, client: OTOperationView) -> EditOperationView {
    match (server.operation, client.operation) {
        (EditOperationView::AddClip(s), EditOperationView::AddClip(c)) => EditOperationView::AddClip(
            clip_after_added(server.client_id, s, client.client_id, c),
        ),
        (
            EditOperationView::MoveClip { id: server_clip, .. },
            EditOperationView::MoveClip { id: client_clip, .. },
        ) => if server_clip == client_clip {
            server.operation
        } else {
            client.operation
        },
        (
            EditOperationView::TrimClip { id: server_clip, new_start_time: s0, new_end_time: s1 },
            EditOperationView::TrimClip { id: client_clip, new_start_time: c0, new_end_time: c1 },
        ) => if server_clip == client_clip {
            EditOperationView::TrimClip {
                id: client_clip,
                new_start_time: later(s0, c0),
                new_end_time: earlier(s1, c1),
            }
        } else {
            client.operation
        },
        (
            EditOperationView::SetProjectDuration(_),
            EditOperationView::SetProjectDuration(_),
        ) => server.operation,
        _ => client.operation,
    }
}

/// The client's edit transformed against the server's: the edit that
/// [`reconciled`] gives, in the client's envelope, stamped with
/// `server_version`.
pub open spec fn transform(
    server: OTOperationView,
    client: OTOperationView,
    server_version: u64,
) -> OTOperationView {
    OTOperationView { operation: reconciled(server, client), server_version, ..client }
}

impl VideoProject {
    /// Transforms `client_op` against `server_op`, an edit that the session
    /// committed and that the client had not seen when it made its own, and
    /// stamps the outcome with `server_version`.
    pub fn transform_operation(
        server_op: &OTOperation,
        client_op: &OTOperation,
        server_version: u64,
    ) -> (r: OTOperation)
        ensures
            r@ == transform(server_op@, client_op@, server_version),
    {
        let operation = match &server_op.operation {
            EditOperation::AddClip(s) => match &client_op.operation {
                EditOperation::AddClip(c) => {
                    let mut clip = c.clone();
                    if text::precedes(server_op.client_id.as_str(), client_op.client_id.as_str()) {
                        if let Some(length) = s.end_time.checked_sub(s.start_time) {
                            clip.shift_by(length);
                        }
                    }
                    EditOperation::AddClip(clip)
                },
                other => other.clone(),
            },
            EditOperation::MoveClip { id: server_clip, .. } => match &client_op.operation {
                EditOperation::MoveClip { id: client_clip, .. } => {
                    if text::equal(server_clip.as_str(), client_clip.as_str()) {
                        server_op.operation.clone()
                    } else {
                        client_op.operation.clone()
                    }
                },
                other => other.clone(),
            },
            EditOperation::TrimClip {
                id: server_clip,
                new_start_time: s0,
                new_end_time: s1,
            } => match &client_op.operation {
                EditOperation::TrimClip { id: client_clip, new_start_time: c0, new_end_time: c1 } => {
                    if text::equal(server_clip.as_str(), client_clip.as_str()) {
                        EditOperation::TrimClip {
                            id: client_clip.clone(),
                            new_start_time: TimeSpan::longer_of(*s0, *c0),
                            new_end_time: TimeSpan::shorter_of(*s1, *c1),
                        }
                    } else {
                        client_op.operation.clone()
                    }
                },
                other => other.clone(),
            },
            EditOperation::SetProjectDuration(_) => match &client_op.operation {
                EditOperation::SetProjectDuration(_) => server_op.operation.clone(),
                other => other.clone(),
            },
            _ => client_op.operation.clone(),
        };
        OTOperation {
            client_id: client_op.client_id.clone(),
            client_version: client_op.client_version,
            server_version,
            operation,
        }
    }
}

} // verus!
