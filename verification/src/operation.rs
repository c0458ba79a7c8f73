//! Edits of a project, and the envelope in which an edit travels.

use crate::clip::{ClipView, VideoClip};
use crate::effect::{Effect, EffectView, Transition, TransitionView};
use crate::project::{Collaborator, CollaboratorView, CursorPosition};
use crate::time::TimeSpan;
use vstd::prelude::*;

verus! {

/// One edit of a project.
#[derive(Debug, PartialEq, Eq)]
pub enum EditOperation {
    AddClip(VideoClip),
    RemoveClip(String),
    MoveClip { id: String, new_start_time: TimeSpan, new_track: usize },
    TrimClip { id: String, new_start_time: TimeSpan, new_end_time: TimeSpan },
    AddEffect { clip_id: String, effect: Effect },
    RemoveEffect { clip_id: String, effect_id: String },
    AddTransition { clip_id: String, transition: Transition },
    RemoveTransition { clip_id: String },
    SetProjectDuration(TimeSpan),
    UpdateCollaboratorCursor { collaborator_id: String, new_position: CursorPosition },
    RenameProject(String),
    AddCollaborator(Collaborator),
    RemoveCollaborator(String),
}

/// An [`EditOperation`] as mathematical values.
pub enum EditOperationView {
    AddClip(ClipView),
    RemoveClip(Seq<char>),
    MoveClip { id: Seq<char>, new_start_time: nat, new_track: nat },
    TrimClip { id: Seq<char>, new_start_time: nat, new_end_time: nat },
    AddEffect { clip_id: Seq<char>, effect: EffectView },
    RemoveEffect { clip_id: Seq<char>, effect_id: Seq<char> },
    AddTransition { clip_id: Seq<char>, transition: TransitionView },
    RemoveTransition { clip_id: Seq<char> },
    SetProjectDuration(nat),
    UpdateCollaboratorCursor { collaborator_id: Seq<char>, new_position: CursorPosition },
    RenameProject(Seq<char>),
    AddCollaborator(CollaboratorView),
    RemoveCollaborator(Seq<char>),
}

impl View for EditOperation {
    type V = EditOperationView;

    open spec fn view(&self) -> EditOperationView {
        match *self {
            EditOperation::AddClip(clip) => EditOperationView::AddClip(clip@),
            EditOperation::RemoveClip(id) => EditOperationView::RemoveClip(id@),
            EditOperation::MoveClip { id, new_start_time, new_track } => EditOperationView::MoveClip {
                id: id@,
                new_start_time: new_start_time@,
                new_track: new_track as nat,
            },
            EditOperation::TrimClip { id, new_start_time, new_end_time } => EditOperationView::TrimClip {
                id: id@,
                new_start_time: new_start_time@,
                new_end_time: new_end_time@,
            },
            EditOperation::AddEffect { clip_id, effect } => EditOperationView::AddEffect {
                clip_id: clip_id@,
                effect: effect@,
            },
            EditOperation::RemoveEffect { clip_id, effect_id } => EditOperationView::RemoveEffect {
                clip_id: clip_id@,
                effect_id: effect_id@,
            },
            EditOperation::AddTransition { clip_id, transition } => EditOperationView::AddTransition {
                clip_id: clip_id@,
                transition: transition@,
            },
            EditOperation::RemoveTransition { clip_id } => EditOperationView::RemoveTransition {
                clip_id: clip_id@,
            },
            EditOperation::SetProjectDuration(duration) => EditOperationView::SetProjectDuration(
                duration@,
            ),
            EditOperation::UpdateCollaboratorCursor {
                collaborator_id,
                new_position,
            } => EditOperationView::UpdateCollaboratorCursor {
                collaborator_id: collaborator_id@,
                new_position,
            },
            EditOperation::RenameProject(name) => EditOperationView::RenameProject(name@),
            EditOperation::AddCollaborator(person) => EditOperationView::AddCollaborator(person@),
            EditOperation::RemoveCollaborator(id) => EditOperationView::RemoveCollaborator(id@),
        }
    }
}

impl Clone for EditOperation {
    fn clone(&self) -> (r: Self)
        ensures
            r@ == self@,
    {
        match self {
            EditOperation::AddClip(clip) => EditOperation::AddClip(clip.clone()),
            EditOperation::RemoveClip(id) => EditOperation::RemoveClip(id.clone()),
            EditOperation::MoveClip { id, new_start_time, new_track } => EditOperation::MoveClip {
                id: id.clone(),
                new_start_time: *new_start_time,
                new_track: *new_track,
            },
            EditOperation::TrimClip { id, new_start_time, new_end_time } => EditOperation::TrimClip {
                id: id.clone(),
                new_start_time: *new_start_time,
                new_end_time: *new_end_time,
            },
            EditOperation::AddEffect { clip_id, effect } => EditOperation::AddEffect {
                clip_id: clip_id.clone(),
                effect: effect.clone(),
            },
            EditOperation::RemoveEffect { clip_id, effect_id } => EditOperation::RemoveEffect {
                clip_id: clip_id.clone(),
                effect_id: effect_id.clone(),
            },
            EditOperation::AddTransition { clip_id, transition } => EditOperation::AddTransition {
                clip_id: clip_id.clone(),
                transition: transition.clone(),
            },
            EditOperation::RemoveTransition { clip_id } => EditOperation::RemoveTransition {
                clip_id: clip_id.clone(),
            },
            EditOperation::SetProjectDuration(duration) => EditOperation::SetProjectDuration(
                *duration,
            ),
            EditOperation::UpdateCollaboratorCursor {
                collaborator_id,
                new_position,
            } => EditOperation::UpdateCollaboratorCursor {
                collaborator_id: collaborator_id.clone(),
                new_position: *new_position,
            },
            EditOperation::RenameProject(name) => EditOperation::RenameProject(name.clone()),
            EditOperation::AddCollaborator(person) => EditOperation::AddCollaborator(
                person.clone(),
            ),
            EditOperation::RemoveCollaborator(id) => EditOperation::RemoveCollaborator(id.clone()),
        }
    }
}

/// An edit on its way between a client and the session.
///
/// `client_version` counts the edits that the client has sent. On the way to
/// the session `server_version` is the last version that the client has seen;
/// on the way back it is the version that the session gave to the edit.
#[derive(Debug, PartialEq, Eq)]
pub struct OTOperation {
    pub client_id: String,
    pub client_version: u64,
    pub server_version: u64,
    pub operation: EditOperation,
}

/// An [`OTOperation`] as mathematical values.
pub struct OTOperationView {
    pub client_id: Seq<char>,
    pub client_version: u64,
    pub server_version: u64,
    pub operation: EditOperationView,
}

impl View for OTOperation {
    type V = OTOperationView;

    open spec fn view(&self) -> OTOperationView {
        OTOperationView {
            client_id: self.client_id@,
            client_version: self.client_version,
            server_version: self.server_version,
            operation: self.operation@,
        }
    }
}

impl Clone for OTOperation {
    fn clone(&self) -> (r: Self)
        ensures
            r@ == self@,
    {
        OTOperation {
            client_id: self.client_id.clone(),
            client_version: self.client_version,
            server_version: self.server_version,
            operation: self.operation.clone(),
        }
    }
}

impl OTOperationView {
    /// The same edit in the same envelope, stamped with `server_version`.
    pub open spec fn stamped(self, server_version: u64) -> OTOperationView {
        OTOperationView { server_version, ..self }
    }
}

} // verus!
