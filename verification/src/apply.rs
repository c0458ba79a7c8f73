//! What an edit does to a project.
//!
//! [`ProjectView::apply`] is the reducer as a function on views, and
//! [`VideoProject::apply_operation`] is the code that carries it out. An edit
//! that names a clip or a collaborator which the project does not hold
//! changes nothing.

use crate::clip::{ClipView, VideoClip};
use crate::invariants::lemma_apply_keeps_well_formed;
use crate::operation::{EditOperation, EditOperationView};
use crate::project::{
    clip_views, collaborator_views, has_clip, has_collaborator, Collaborator, CollaboratorView,
    CursorPosition, ProjectView, VideoProject,
};
use crate::sequences::lemma_filter_next;
use crate::text;
use vstd::prelude::*;

verus! {

impl EditOperationView {
    /// Whether the edit changes a clip in place: a move, a trim, or a change
    /// of its effects or its transition.
    pub open spec fn edits_clip(self) -> bool {
        self is MoveClip || self is TrimClip || self is AddEffect || self is RemoveEffect
            || self is AddTransition || self is RemoveTransition
    }
}

impl ClipView {
    /// What `op` makes of this clip: where `op` changes a clip in place and
    /// names this one, the clip after the change; else the clip as it is.
    pub open spec fn edited(self, op: EditOperationView) -> ClipView {
        match op {
            EditOperationView::MoveClip { id, new_start_time, new_track } => if self.id == id {
                self.moved(new_start_time, new_track)
            } else {
                self
            },
            EditOperationView::TrimClip { id, new_start_time, new_end_time } => if self.id == id {
                self.trimmed(new_start_time, new_end_time)
            } else {
                self
            },
            EditOperationView::AddEffect { clip_id, effect } => if self.id == clip_id {
                self.with_effect(effect)
            } else {
                self
            },
            EditOperationView::RemoveEffect { clip_id, effect_id } => if self.id == clip_id {
                self.without_effect(effect_id)
            } else {
                self
            },
            EditOperationView::AddTransition { clip_id, transition } => if self.id == clip_id {
                self.with_transition(transition)
            } else {
                self
            },
            EditOperationView::RemoveTransition { clip_id } => if self.id == clip_id {
                self.without_transition()
            } else {
                self
            },
            _ => self,
        }
    }
}

/// Each clip of the run after `op`.
pub open spec fn edit_each(clips: Seq<ClipView>, op: EditOperationView) -> Seq<ClipView> {
    clips.map_values(|c: ClipView| c.edited(op))
}

/// The run without the clips that carry `id`.
pub open spec fn drop_clip(clips: Seq<ClipView>, id: Seq<char>) -> Seq<ClipView> {
    clips.filter(|c: ClipView| c.id != id)
}

/// The run with the cursor of each collaborator that carries `id` at
/// `position`.
pub open spec fn point_each(
    people: Seq<CollaboratorView>,
    id: Seq<char>,
    position: CursorPosition,
) -> Seq<CollaboratorView> {
    people.map_values(
        |p: CollaboratorView|
            if p.id == id {
                p.pointing_at(position)
            } else {
                p
            },
    )
}

/// The run without the collaborators that carry `id`.
pub open spec fn drop_collaborator(people: Seq<CollaboratorView>, id: Seq<char>) -> Seq<
    CollaboratorView,
> {
    people.filter(|p: CollaboratorView| p.id != id)
}

impl ProjectView {
    /// The project after `op`.
    pub open spec fn apply(self, op: EditOperationView) -> ProjectView {
        match op {
            EditOperationView::AddClip(clip) => if has_clip(self.clips, clip.id) {
                self
            } else {
                ProjectView { clips: self.clips.push(clip), ..self }
            },
            EditOperationView::RemoveClip(id) => ProjectView {
                clips: drop_clip(self.clips, id),
                ..self
            },
            EditOperationView::SetProjectDuration(duration) => ProjectView { duration, ..self },
            EditOperationView::UpdateCollaboratorCursor {
                collaborator_id,
                new_position,
            } => ProjectView {
                collaborators: point_each(self.collaborators, collaborator_id, new_position),
                ..self
            },
            EditOperationView::RenameProject(name) => ProjectView { name, ..self },
            EditOperationView::AddCollaborator(person) => if has_collaborator(
                self.collaborators,
                person.id,
            ) {
                self
            } else {
                ProjectView { collaborators: self.collaborators.push(person), ..self }
            },
            EditOperationView::RemoveCollaborator(id) => ProjectView {
                collaborators: drop_collaborator(self.collaborators, id),
                ..self
            },
            _ => ProjectView { clips: edit_each(self.clips, op), ..self },
        }
    }
}

impl VideoClip {
    /// Carries out `op` on this clip, where `op` changes a clip in place and
    /// names this one.
    pub fn apply_edit(&mut self, op: &EditOperation)
        ensures
            final(self)@ == old(self)@.edited(op@),
    {
        match op {
            EditOperation::MoveClip { id, new_start_time, new_track } => {
                if text::equal(self.id.as_str(), id.as_str()) {
                    self.move_to(*new_start_time, *new_track);
                }
            },
            EditOperation::TrimClip { id, new_start_time, new_end_time } => {
                if text::equal(self.id.as_str(), id.as_str()) {
                    self.trim(*new_start_time, *new_end_time);
                }
            },
            EditOperation::AddEffect { clip_id, effect } => {
                if text::equal(self.id.as_str(), clip_id.as_str()) {
                    self.add_effect(effect.clone());
                }
            },
            EditOperation::RemoveEffect { clip_id, effect_id } => {
                if text::equal(self.id.as_str(), clip_id.as_str()) {
                    self.remove_effect(effect_id.as_str());
                }
            },
            EditOperation::AddTransition { clip_id, transition } => {
                if text::equal(self.id.as_str(), clip_id.as_str()) {
                    self.set_transition(transition.clone());
                }
            },
            EditOperation::RemoveTransition { clip_id } => {
                if text::equal(self.id.as_str(), clip_id.as_str()) {
                    self.clear_transition();
                }
            },
            _ => {},
        }
    }
}

fn edit_clips(clips: &mut Vec<VideoClip>, op: &EditOperation)
    ensures
        clip_views(final(clips)@) == edit_each(clip_views(old(clips)@), op@),
{
    let n = clips.len();
    let mut i: usize = 0;
    while i < n
        invariant
            i <= n,
            clips.len() == n,
            old(clips).len() == n,
            forall|j: int| 0 <= j < i ==> (#[trigger] clips@[j])@ == old(clips)@[j]@.edited(op@),
            forall|j: int| i <= j < n ==> #[trigger] clips@[j] == old(clips)@[j],
        decreases n - i,
    {
        clips[i].apply_edit(op);
        i += 1;
    }
    assert(clip_views(clips@) =~= edit_each(clip_views(old(clips)@), op@));
}

fn remove_clips(clips: &mut Vec<VideoClip>, id: &str)
    ensures
        clip_views(final(clips)@) == drop_clip(clip_views(old(clips)@), id@),
{
    let mut source: Vec<VideoClip> = Vec::new();
    core::mem::swap(&mut source, clips);
    let ghost all = clip_views(source@);
    let ghost keep = |c: ClipView| c.id != id@;
    let mut kept: Vec<VideoClip> = Vec::new();
    assert(all.take(0).filter(keep) =~= Seq::<ClipView>::empty()) by {
        reveal(Seq::filter);
    }
    for clip in it: source
        invariant
            all == clip_views(it.seq()),
            keep == |c: ClipView| c.id != id@,
            clip_views(kept@) == all.take(it.index() as int).filter(keep),
    {
        proof {
            lemma_filter_next(all, keep, it.index() as int);
        }
        let ghost before = clip_views(kept@);
        if !text::equal(clip.id.as_str(), id) {
            kept.push(clip);
            assert(clip_views(kept@) =~= before.push(clip@));
        }
    }
    assert(all.take(all.len() as int) =~= all);
    *clips = kept;
}

fn point_cursors(people: &mut Vec<Collaborator>, id: &str, position: CursorPosition)
    ensures
        collaborator_views(final(people)@) == point_each(
            collaborator_views(old(people)@),
            id@,
            position,
        ),
{
    let n = people.len();
    let mut i: usize = 0;
    while i < n
        invariant
            i <= n,
            people.len() == n,
            old(people).len() == n,
            forall|j: int|
                0 <= j < i ==> (#[trigger] people@[j])@ == if old(people)@[j]@.id == id@ {
                    old(people)@[j]@.pointing_at(position)
                } else {
                    old(people)@[j]@
                },
            forall|j: int| i <= j < n ==> #[trigger] people@[j] == old(people)@[j],
        decreases n - i,
    {
        if text::equal(people[i].id.as_str(), id) {
            people[i].cursor_position = position;
        }
        i += 1;
    }
    assert(collaborator_views(people@) =~= point_each(
        collaborator_views(old(people)@),
        id@,
        position,
    ));
}

fn remove_collaborators(people: &mut Vec<Collaborator>, id: &str)
    ensures
        collaborator_views(final(people)@) == drop_collaborator(
            collaborator_views(old(people)@),
            id@,
        ),
{
    let mut source: Vec<Collaborator> = Vec::new();
    core::mem::swap(&mut source, people);
    let ghost all = collaborator_views(source@);
    let ghost keep = |p: CollaboratorView| p.id != id@;
    let mut kept: Vec<Collaborator> = Vec::new();
    assert(all.take(0).filter(keep) =~= Seq::<CollaboratorView>::empty()) by {
        reveal(Seq::filter);
    }
    for person in it: source
        invariant
            all == collaborator_views(it.seq()),
            keep == |p: CollaboratorView| p.id != id@,
            collaborator_views(kept@) == all.take(it.index() as int).filter(keep),
    {
        proof {
            lemma_filter_next(all, keep, it.index() as int);
        }
        let ghost before = collaborator_views(kept@);
        if !text::equal(person.id.as_str(), id) {
            kept.push(person);
            assert(collaborator_views(kept@) =~= before.push(person@));
        }
    }
    assert(all.take(all.len() as int) =~= all);
    *people = kept;
}

impl VideoProject {
    /// Carries out `op` on the project.
    ///
    /// The outcome depends on the project and on `op` alone. Adding a clip or
    /// a collaborator whose id the project already holds changes nothing, and
    /// so does an edit of a clip or a collaborator that it does not hold.
    pub fn apply_operation(&mut self, op: &EditOperation)
        ensures
            final(self)@ == old(self)@.apply(op@),
            old(self)@.well_formed() ==> final(self)@.well_formed(),
    {
        proof {
            if old(self)@.well_formed() {
                lemma_apply_keeps_well_formed(old(self)@, op@);
            }
        }
        match op {
            EditOperation::AddClip(clip) => {
                if !self.has_clip(clip.id.as_str()) {
                    let ghost before = clip_views(self.clips@);
                    self.clips.push(clip.clone());
                    assert(clip_views(self.clips@) =~= before.push(clip@));
                }
            },
            EditOperation::RemoveClip(id) => {
                remove_clips(&mut self.clips, id.as_str());
            },
            EditOperation::SetProjectDuration(duration) => {
                self.duration = *duration;
            },
            EditOperation::UpdateCollaboratorCursor { collaborator_id, new_position } => {
                point_cursors(&mut self.collaborators, collaborator_id.as_str(), *new_position);
            },
            EditOperation::RenameProject(name) => {
                self.name = name.clone();
            },
            EditOperation::AddCollaborator(person) => {
                if !self.has_collaborator(person.id.as_str()) {
                    let ghost before = collaborator_views(self.collaborators@);
                    self.collaborators.push(person.clone());
                    assert(collaborator_views(self.collaborators@) =~= before.push(person@));
                }
            },
            EditOperation::RemoveCollaborator(id) => {
                remove_collaborators(&mut self.collaborators, id.as_str());
            },
            _ => {
                edit_clips(&mut self.clips, op);
            },
        }
    }
}

} // verus!
