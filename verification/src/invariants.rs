//! What every edit keeps true of a project.

use crate::apply::{drop_clip, drop_collaborator, edit_each};
use crate::clip::ClipView;
use crate::operation::EditOperationView;
use crate::project::{
    distinct_clip_ids, distinct_collaborator_ids, has_clip, has_collaborator, CollaboratorView,
    ProjectView,
};
use crate::sequences::lemma_filter_embeds;
use vstd::prelude::*;

verus! {

/// An edit in place keeps the id of every clip.
pub proof fn lemma_edited_keeps_id(c: ClipView, op: EditOperationView)
    ensures
        c.edited(op).id == c.id,
{
}

/// Removing clips leaves the ids of the others distinct.
pub proof fn lemma_drop_clip_distinct(clips: Seq<ClipView>, id: Seq<char>)
    requires
        distinct_clip_ids(clips),
    ensures
        distinct_clip_ids(drop_clip(clips, id)),
        !has_clip(drop_clip(clips, id), id),
{
    let keep = |c: ClipView| c.id != id;
    let at = lemma_filter_embeds(clips, keep);
    let rest = drop_clip(clips, id);
    assert forall|i: int, j: int| 0 <= i < j < rest.len() implies (#[trigger] rest[i]).id != (
    #[trigger] rest[j]).id by {
        assert(at[i] < at[j]);
        assert(clips[at[i]].id != clips[at[j]].id);
    }
    assert forall|i: int| 0 <= i < rest.len() implies (#[trigger] rest[i]).id != id by {
        clips.lemma_filter_pred(keep, i);
    }
}

/// Removing collaborators leaves the ids of the others distinct.
pub proof fn lemma_drop_collaborator_distinct(people: Seq<CollaboratorView>, id: Seq<char>)
    requires
        distinct_collaborator_ids(people),
    ensures
        distinct_collaborator_ids(drop_collaborator(people, id)),
        !has_collaborator(drop_collaborator(people, id), id),
{
    let keep = |p: CollaboratorView| p.id != id;
    let at = lemma_filter_embeds(people, keep);
    let rest = drop_collaborator(people, id);
    assert forall|i: int, j: int| 0 <= i < j < rest.len() implies (#[trigger] rest[i]).id != (
    #[trigger] rest[j]).id by {
        assert(at[i] < at[j]);
        assert(people[at[i]].id != people[at[j]].id);
    }
    assert forall|i: int| 0 <= i < rest.len() implies (#[trigger] rest[i]).id != id by {
        people.lemma_filter_pred(keep, i);
    }
}

/// Every edit keeps ids unique: a well-formed project stays well formed.
pub proof fn lemma_apply_keeps_well_formed(p: ProjectView, op: EditOperationView)
    requires
        p.well_formed(),
    ensures
        p.apply(op).well_formed(),
{
    let q = p.apply(op);
    match op {
        EditOperationView::AddClip(clip) => {
            if !has_clip(p.clips, clip.id) {
                assert forall|i: int, j: int| 0 <= i < j < q.clips.len() implies (
                #[trigger] q.clips[i]).id != (#[trigger] q.clips[j]).id by {
                    if j == p.clips.len() {
                        assert(p.clips[i].id != clip.id);
                    }
                }
            }
        },
        EditOperationView::RemoveClip(id) => {
            lemma_drop_clip_distinct(p.clips, id);
        },
        EditOperationView::SetProjectDuration(_) => {},
        EditOperationView::UpdateCollaboratorCursor { collaborator_id, new_position } => {
            assert forall|i: int, j: int| 0 <= i < j < q.collaborators.len() implies (
            #[trigger] q.collaborators[i]).id != (#[trigger] q.collaborators[j]).id by {
                assert(q.collaborators[i].id == p.collaborators[i].id);
                assert(q.collaborators[j].id == p.collaborators[j].id);
            }
        },
        EditOperationView::RenameProject(_) => {},
        EditOperationView::AddCollaborator(person) => {
            if !has_collaborator(p.collaborators, person.id) {
                assert forall|i: int, j: int| 0 <= i < j < q.collaborators.len() implies (
                #[trigger] q.collaborators[i]).id != (#[trigger] q.collaborators[j]).id by {
                    if j == p.collaborators.len() {
                        assert(p.collaborators[i].id != person.id);
                    }
                }
            }
        },
        EditOperationView::RemoveCollaborator(id) => {
            lemma_drop_collaborator_distinct(p.collaborators, id);
        },
        _ => {
            assert(q.clips == edit_each(p.clips, op));
            assert forall|i: int, j: int| 0 <= i < j < q.clips.len() implies (
            #[trigger] q.clips[i]).id != (#[trigger] q.clips[j]).id by {
                lemma_edited_keeps_id(p.clips[i], op);
                lemma_edited_keeps_id(p.clips[j], op);
            }
        },
    }
}

} // verus!
