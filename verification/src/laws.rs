//! What holds of every project and every edit.

use crate::apply::{edit_each, point_each};
use crate::clip::{effects_well_formed, one_effect_per_type, ClipView};
use crate::effect::EffectView;
use crate::invariants::lemma_apply_keeps_well_formed;
use crate::operation::{EditOperationView, OTOperationView};
use crate::project::{has_clip, has_collaborator, CollaboratorView, ProjectView};
use crate::sequences::{lemma_filter_embeds, lemma_filter_twice};
use crate::session::SessionView;
use crate::transform::{earlier, later, transform};
use vstd::prelude::*;

verus! {

/// The project after each of `ops` in turn, the first of them first.
pub open spec fn apply_all(p: ProjectView, ops: Seq<EditOperationView>) -> ProjectView
    decreases ops.len(),
{
    if ops.len() == 0 {
        p
    } else {
        apply_all(p, ops.drop_last()).apply(ops.last())
    }
}

impl EditOperationView {
    /// Whether what the edit brings is as the data model wants it: a clip
    /// or an effect to add is well formed, and a trim ends no earlier than
    /// it starts.
    pub open spec fn well_formed(self) -> bool {
        match self {
            EditOperationView::AddClip(clip) => clip.well_formed(),
            EditOperationView::AddEffect { effect, .. } => effect.well_formed(),
            EditOperationView::TrimClip { new_start_time, new_end_time, .. } => new_start_time
                <= new_end_time,
            _ => true,
        }
    }
}

/// A move keeps the length of every clip, whether it names the clip or not,
/// and leaves the clips that it does not name as they are.
pub proof fn lemma_move_keeps_length(
    p: ProjectView,
    id: Seq<char>,
    new_start_time: nat,
    new_track: nat,
    i: int,
)
    requires
        0 <= i < p.clips.len(),
    ensures
        ({
            let q = p.apply(EditOperationView::MoveClip { id, new_start_time, new_track });
            &&& q.clips.len() == p.clips.len()
            &&& q.clips[i].id == p.clips[i].id
            &&& q.clips[i].length() == p.clips[i].length()
            &&& p.clips[i].id != id ==> q.clips[i] == p.clips[i]
            &&& p.clips[i].id == id && p.clips[i].movable_to(new_start_time) ==> {
                &&& q.clips[i].start_time == new_start_time
                &&& q.clips[i].track == new_track
            }
        }),
{
}

/// Adding an effect leaves a clip with exactly one effect of that type, the
/// one added, and with at most one of each type where that held before.
pub proof fn lemma_with_effect_one_per_type(c: ClipView, effect: EffectView)
    ensures
        ({
            let after = c.with_effect(effect).effects;
            &&& after.len() > 0
            &&& after.last() == effect
            &&& forall|k: int|
                0 <= k < after.len() - 1 ==> (#[trigger] after[k]).effect_type
                    != effect.effect_type
            &&& one_effect_per_type(c.effects) ==> one_effect_per_type(after)
            &&& effects_well_formed(c.effects) && effect.well_formed() ==> effects_well_formed(
                after,
            )
        }),
{
    let keep = |e: EffectView| e.effect_type != effect.effect_type;
    let others = c.effects.filter(keep);
    let after = c.with_effect(effect).effects;
    let at = lemma_filter_embeds(c.effects, keep);
    if effects_well_formed(c.effects) && effect.well_formed() {
        assert forall|i: int| 0 <= i < after.len() implies (#[trigger] after[i]).well_formed() by {
            if i < others.len() {
                assert(after[i] == c.effects[at[i]]);
            }
        }
    }
    assert forall|k: int| 0 <= k < after.len() - 1 implies (#[trigger] after[k]).effect_type
        != effect.effect_type by {
        c.effects.lemma_filter_pred(keep, k);
    }
    if one_effect_per_type(c.effects) {
        assert forall|i: int, j: int| 0 <= i < j < after.len() implies (
        #[trigger] after[i]).effect_type != (#[trigger] after[j]).effect_type by {
            if j < others.len() {
                assert(at[i] < at[j]);
                assert(c.effects[at[i]].effect_type != c.effects[at[j]].effect_type);
            } else {
                assert(after[i].effect_type != effect.effect_type);
            }
        }
    }
}

/// Removing effects leaves at most one of each type where that held
/// before, and leaves the effects well formed where they were.
pub proof fn lemma_without_effect_one_per_type(c: ClipView, effect_id: Seq<char>)
    requires
        one_effect_per_type(c.effects),
    ensures
        one_effect_per_type(c.without_effect(effect_id).effects),
        effects_well_formed(c.effects) ==> effects_well_formed(
            c.without_effect(effect_id).effects,
        ),
{
    let keep = |e: EffectView| e.id != effect_id;
    let after = c.without_effect(effect_id).effects;
    let at = lemma_filter_embeds(c.effects, keep);
    if effects_well_formed(c.effects) {
        assert forall|i: int| 0 <= i < after.len() implies (#[trigger] after[i]).well_formed() by {
            assert(after[i] == c.effects[at[i]]);
        }
    }
    assert forall|i: int, j: int| 0 <= i < j < after.len() implies (#[trigger] after[i]).effect_type
        != (#[trigger] after[j]).effect_type by {
        assert(at[i] < at[j]);
        assert(c.effects[at[i]].effect_type != c.effects[at[j]].effect_type);
    }
}

/// An edit in place keeps a well-formed clip well formed, where what the
/// edit brings is well formed.
pub proof fn lemma_edited_keeps_clip_well_formed(c: ClipView, op: EditOperationView)
    requires
        c.well_formed(),
        op.well_formed(),
    ensures
        c.edited(op).well_formed(),
{
    match op {
        EditOperationView::AddEffect { clip_id, effect } => {
            lemma_with_effect_one_per_type(c, effect);
        },
        EditOperationView::RemoveEffect { clip_id, effect_id } => {
            lemma_without_effect_one_per_type(c, effect_id);
        },
        _ => {},
    }
}

/// Every edit that brings well-formed things keeps a sound project sound:
/// ids stay unique, every clip ends no earlier than it starts, no clip has
/// two effects of one type, and the parameters of every effect stay a
/// mapping in the order of the names.
pub proof fn lemma_apply_keeps_sound(p: ProjectView, op: EditOperationView)
    requires
        p.sound(),
        op.well_formed(),
    ensures
        p.apply(op).sound(),
{
    lemma_apply_keeps_well_formed(p, op);
    let q = p.apply(op);
    match op {
        EditOperationView::AddClip(clip) => {},
        EditOperationView::RemoveClip(id) => {
            let keep = |c: ClipView| c.id != id;
            let at = lemma_filter_embeds(p.clips, keep);
            assert forall|i: int| 0 <= i < q.clips.len() implies (
            #[trigger] q.clips[i]).well_formed() by {
                assert(q.clips[i] == p.clips[at[i]]);
            }
        },
        EditOperationView::SetProjectDuration(_) => {},
        EditOperationView::UpdateCollaboratorCursor { .. } => {},
        EditOperationView::RenameProject(_) => {},
        EditOperationView::AddCollaborator(_) => {},
        EditOperationView::RemoveCollaborator(_) => {},
        _ => {
            assert forall|i: int| 0 <= i < q.clips.len() implies (
            #[trigger] q.clips[i]).well_formed() by {
                lemma_edited_keeps_clip_well_formed(p.clips[i], op);
            }
        },
    }
}

/// After any run of edits that bring well-formed things, a sound project is
/// sound. A run that only adds effects is such a run: whatever effects are
/// added to a clip, it never has two of one type.
pub proof fn lemma_apply_all_keeps_sound(p: ProjectView, ops: Seq<EditOperationView>)
    requires
        p.sound(),
        forall|k: int| 0 <= k < ops.len() ==> (#[trigger] ops[k]).well_formed(),
    ensures
        apply_all(p, ops).sound(),
    decreases ops.len(),
{
    if ops.len() > 0 {
        lemma_apply_all_keeps_sound(p, ops.drop_last());
        lemma_apply_keeps_sound(apply_all(p, ops.drop_last()), ops.last());
    }
}

/// An edit in place, done twice, gives what it gives done once.
pub proof fn lemma_edited_twice(c: ClipView, op: EditOperationView)
    ensures
        c.edited(op).edited(op) == c.edited(op),
{
    match op {
        EditOperationView::AddEffect { clip_id, effect } => {
            if c.id == clip_id {
                let keep = |e: EffectView| e.effect_type != effect.effect_type;
                let others = c.effects.filter(keep);
                lemma_filter_twice(c.effects, keep);
                assert(others.push(effect).filter(keep) == others.filter(keep)) by {
                    reveal(Seq::filter);
                    assert(others.push(effect).drop_last() =~= others);
                }
            }
        },
        EditOperationView::RemoveEffect { clip_id, effect_id } => {
            if c.id == clip_id {
                lemma_filter_twice(c.effects, |e: EffectView| e.id != effect_id);
            }
        },
        _ => {},
    }
}

/// Every edit, done twice, gives what it gives done once. So a replica that
/// has carried out its own edit loses nothing when the edit comes back from
/// the session.
pub proof fn lemma_apply_twice(p: ProjectView, op: EditOperationView)
    ensures
        p.apply(op).apply(op) == p.apply(op),
{
    let q = p.apply(op);
    match op {
        EditOperationView::AddClip(clip) => {
            if !has_clip(p.clips, clip.id) {
                assert(q.clips[p.clips.len() as int].id == clip.id);
            }
        },
        EditOperationView::RemoveClip(id) => {
            lemma_filter_twice(p.clips, |c: ClipView| c.id != id);
        },
        EditOperationView::SetProjectDuration(_) => {},
        EditOperationView::UpdateCollaboratorCursor { collaborator_id, new_position } => {
            assert(point_each(q.collaborators, collaborator_id, new_position) =~= q.collaborators);
        },
        EditOperationView::RenameProject(_) => {},
        EditOperationView::AddCollaborator(person) => {
            if !has_collaborator(p.collaborators, person.id) {
                assert(q.collaborators[p.collaborators.len() as int].id == person.id);
            }
        },
        EditOperationView::RemoveCollaborator(id) => {
            lemma_filter_twice(p.collaborators, |c: CollaboratorView| c.id != id);
        },
        _ => {
            assert forall|i: int| 0 <= i < q.clips.len() implies edit_each(q.clips, op)[i]
                == q.clips[i] by {
                lemma_edited_twice(p.clips[i], op);
            }
            assert(edit_each(q.clips, op) =~= q.clips);
        },
    }
}

/// Adding the same clip twice gives what adding it once gives: the project
/// then holds a clip under that id, and where its ids were unique, exactly
/// one. Where the id was new, that one is the clip added, put last.
pub proof fn lemma_add_clip_twice(p: ProjectView, clip: ClipView)
    ensures
        ({
            let once = p.apply(EditOperationView::AddClip(clip));
            &&& once.apply(EditOperationView::AddClip(clip)) == once
            &&& has_clip(once.clips, clip.id)
            &&& p.well_formed() ==> once.well_formed()
            &&& !has_clip(p.clips, clip.id) ==> once.clips == p.clips.push(clip)
            &&& has_clip(p.clips, clip.id) ==> once == p
        }),
{
    let op = EditOperationView::AddClip(clip);
    lemma_apply_twice(p, op);
    let once = p.apply(op);
    if !has_clip(p.clips, clip.id) {
        assert(once.clips[p.clips.len() as int].id == clip.id);
    }
    if p.well_formed() {
        lemma_apply_keeps_well_formed(p, op);
    }
}

/// Two trims of the same clip that were made at the same time end in the
/// span that the two have in common: once the session has committed the
/// first, and the second as transformed against it, every clip under that id
/// starts at the later of the two starts and ends at the earlier of the two
/// ends. Other clips stay as they are.
pub proof fn lemma_trims_meet(
    p: ProjectView,
    first: OTOperationView,
    second: OTOperationView,
    version: u64,
    i: int,
)
    requires
        first.operation is TrimClip,
        second.operation is TrimClip,
        first.operation->TrimClip_id == second.operation->TrimClip_id,
        0 <= i < p.clips.len(),
    ensures
        ({
            let id = first.operation->TrimClip_id;
            let q = p.apply(first.operation).apply(transform(first, second, version).operation);
            &&& q.clips.len() == p.clips.len()
            &&& p.clips[i].id == id ==> q.clips[i] == p.clips[i].trimmed(
                later(
                    first.operation->TrimClip_new_start_time,
                    second.operation->TrimClip_new_start_time,
                ),
                earlier(
                    first.operation->TrimClip_new_end_time,
                    second.operation->TrimClip_new_end_time,
                ),
            )
            &&& p.clips[i].id != id ==> q.clips[i] == p.clips[i]
        }),
{
}

/// The versions of the committed edits go up: of two edits that a session
/// has committed, the later one carries the higher version. Each client is
/// sent the committed edits in this order.
pub proof fn lemma_versions_increase(s: SessionView, i: int, j: int)
    requires
        s.well_formed(),
        0 <= i < j < s.history.len(),
    ensures
        s.history[i].server_version < s.history[j].server_version,
{
}

/// Each commit raises the version by exactly one, and the edit committed
/// carries the new version.
pub proof fn lemma_commit_raises_version(s: SessionView, op: OTOperationView, now: u64)
    requires
        s.well_formed(),
        s.history.len() < u64::MAX,
    ensures
        s.submitted(op, now).server_version() == s.server_version() + 1,
        s.submitted(op, now).history.last().server_version == s.server_version() + 1,
        s.submitted(op, now).well_formed(),
{
    let r = s.rebased(op);
    lemma_apply_keeps_well_formed(s.project, r.operation);
}

} // verus!
