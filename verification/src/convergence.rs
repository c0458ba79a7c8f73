//! Replicas end up alike.
//!
//! Two clients make an edit each on the same project at the same time. The
//! session commits one of them first and the other as transformed against
//! it, and sends both to every client. This module follows each copy through
//! that exchange.

use crate::apply::{drop_clip, drop_collaborator, edit_each, point_each};
use crate::client::ClientView;
use crate::clip::{drop_effect, put_effect, ClipView};
use crate::effect::EffectView;
use crate::invariants::lemma_edited_keeps_id;
use crate::laws::{lemma_apply_twice, lemma_edited_twice};
use crate::message::ServerMessageView;
use crate::operation::{EditOperationView, OTOperationView};
use crate::project::{has_clip, has_collaborator, CollaboratorView, CursorPosition, ProjectView};
use crate::sequences::{
    lemma_filter_alike, lemma_filter_embeds, lemma_filter_map, lemma_filter_push,
    lemma_filter_swap, lemma_filter_twice,
};
use crate::session::{rebase, SessionView};
use crate::transform::{reconciled, transform};
use vstd::prelude::*;

verus! {

/// The session's project after it has committed `first` and then `second`,
/// which was made without sight of `first`.
pub open spec fn server_after(
    p: ProjectView,
    first: OTOperationView,
    second: OTOperationView,
    version: u64,
) -> ProjectView {
    p.apply(first.operation).apply(transform(first, second, version).operation)
}

/// The copy of a client that made neither edit, after it has been sent
/// both.
pub open spec fn watcher_after(
    p: ProjectView,
    first: OTOperationView,
    second: OTOperationView,
    version: u64,
) -> ProjectView {
    p.apply(first.operation).apply(transform(first, second, version).operation)
}

/// The copy of the client that made `first`: it carried out its edit at
/// once, and was then sent both committed edits, its own among them.
pub open spec fn first_sender_after(
    p: ProjectView,
    first: OTOperationView,
    second: OTOperationView,
    version: u64,
) -> ProjectView {
    p.apply(first.operation).apply(first.operation).apply(
        transform(first, second, version).operation,
    )
}

/// The copy of the client that made `second`: it carried out its edit at
/// once, and was then sent both committed edits: `first`, and its own as
/// transformed.
pub open spec fn second_sender_after(
    p: ProjectView,
    first: OTOperationView,
    second: OTOperationView,
    version: u64,
) -> ProjectView {
    p.apply(second.operation).apply(first.operation).apply(
        transform(first, second, version).operation,
    )
}

/// The client whose edit the session commits first, and every client that
/// made no edit, end with the session's project, whatever the two edits.
pub proof fn lemma_first_sender_converges(
    p: ProjectView,
    first: OTOperationView,
    second: OTOperationView,
    version: u64,
)
    ensures
        first_sender_after(p, first, second, version) == server_after(p, first, second, version),
        watcher_after(p, first, second, version) == server_after(p, first, second, version),
{
    lemma_apply_twice(p, first.operation);
}

/// Where the second edit renames the project or sets its length, the client
/// that made it ends with the session's project.
pub proof fn lemma_second_sender_converges_on_settings(
    p: ProjectView,
    first: OTOperationView,
    second: OTOperationView,
    version: u64,
)
    requires
        second.operation is RenameProject || second.operation is SetProjectDuration,
    ensures
        second_sender_after(p, first, second, version) == server_after(p, first, second, version),
{
}

/// Which collaborators are left under an id once those under `id` are
/// removed.
pub proof fn lemma_has_collaborator_after_drop(
    people: Seq<CollaboratorView>,
    id: Seq<char>,
    other: Seq<char>,
)
    ensures
        has_collaborator(drop_collaborator(people, id), other) == (other != id
            && has_collaborator(people, other)),
{
    let keep = |k: CollaboratorView| k.id != id;
    let rest = drop_collaborator(people, id);
    let at = lemma_filter_embeds(people, keep);
    if has_collaborator(rest, other) {
        let i = choose|i: int| 0 <= i < rest.len() && (#[trigger] rest[i]).id == other;
        people.lemma_filter_pred(keep, i);
        assert(people[at[i]].id == other);
    }
    if other != id && has_collaborator(people, other) {
        let i = choose|i: int| 0 <= i < people.len() && (#[trigger] people[i]).id == other;
        people.lemma_filter_contains(keep, i);
        let j = choose|j: int| 0 <= j < rest.len() && rest[j] == people[i];
        assert(rest[j].id == other);
    }
}

/// Pointing cursors changes no id, so it changes neither who is there nor
/// who is removed with an id.
pub proof fn lemma_point_each_keeps_ids(
    people: Seq<CollaboratorView>,
    id: Seq<char>,
    position: CursorPosition,
    other: Seq<char>,
)
    ensures
        has_collaborator(point_each(people, id, position), other) == has_collaborator(
            people,
            other,
        ),
        drop_collaborator(point_each(people, id, position), other) == point_each(
            drop_collaborator(people, other),
            id,
            position,
        ),
{
    let after = point_each(people, id, position);
    if has_collaborator(after, other) {
        let i = choose|i: int| 0 <= i < after.len() && (#[trigger] after[i]).id == other;
        assert(people[i].id == other);
    }
    if has_collaborator(people, other) {
        let i = choose|i: int| 0 <= i < people.len() && (#[trigger] people[i]).id == other;
        assert(after[i].id == other);
    }
    let f = |k: CollaboratorView|
        if k.id == id {
            k.pointing_at(position)
        } else {
            k
        };
    lemma_filter_map(people, f, |k: CollaboratorView| k.id != other);
}

/// Where the second edit points a collaborator's cursor or removes a
/// collaborator, the client that made it ends with the session's project.
pub proof fn lemma_second_sender_converges_on_collaborators(
    p: ProjectView,
    first: OTOperationView,
    second: OTOperationView,
    version: u64,
)
    requires
        second.operation is UpdateCollaboratorCursor || second.operation is RemoveCollaborator,
    ensures
        second_sender_after(p, first, second, version) == server_after(p, first, second, version),
{
    let a = first.operation;
    let b = second.operation;
    let people = p.collaborators;
    let mine = p.apply(b).apply(a).apply(b).collaborators;
    let theirs = p.apply(a).apply(b).collaborators;
    match b {
        EditOperationView::RemoveCollaborator(id) => {
            let keep = |k: CollaboratorView| k.id != id;
            let rest = drop_collaborator(people, id);
            lemma_filter_twice(people, keep);
            match a {
                EditOperationView::UpdateCollaboratorCursor { collaborator_id, new_position } => {
                    lemma_point_each_keeps_ids(people, collaborator_id, new_position, id);
                    lemma_filter_twice(point_each(people, collaborator_id, new_position), keep);
                },
                EditOperationView::AddCollaborator(person) => {
                    lemma_has_collaborator_after_drop(people, id, person.id);
                    lemma_filter_push(rest, person, keep);
                    lemma_filter_push(people, person, keep);
                },
                EditOperationView::RemoveCollaborator(other) => {
                    let keep_other = |k: CollaboratorView| k.id != other;
                    lemma_filter_swap(people, keep, keep_other);
                    lemma_filter_twice(people.filter(keep_other), keep);
                },
                _ => {},
            }
            assert(mine == theirs);
        },
        EditOperationView::UpdateCollaboratorCursor { collaborator_id, new_position } => {
            let pointed = point_each(people, collaborator_id, new_position);
            match a {
                EditOperationView::UpdateCollaboratorCursor { .. } => {
                    assert(mine =~= theirs);
                },
                EditOperationView::AddCollaborator(person) => {
                    lemma_point_each_keeps_ids(people, collaborator_id, new_position, person.id);
                    assert(mine =~= theirs);
                },
                EditOperationView::RemoveCollaborator(other) => {
                    lemma_point_each_keeps_ids(people, collaborator_id, new_position, other);
                    assert(point_each(pointed, collaborator_id, new_position) =~= pointed);
                },
                _ => {
                    assert(point_each(pointed, collaborator_id, new_position) =~= pointed);
                },
            }
            assert(mine == theirs);
        },
        _ => {},
    }
}

/// Half of the longest span that can be represented, in nanoseconds.
pub open spec fn half_range() -> nat {
    (u128::MAX / 2) as nat
}

impl ClipView {
    /// Whether the clip ends no earlier than it starts and is no longer
    /// than half of the representable range, so that it can be moved to any
    /// start in the lower half of the range.
    pub open spec fn roomy(self) -> bool {
        &&& self.span_ordered()
        &&& self.length() <= half_range()
    }
}

impl EditOperationView {
    /// Whether the times that the edit brings leave room: a move goes to
    /// the lower half of the representable range, and a trim ends no earlier
    /// than it starts and leaves no more than half of the range.
    pub open spec fn roomy(self) -> bool {
        match self {
            EditOperationView::MoveClip { new_start_time, .. } => new_start_time <= half_range(),
            EditOperationView::TrimClip { new_start_time, new_end_time, .. } => {
                &&& new_start_time <= new_end_time
                &&& new_end_time - new_start_time <= half_range()
            },
            _ => true,
        }
    }
}

/// The clip whose times the edit sets, if it is a move or a trim.
pub open spec fn retimed_clip(op: EditOperationView) -> Option<Seq<char>> {
    match op {
        EditOperationView::MoveClip { id, .. } => Some(id),
        EditOperationView::TrimClip { id, .. } => Some(id),
        _ => None,
    }
}

/// Whether the two edits set the times of the same clip and one of them is
/// a move. A move keeps the length of a clip, so what it does depends on the
/// times that it finds.
pub open spec fn contend_for_times(first: EditOperationView, second: EditOperationView) -> bool {
    &&& retimed_clip(first) is Some
    &&& retimed_clip(first) == retimed_clip(second)
    &&& (first is MoveClip || second is MoveClip)
}

/// Whether there is room for the two edits on this clip: they do not
/// contend for its times, or the clip and the times they bring are roomy.
pub open spec fn room_on(c: ClipView, first: EditOperationView, second: EditOperationView) -> bool {
    contend_for_times(first, second) && retimed_clip(first) == Some(c.id) ==> c.roomy()
        && first.roomy() && second.roomy()
}

impl ProjectView {
    /// Whether there is room for the two edits on every clip.
    pub open spec fn has_room_for(self, first: EditOperationView, second: EditOperationView) -> bool {
        forall|i: int|
            0 <= i < self.clips.len() ==> room_on(#[trigger] self.clips[i], first, second)
    }
}

/// Putting an effect, putting another, and putting the first again gives
/// what putting the other and then the first gives.
pub proof fn lemma_put_put_put(effects: Seq<EffectView>, mine: EffectView, other: EffectView)
    ensures
        put_effect(put_effect(put_effect(effects, mine), other), mine) == put_effect(
            put_effect(effects, other),
            mine,
        ),
{
    let f = |e: EffectView| e.effect_type != mine.effect_type;
    let g = |e: EffectView| e.effect_type != other.effect_type;
    let fe = effects.filter(f);
    let ge = effects.filter(g);
    lemma_filter_push(fe, mine, g);
    lemma_filter_push(fe.filter(g), mine, f);
    lemma_filter_push(fe.filter(g), other, f);
    lemma_filter_push(fe.filter(g).push(mine), other, f);
    lemma_filter_push(ge, other, f);
    lemma_filter_swap(fe, g, f);
    lemma_filter_swap(effects, g, f);
    lemma_filter_twice(effects, f);
    if mine.effect_type == other.effect_type {
        lemma_filter_alike(fe, f, g);
        lemma_filter_alike(effects, f, g);
    }
}

/// Putting an effect, dropping effects by id, and putting the effect again
/// gives what dropping and then putting gives.
pub proof fn lemma_put_drop_put(effects: Seq<EffectView>, mine: EffectView, id: Seq<char>)
    ensures
        put_effect(drop_effect(put_effect(effects, mine), id), mine) == put_effect(
            drop_effect(effects, id),
            mine,
        ),
{
    let f = |e: EffectView| e.effect_type != mine.effect_type;
    let h = |e: EffectView| e.id != id;
    let fe = effects.filter(f);
    lemma_filter_push(fe, mine, h);
    lemma_filter_push(fe.filter(h), mine, f);
    lemma_filter_swap(fe, h, f);
    lemma_filter_swap(effects, h, f);
    lemma_filter_twice(effects, f);
}

/// Dropping effects by id, putting an effect, and dropping again gives what
/// putting and then dropping gives.
pub proof fn lemma_drop_put_drop(effects: Seq<EffectView>, id: Seq<char>, other: EffectView)
    ensures
        drop_effect(put_effect(drop_effect(effects, id), other), id) == drop_effect(
            put_effect(effects, other),
            id,
        ),
{
    let h = |e: EffectView| e.id != id;
    let g = |e: EffectView| e.effect_type != other.effect_type;
    let he = effects.filter(h);
    lemma_filter_push(he.filter(g), other, h);
    lemma_filter_push(effects.filter(g), other, h);
    lemma_filter_swap(he, g, h);
    lemma_filter_swap(effects, g, h);
    lemma_filter_twice(effects, h);
}

/// Dropping effects by one id, by another, and by the first again gives
/// what dropping by the other and then by the first gives.
pub proof fn lemma_drop_drop_drop(effects: Seq<EffectView>, id: Seq<char>, other: Seq<char>)
    ensures
        drop_effect(drop_effect(drop_effect(effects, id), other), id) == drop_effect(
            drop_effect(effects, other),
            id,
        ),
{
    let h = |e: EffectView| e.id != id;
    let k = |e: EffectView| e.id != other;
    lemma_filter_swap(effects.filter(h), k, h);
    lemma_filter_twice(effects, h);
    lemma_filter_swap(effects, k, h);
}

/// Whether what the second sender's early edit did to the clip is made up
/// for: the clip after the early edit, the first edit and the second as
/// committed is the clip after the first edit and the second as committed.
pub open spec fn absorbed(c: ClipView, first: OTOperationView, second: OTOperationView) -> bool {
    c.edited(second.operation).edited(first.operation).edited(reconciled(first, second))
        == c.edited(first.operation).edited(reconciled(first, second))
}

impl ProjectView {
    /// Whether the second sender's early edit is made up for on every clip.
    pub open spec fn absorbs(self, first: OTOperationView, second: OTOperationView) -> bool {
        forall|i: int| 0 <= i < self.clips.len() ==> absorbed(#[trigger] self.clips[i], first, second)
    }
}

/// Where there is room for the two edits on a clip, the second sender's
/// early edit is made up for on it. That is so for every pair of edits that
/// do not contend for the times of the clip.
pub proof fn lemma_edit_absorbed(c: ClipView, first: OTOperationView, second: OTOperationView)
    requires
        room_on(c, first.operation, second.operation),
    ensures
        absorbed(c, first, second),
{
    let a = first.operation;
    let b = second.operation;
    lemma_edited_twice(c, b);
    match b {
        EditOperationView::AddEffect { clip_id, effect } => {
            match a {
                EditOperationView::AddEffect { clip_id: other_clip, effect: other } => {
                    lemma_put_put_put(c.effects, effect, other);
                },
                EditOperationView::RemoveEffect { clip_id: other_clip, effect_id } => {
                    lemma_put_drop_put(c.effects, effect, effect_id);
                },
                _ => {},
            }
        },
        EditOperationView::RemoveEffect { clip_id, effect_id } => {
            match a {
                EditOperationView::AddEffect { clip_id: other_clip, effect: other } => {
                    lemma_drop_put_drop(c.effects, effect_id, other);
                },
                EditOperationView::RemoveEffect { clip_id: other_clip, effect_id: other } => {
                    lemma_drop_drop_drop(c.effects, effect_id, other);
                },
                _ => {},
            }
        },
        _ => {},
    }
}

/// Which clips are left under an id once those under `id` are removed.
pub proof fn lemma_has_clip_after_drop(clips: Seq<ClipView>, id: Seq<char>, other: Seq<char>)
    ensures
        has_clip(drop_clip(clips, id), other) == (other != id && has_clip(clips, other)),
{
    let keep = |c: ClipView| c.id != id;
    let rest = drop_clip(clips, id);
    let at = lemma_filter_embeds(clips, keep);
    if has_clip(rest, other) {
        let i = choose|i: int| 0 <= i < rest.len() && (#[trigger] rest[i]).id == other;
        clips.lemma_filter_pred(keep, i);
        assert(clips[at[i]].id == other);
    }
    if other != id && has_clip(clips, other) {
        let i = choose|i: int| 0 <= i < clips.len() && (#[trigger] clips[i]).id == other;
        clips.lemma_filter_contains(keep, i);
        let j = choose|j: int| 0 <= j < rest.len() && rest[j] == clips[i];
        assert(rest[j].id == other);
    }
}

/// An edit in place changes no id, so it changes neither which clips are
/// there nor which are removed with an id.
pub proof fn lemma_edit_each_keeps_ids(clips: Seq<ClipView>, op: EditOperationView, other: Seq<char>)
    ensures
        has_clip(edit_each(clips, op), other) == has_clip(clips, other),
        drop_clip(edit_each(clips, op), other) == edit_each(drop_clip(clips, other), op),
{
    let after = edit_each(clips, op);
    if has_clip(after, other) {
        let i = choose|i: int| 0 <= i < after.len() && (#[trigger] after[i]).id == other;
        assert(clips[i].id == other);
    }
    if has_clip(clips, other) {
        let i = choose|i: int| 0 <= i < clips.len() && (#[trigger] clips[i]).id == other;
        assert(after[i].id == other);
    }
    let f = |c: ClipView| c.edited(op);
    let keep = |c: ClipView| c.id != other;
    assert forall|x: ClipView| keep(#[trigger] f(x)) == keep(x) by {
        lemma_edited_keeps_id(x, op);
    }
    lemma_filter_map(clips, f, keep);
}

/// Editing every clip in place twice gives what editing once gives.
pub proof fn lemma_edit_each_twice(clips: Seq<ClipView>, op: EditOperationView)
    ensures
        edit_each(edit_each(clips, op), op) == edit_each(clips, op),
{
    assert forall|i: int| 0 <= i < clips.len() implies (#[trigger] clips[i]).edited(op).edited(op)
        == clips[i].edited(op) by {
        lemma_edited_twice(clips[i], op);
    }
    assert(edit_each(edit_each(clips, op), op) =~= edit_each(clips, op));
}

/// Where there is room for the two edits on every clip, the second
/// sender's early edit is made up for on every clip.
pub proof fn lemma_room_is_enough(p: ProjectView, first: OTOperationView, second: OTOperationView)
    requires
        p.has_room_for(first.operation, second.operation),
    ensures
        p.absorbs(first, second),
{
    assert forall|i: int| 0 <= i < p.clips.len() implies absorbed(
        #[trigger] p.clips[i],
        first,
        second,
    ) by {
        lemma_edit_absorbed(p.clips[i], first, second);
    }
}

/// Where the second edit removes a clip or changes one in place, the client
/// that made it ends with the session's project if and only if its early
/// edit is made up for on every clip. A removal always is.
pub proof fn lemma_second_sender_converges_on_clips(
    p: ProjectView,
    first: OTOperationView,
    second: OTOperationView,
    version: u64,
)
    requires
        second.operation is RemoveClip || second.operation.edits_clip(),
    ensures
        p.absorbs(first, second) <==> second_sender_after(p, first, second, version)
            == server_after(p, first, second, version),
{
    if !(first.operation.edits_clip() && second.operation.edits_clip()) {
        assert(p.has_room_for(first.operation, second.operation));
        lemma_room_is_enough(p, first, second);
    }
    let a = first.operation;
    let b = second.operation;
    let committed = transform(first, second, version).operation;
    let clips = p.clips;
    let mine = p.apply(b).apply(a).apply(committed).clips;
    let theirs = p.apply(a).apply(committed).clips;
    match b {
        EditOperationView::RemoveClip(id) => {
            let keep = |c: ClipView| c.id != id;
            let rest = drop_clip(clips, id);
            lemma_filter_twice(clips, keep);
            match a {
                EditOperationView::AddClip(clip) => {
                    lemma_has_clip_after_drop(clips, id, clip.id);
                    lemma_filter_push(rest, clip, keep);
                    lemma_filter_push(clips, clip, keep);
                },
                EditOperationView::RemoveClip(other) => {
                    let keep_other = |c: ClipView| c.id != other;
                    lemma_filter_swap(clips, keep, keep_other);
                    lemma_filter_twice(clips.filter(keep_other), keep);
                },
                EditOperationView::SetProjectDuration(_) => {},
                EditOperationView::UpdateCollaboratorCursor { .. } => {},
                EditOperationView::RenameProject(_) => {},
                EditOperationView::AddCollaborator(_) => {},
                EditOperationView::RemoveCollaborator(_) => {},
                _ => {
                    lemma_edit_each_keeps_ids(clips, a, id);
                    lemma_filter_twice(edit_each(clips, a), keep);
                },
            }
            assert(mine == theirs);
        },
        EditOperationView::AddClip(_) => {},
        EditOperationView::SetProjectDuration(_) => {},
        EditOperationView::UpdateCollaboratorCursor { .. } => {},
        EditOperationView::RenameProject(_) => {},
        EditOperationView::AddCollaborator(_) => {},
        EditOperationView::RemoveCollaborator(_) => {},
        _ => {
            lemma_edit_each_twice(clips, b);
            match a {
                EditOperationView::AddClip(clip) => {
                    lemma_edit_each_keeps_ids(clips, b, clip.id);
                    lemma_edited_twice(clip, b);
                    assert(mine =~= theirs);
                },
                EditOperationView::RemoveClip(other) => {
                    lemma_edit_each_keeps_ids(clips, b, other);
                    lemma_edit_each_twice(drop_clip(clips, other), b);
                    assert(mine == theirs);
                },
                EditOperationView::SetProjectDuration(_) => {
                    assert(mine == theirs);
                },
                EditOperationView::UpdateCollaboratorCursor { .. } => {
                    assert(mine == theirs);
                },
                EditOperationView::RenameProject(_) => {
                    assert(mine == theirs);
                },
                EditOperationView::AddCollaborator(_) => {
                    assert(mine == theirs);
                },
                EditOperationView::RemoveCollaborator(_) => {
                    assert(mine == theirs);
                },
                _ => {
                    if p.absorbs(first, second) {
                        assert forall|i: int| 0 <= i < clips.len() implies (
                        #[trigger] clips[i]).edited(b).edited(a).edited(committed)
                            == clips[i].edited(a).edited(committed) by {
                            assert(absorbed(clips[i], first, second));
                        }
                        assert(mine =~= theirs);
                    }
                    if mine == theirs {
                        assert forall|i: int| 0 <= i < clips.len() implies absorbed(
                            #[trigger] clips[i],
                            first,
                            second,
                        ) by {
                            assert(mine[i] == clips[i].edited(b).edited(a).edited(committed));
                            assert(theirs[i] == clips[i].edited(a).edited(committed));
                        }
                    }
                },
            }
        },
    }
}

impl CollaboratorView {
    /// What `op` makes of this collaborator: where `op` points the cursor
    /// of the collaborator under this id, the collaborator with the cursor
    /// there; else the collaborator as they are.
    pub open spec fn edited(self, op: EditOperationView) -> CollaboratorView {
        match op {
            EditOperationView::UpdateCollaboratorCursor {
                collaborator_id,
                new_position,
            } => if self.id == collaborator_id {
                self.pointing_at(new_position)
            } else {
                self
            },
            _ => self,
        }
    }
}

/// Whether the copy of the client that adds a clip or a collaborator with
/// `second` ends as the session's project, where the session commits
/// `first` before it.
///
/// It does where the project holds the id already, so that nothing is
/// added. Else it does in these cases and in no others:
/// - `first` adds nothing of that kind and leaves what `second` adds as it
///   is: it is a removal, or an edit of something else, or an edit that
///   changes nothing in it;
/// - `first` adds the very same clip or collaborator;
/// - `first` adds under another id, one that the project holds already, and
///   `second` is committed as it was made.
pub open spec fn addition_settles(
    p: ProjectView,
    first: OTOperationView,
    second: OTOperationView,
) -> bool {
    match second.operation {
        EditOperationView::AddClip(clip) => has_clip(p.clips, clip.id) || match first.operation {
            EditOperationView::AddClip(other) => if other.id == clip.id {
                other == clip
            } else {
                has_clip(p.clips, other.id) && reconciled(first, second) == second.operation
            },
            _ => clip.edited(first.operation) == clip,
        },
        EditOperationView::AddCollaborator(person) => has_collaborator(p.collaborators, person.id)
            || match first.operation {
            EditOperationView::AddCollaborator(other) => if other.id == person.id {
                other == person
            } else {
                has_collaborator(p.collaborators, other.id)
            },
            _ => person.edited(first.operation) == person,
        },
        _ => true,
    }
}

/// Where the second edit adds a clip or a collaborator, the client that
/// made it ends with the session's project if and only if
/// [`addition_settles`] holds.
pub proof fn lemma_second_sender_converges_on_additions(
    p: ProjectView,
    first: OTOperationView,
    second: OTOperationView,
    version: u64,
)
    requires
        second.operation is AddClip || second.operation is AddCollaborator,
    ensures
        addition_settles(p, first, second) <==> second_sender_after(p, first, second, version)
            == server_after(p, first, second, version),
{
    let a = first.operation;
    let b = second.operation;
    let committed = transform(first, second, version).operation;
    let mine = p.apply(b).apply(a).apply(committed);
    let theirs = p.apply(a).apply(committed);
    match b {
        EditOperationView::AddClip(clip) => {
            if !has_clip(p.clips, clip.id) {
                let clips = p.clips;
                let n = clips.len() as int;
                let held = clips.push(clip);
                assert(held[n].id == clip.id);
                match a {
                    EditOperationView::RemoveClip(other) => {
                        let keep = |c: ClipView| c.id != other;
                        lemma_filter_push(clips, clip, keep);
                        lemma_has_clip_after_drop(clips, other, clip.id);
                        let rest = drop_clip(clips, other);
                        assert(rest.push(clip)[rest.len() as int].id == clip.id);
                        assert(mine.clips == theirs.clips);
                    },
                    EditOperationView::SetProjectDuration(_) => {},
                    EditOperationView::UpdateCollaboratorCursor { .. } => {},
                    EditOperationView::RenameProject(_) => {},
                    EditOperationView::AddCollaborator(_) => {},
                    EditOperationView::RemoveCollaborator(_) => {},
                    EditOperationView::AddClip(other) => {
                        let as_committed = committed->AddClip_0;
                        assert(as_committed.id == clip.id);
                        if other.id == clip.id {
                            assert(clips.push(other)[n].id == clip.id);
                            assert(mine.clips == held);
                            assert(theirs.clips == clips.push(other));
                            assert(held[n] == clip);
                            assert(clips.push(other)[n] == other);
                        } else if has_clip(clips, other.id) {
                            let i = choose|i: int|
                                0 <= i < clips.len() && (#[trigger] clips[i]).id == other.id;
                            assert(held[i].id == other.id);
                            assert(mine.clips == held);
                            assert(theirs.clips == clips.push(as_committed));
                            assert(clips.push(as_committed)[n] == as_committed);
                        } else {
                            assert forall|i: int| 0 <= i < held.len() implies (
                            #[trigger] held[i]).id != other.id by {
                                if i < n {
                                    assert(clips[i].id != other.id);
                                }
                            }
                            let both = held.push(other);
                            assert(both[n].id == clip.id);
                            assert(mine.clips == both);
                            let theirs_first = clips.push(other);
                            assert forall|i: int| 0 <= i < theirs_first.len() implies (
                            #[trigger] theirs_first[i]).id != clip.id by {
                                if i < n {
                                    assert(clips[i].id != clip.id);
                                }
                            }
                            assert(theirs.clips == theirs_first.push(as_committed));
                            assert(both[n] == clip);
                            assert(theirs_first.push(as_committed)[n] == other);
                        }
                    },
                    _ => {
                        lemma_edit_each_keeps_ids(clips, a, clip.id);
                        lemma_edited_keeps_id(clip, a);
                        let edited = edit_each(clips, a);
                        let last = clip.edited(a);
                        assert(edit_each(held, a) =~= edited.push(last));
                        assert(edited.push(last)[edited.len() as int].id == clip.id);
                        assert(mine.clips == edited.push(last));
                        assert(theirs.clips == edited.push(clip));
                        assert(edited.push(last)[edited.len() as int] == last);
                        assert(edited.push(clip)[edited.len() as int] == clip);
                    },
                }
            }
        },
        EditOperationView::AddCollaborator(person) => {
            if !has_collaborator(p.collaborators, person.id) {
                let people = p.collaborators;
                let n = people.len() as int;
                let held = people.push(person);
                assert(held[n].id == person.id);
                match a {
                    EditOperationView::RemoveCollaborator(other) => {
                        let keep = |k: CollaboratorView| k.id != other;
                        lemma_filter_push(people, person, keep);
                        lemma_has_collaborator_after_drop(people, other, person.id);
                        let rest = drop_collaborator(people, other);
                        assert(rest.push(person)[rest.len() as int].id == person.id);
                        assert(mine.collaborators == theirs.collaborators);
                    },
                    EditOperationView::UpdateCollaboratorCursor { collaborator_id, new_position } => {
                        lemma_point_each_keeps_ids(
                            people,
                            collaborator_id,
                            new_position,
                            person.id,
                        );
                        let pointed = point_each(people, collaborator_id, new_position);
                        let last = person.edited(a);
                        assert(point_each(held, collaborator_id, new_position) =~= pointed.push(
                            last,
                        ));
                        assert(pointed.push(last)[pointed.len() as int].id == person.id);
                        assert(mine.collaborators == pointed.push(last));
                        assert(theirs.collaborators == pointed.push(person));
                        assert(pointed.push(last)[pointed.len() as int] == last);
                        assert(pointed.push(person)[pointed.len() as int] == person);
                    },
                    EditOperationView::AddCollaborator(other) => {
                        if other.id == person.id {
                            assert(people.push(other)[n].id == person.id);
                            assert(mine.collaborators == held);
                            assert(theirs.collaborators == people.push(other));
                            assert(held[n] == person);
                            assert(people.push(other)[n] == other);
                        } else if has_collaborator(people, other.id) {
                            let i = choose|i: int|
                                0 <= i < people.len() && (#[trigger] people[i]).id == other.id;
                            assert(held[i].id == other.id);
                            assert(mine.collaborators == held);
                            assert(theirs.collaborators == held);
                        } else {
                            assert forall|i: int| 0 <= i < held.len() implies (
                            #[trigger] held[i]).id != other.id by {
                                if i < n {
                                    assert(people[i].id != other.id);
                                }
                            }
                            let both = held.push(other);
                            assert(both[n].id == person.id);
                            assert(mine.collaborators == both);
                            let theirs_first = people.push(other);
                            assert forall|i: int| 0 <= i < theirs_first.len() implies (
                            #[trigger] theirs_first[i]).id != person.id by {
                                if i < n {
                                    assert(people[i].id != person.id);
                                }
                            }
                            assert(theirs.collaborators == theirs_first.push(person));
                            assert(both[n] == person);
                            assert(theirs_first.push(person)[n] == other);
                        }
                    },
                    _ => {},
                }
            }
        },
        _ => {},
    }
}

/// Whether the copy of the client that made `second` ends as the session's
/// project, where the session commits `first` before it: what `second`
/// adds settles, and the sender's early edit is made up for on every clip.
///
/// Among the pairs that do not settle are two edits that add clips under
/// different new ids, since the second sender holds its own clip first and
/// not put off; and a move together with a move or a trim of the same clip
/// where the times leave no room, so that one of them changes nothing on
/// one of the copies.
pub open spec fn settles(p: ProjectView, first: OTOperationView, second: OTOperationView) -> bool {
    &&& addition_settles(p, first, second)
    &&& p.absorbs(first, second)
}

/// Edits settle where what the second adds settles and there is room for
/// the two on every clip.
pub proof fn lemma_settles_with_room(p: ProjectView, first: OTOperationView, second: OTOperationView)
    requires
        addition_settles(p, first, second),
        p.has_room_for(first.operation, second.operation),
    ensures
        settles(p, first, second),
{
    lemma_room_is_enough(p, first, second);
}

/// Two clients make an edit each on the same project at the same time; the
/// session commits `first`, then `second` as transformed against it, and
/// sends both to every client. Then the copy of the client that made
/// `first` and that of a client that made neither end as the session's
/// project, whatever the edits. The copy of the client that made `second`
/// does if and only if the edits settle.
pub proof fn lemma_replicas_converge(
    p: ProjectView,
    first: OTOperationView,
    second: OTOperationView,
    version: u64,
)
    ensures
        first_sender_after(p, first, second, version) == server_after(p, first, second, version),
        watcher_after(p, first, second, version) == server_after(p, first, second, version),
        settles(p, first, second) <==> second_sender_after(p, first, second, version)
            == server_after(p, first, second, version),
{
    lemma_first_sender_converges(p, first, second, version);
    match second.operation {
        EditOperationView::AddClip(_) => {
            lemma_second_sender_converges_on_additions(p, first, second, version);
            assert(p.has_room_for(first.operation, second.operation));
            lemma_room_is_enough(p, first, second);
        },
        EditOperationView::AddCollaborator(_) => {
            lemma_second_sender_converges_on_additions(p, first, second, version);
            assert(p.has_room_for(first.operation, second.operation));
            lemma_room_is_enough(p, first, second);
        },
        EditOperationView::RenameProject(_) => {
            lemma_second_sender_converges_on_settings(p, first, second, version);
            assert(p.has_room_for(first.operation, second.operation));
            lemma_room_is_enough(p, first, second);
        },
        EditOperationView::SetProjectDuration(_) => {
            lemma_second_sender_converges_on_settings(p, first, second, version);
            assert(p.has_room_for(first.operation, second.operation));
            lemma_room_is_enough(p, first, second);
        },
        EditOperationView::UpdateCollaboratorCursor { .. } => {
            lemma_second_sender_converges_on_collaborators(p, first, second, version);
            assert(p.has_room_for(first.operation, second.operation));
            lemma_room_is_enough(p, first, second);
        },
        EditOperationView::RemoveCollaborator(_) => {
            lemma_second_sender_converges_on_collaborators(p, first, second, version);
            assert(p.has_room_for(first.operation, second.operation));
            lemma_room_is_enough(p, first, second);
        },
        _ => {
            lemma_second_sender_converges_on_clips(p, first, second, version);
        },
    }
}

/// The same exchange, told of the session and the replicas themselves.
///
/// A session and three replicas hold the same project. Two of the clients
/// make an edit each, both against the version that the session stands at,
/// and carry it out on their own copy at once. The session commits `first`
/// and then `second` and sends each committed edit to every client. Then the
/// three copies are the session's project, and each replica has noted the
/// session's version.
pub proof fn lemma_session_and_replicas_converge(
    s: SessionView,
    first_sender: ClientView,
    second_sender: ClientView,
    watcher: ClientView,
    first: OTOperationView,
    second: OTOperationView,
    first_time: u64,
    second_time: u64,
)
    requires
        s.well_formed(),
        s.history.len() + 2 <= u64::MAX,
        first.server_version == s.server_version(),
        second.server_version == s.server_version(),
        first_sender.project == s.project,
        second_sender.project == s.project,
        watcher.project == s.project,
        settles(s.project, first, second),
    ensures
        ({
            let after_first = s.submitted(first, first_time);
            let after_both = after_first.submitted(second, second_time);
            let news_of_first = ServerMessageView::ClientOperation(after_first.history.last());
            let news_of_second = ServerMessageView::ClientOperation(after_both.history.last());
            let a = first_sender.after_intent(first.operation).after_message(
                news_of_first,
            ).after_message(news_of_second);
            let b = second_sender.after_intent(second.operation).after_message(
                news_of_first,
            ).after_message(news_of_second);
            let w = watcher.after_message(news_of_first).after_message(news_of_second);
            &&& after_both.server_version() == s.server_version() + 2
            &&& a.project == after_both.project
            &&& b.project == after_both.project
            &&& w.project == after_both.project
            &&& a.last_server_version == after_both.server_version()
            &&& b.last_server_version == after_both.server_version()
            &&& w.last_server_version == after_both.server_version()
        }),
{
    let version = s.history.len() as u64;
    let after_first = s.submitted(first, first_time);
    assert(s.pending(first.server_version) =~= Seq::<OTOperationView>::empty());
    assert(s.rebased(first) == first);
    let committed_first = first.stamped((version + 1) as u64);
    assert(after_first.history.last() == committed_first);
    assert(after_first.pending(second.server_version) =~= seq![committed_first]);
    assert(after_first.rebased(second) == transform(
        committed_first,
        second,
        (version + 1) as u64,
    )) by {
        reveal_with_fuel(rebase, 2);
        assert(seq![committed_first].drop_first() =~= Seq::<OTOperationView>::empty());
    }
    lemma_replicas_converge(s.project, committed_first, second, (version + 1) as u64);
}

} // verus!
