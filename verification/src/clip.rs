//! Clips: the segments that a timeline is made of.

use crate::effect::{Effect, EffectView, Transition, TransitionView};
use crate::sequences::lemma_filter_next;
use crate::text;
use crate::time::{representable, TimeSpan};
use vstd::prelude::*;

verus! {

/// The views of a run of effects, in order.
pub open spec fn effect_views(effects: Seq<Effect>) -> Seq<EffectView> {
    effects.map_values(|e: Effect| e@)
}

/// A segment of source material placed on a track of the timeline.
#[derive(Debug, PartialEq, Eq)]
pub struct VideoClip {
    pub id: String,
    pub source_file: String,
    pub start_time: TimeSpan,
    pub end_time: TimeSpan,
    pub track: usize,
    pub effects: Vec<Effect>,
    pub transition: Option<Transition>,
}

/// A [`VideoClip`] as mathematical values: times in nanoseconds.
pub struct ClipView {
    pub id: Seq<char>,
    pub source_file: Seq<char>,
    pub start_time: nat,
    pub end_time: nat,
    pub track: nat,
    pub effects: Seq<EffectView>,
    pub transition: Option<TransitionView>,
}

impl View for VideoClip {
    type V = ClipView;

    open spec fn view(&self) -> ClipView {
        ClipView {
            id: self.id@,
            source_file: self.source_file@,
            start_time: self.start_time@,
            end_time: self.end_time@,
            track: self.track as nat,
            effects: effect_views(self.effects@),
            transition: match self.transition {
                Some(t) => Some(t@),
                None => None,
            },
        }
    }
}

impl Clone for VideoClip {
    fn clone(&self) -> (r: Self)
        ensures
            r@ == self@,
    {
        let effects = self.effects.clone();
        assert(effect_views(effects@) =~= effect_views(self.effects@));
        let transition = match &self.transition {
            Some(t) => Some(t.clone()),
            None => None,
        };
        VideoClip {
            id: self.id.clone(),
            source_file: self.source_file.clone(),
            start_time: self.start_time,
            end_time: self.end_time,
            track: self.track,
            effects,
            transition,
        }
    }
}

/// The run with `effect` put last, in place of the effects of its type.
pub open spec fn put_effect(effects: Seq<EffectView>, effect: EffectView) -> Seq<EffectView> {
    effects.filter(|e: EffectView| e.effect_type != effect.effect_type).push(effect)
}

/// The run without the effects that carry `id`.
pub open spec fn drop_effect(effects: Seq<EffectView>, id: Seq<char>) -> Seq<EffectView> {
    effects.filter(|e: EffectView| e.id != id)
}

/// Whether each effect of the run is well formed.
pub open spec fn effects_well_formed(effects: Seq<EffectView>) -> bool {
    forall|i: int| 0 <= i < effects.len() ==> (#[trigger] effects[i]).well_formed()
}

/// Whether no two effects of the run have the same type.
pub open spec fn one_effect_per_type(effects: Seq<EffectView>) -> bool {
    forall|i: int, j: int|
        0 <= i < j < effects.len() ==> (#[trigger] effects[i]).effect_type != (
        #[trigger] effects[j]).effect_type
}

impl ClipView {
    /// Whether the clip ends no earlier than it starts.
    pub open spec fn span_ordered(self) -> bool {
        self.start_time <= self.end_time
    }

    /// Whether the clip is as the data model wants it: its span ordered,
    /// at most one effect of each type, and each effect well formed.
    pub open spec fn well_formed(self) -> bool {
        &&& self.span_ordered()
        &&& one_effect_per_type(self.effects)
        &&& effects_well_formed(self.effects)
    }

    /// The length of the clip. Meaningful where the span is ordered.
    pub open spec fn length(self) -> int {
        self.end_time - self.start_time
    }

    /// Whether the clip can be moved to start at `new_start` with its length
    /// kept: the span is ordered and the new end is representable.
    pub open spec fn movable_to(self, new_start: nat) -> bool {
        &&& self.span_ordered()
        &&& representable((new_start + self.length()) as nat)
    }

    /// The clip moved to start at `new_start` on `new_track`, its length
    /// kept. A clip that cannot be moved there stays as it is.
    pub open spec fn moved(self, new_start: nat, new_track: nat) -> ClipView {
        if self.movable_to(new_start) {
            ClipView {
                start_time: new_start,
                end_time: (new_start + self.length()) as nat,
                track: new_track,
                ..self
            }
        } else {
            self
        }
    }

    /// Whether both ends of the clip can be put off by `offset`.
    pub open spec fn shiftable_by(self, offset: nat) -> bool {
        &&& representable(self.start_time + offset)
        &&& representable(self.end_time + offset)
    }

    /// The clip with both ends put off by `offset`. A clip that cannot be put
    /// off so far stays as it is.
    pub open spec fn shifted(self, offset: nat) -> ClipView {
        if self.shiftable_by(offset) {
            ClipView {
                start_time: self.start_time + offset,
                end_time: self.end_time + offset,
                ..self
            }
        } else {
            self
        }
    }

    /// The clip with both ends set.
    pub open spec fn trimmed(self, new_start: nat, new_end: nat) -> ClipView {
        ClipView { start_time: new_start, end_time: new_end, ..self }
    }

    /// The clip with `effect` put last, in place of any effect of its type.
    pub open spec fn with_effect(self, effect: EffectView) -> ClipView {
        ClipView { effects: put_effect(self.effects, effect), ..self }
    }

    /// The clip without the effects that carry `effect_id`.
    pub open spec fn without_effect(self, effect_id: Seq<char>) -> ClipView {
        ClipView { effects: drop_effect(self.effects, effect_id), ..self }
    }

    /// The clip with its transition set.
    pub open spec fn with_transition(self, transition: TransitionView) -> ClipView {
        ClipView { transition: Some(transition), ..self }
    }

    /// The clip with no transition.
    pub open spec fn without_transition(self) -> ClipView {
        ClipView { transition: None, ..self }
    }
}

impl VideoClip {
    /// Moves the clip to start at `new_start_time` on `new_track` and keeps
    /// its length. Where the clip ends before it starts, or the new end would
    /// not be representable, nothing changes.
    pub fn move_to(&mut self, new_start_time: TimeSpan, new_track: usize)
        ensures
            final(self)@ == old(self)@.moved(new_start_time@, new_track as nat),
    {
        if let Some(length) = self.end_time.checked_sub(self.start_time) {
            if let Some(new_end_time) = new_start_time.checked_add(length) {
                self.start_time = new_start_time;
                self.end_time = new_end_time;
                self.track = new_track;
            }
        }
    }

    /// Puts both ends of the clip off by `offset`. Where either end would not
    /// be representable, nothing changes.
    pub fn shift_by(&mut self, offset: TimeSpan)
        ensures
            final(self)@ == old(self)@.shifted(offset@),
    {
        if let Some(new_start_time) = self.start_time.checked_add(offset) {
            if let Some(new_end_time) = self.end_time.checked_add(offset) {
                self.start_time = new_start_time;
                self.end_time = new_end_time;
            }
        }
    }

    /// Sets both ends of the clip.
    pub fn trim(&mut self, new_start_time: TimeSpan, new_end_time: TimeSpan)
        ensures
            final(self)@ == old(self)@.trimmed(new_start_time@, new_end_time@),
    {
        self.start_time = new_start_time;
        self.end_time = new_end_time;
    }

    /// Puts `effect` last among the effects, in place of any effect of the
    /// same type.
    pub fn add_effect(&mut self, effect: Effect)
        ensures
            final(self)@ == old(self)@.with_effect(effect@),
    {
        let mut source: Vec<Effect> = Vec::new();
        core::mem::swap(&mut source, &mut self.effects);
        let ghost all = effect_views(source@);
        let ghost keep = |e: EffectView| e.effect_type != effect@.effect_type;
        let mut kept: Vec<Effect> = Vec::new();
        assert(all.take(0).filter(keep) =~= Seq::<EffectView>::empty()) by {
            reveal(Seq::filter);
        }
        for e in it: source
            invariant
                all == effect_views(it.seq()),
                keep == |e: EffectView| e.effect_type != effect@.effect_type,
                effect_views(kept@) == all.take(it.index() as int).filter(keep),
        {
            proof {
                lemma_filter_next(all, keep, it.index() as int);
            }
            let ghost before = effect_views(kept@);
            if e.effect_type != effect.effect_type {
                kept.push(e);
                assert(effect_views(kept@) =~= before.push(e@));
            }
        }
        assert(all.take(all.len() as int) =~= all);
        let ghost last = effect@;
        let ghost before = effect_views(kept@);
        kept.push(effect);
        assert(effect_views(kept@) =~= before.push(last));
        self.effects = kept;
    }

    /// Removes the effects that carry `effect_id`.
    pub fn remove_effect(&mut self, effect_id: &str)
        ensures
            final(self)@ == old(self)@.without_effect(effect_id@),
    {
        let mut source: Vec<Effect> = Vec::new();
        core::mem::swap(&mut source, &mut self.effects);
        let ghost all = effect_views(source@);
        let ghost keep = |e: EffectView| e.id != effect_id@;
        let mut kept: Vec<Effect> = Vec::new();
        assert(all.take(0).filter(keep) =~= Seq::<EffectView>::empty()) by {
            reveal(Seq::filter);
        }
        for e in it: source
            invariant
                all == effect_views(it.seq()),
                keep == |e: EffectView| e.id != effect_id@,
                effect_views(kept@) == all.take(it.index() as int).filter(keep),
        {
            proof {
                lemma_filter_next(all, keep, it.index() as int);
            }
            let ghost before = effect_views(kept@);
            if !text::equal(e.id.as_str(), effect_id) {
                kept.push(e);
                assert(effect_views(kept@) =~= before.push(e@));
            }
        }
        assert(all.take(all.len() as int) =~= all);
        self.effects = kept;
    }

    /// Sets the transition, in place of any the clip had.
    pub fn set_transition(&mut self, transition: Transition)
        ensures
            final(self)@ == old(self)@.with_transition(transition@),
    {
        self.transition = Some(transition);
    }

    /// Takes the transition away.
    pub fn clear_transition(&mut self)
        ensures
            final(self)@ == old(self)@.without_transition(),
    {
        self.transition = None;
    }
}

} // verus!
