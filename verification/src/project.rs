//! The shared document: a project, its clips and the people working on it.

use crate::clip::{ClipView, VideoClip};
use crate::text;
use crate::time::TimeSpan;
use vstd::prelude::*;
use vstd::string::*;

verus! {

/// Where a collaborator's cursor stands on the timeline.
#[derive(Debug, Clone, Copy, PartialEq, Eq, Structural)]
pub struct CursorPosition {
    pub track: usize,
    pub time: TimeSpan,
}

impl CursorPosition {
    /// The cursor at the start of the first track.
    pub fn origin() -> (r: CursorPosition)
        ensures
            r == (CursorPosition { track: 0, time: TimeSpan { nanos: 0 } }),
    {
        CursorPosition { track: 0, time: TimeSpan::zero() }
    }
}

/// Someone who takes part in editing a project.
#[derive(Debug, PartialEq, Eq)]
pub struct Collaborator {
    pub id: String,
    pub name: String,
    pub cursor_position: CursorPosition,
}

/// A [`Collaborator`] as mathematical values.
pub struct CollaboratorView {
    pub id: Seq<char>,
    pub name: Seq<char>,
    pub cursor_position: CursorPosition,
}

impl View for Collaborator {
    type V = CollaboratorView;

    open spec fn view(&self) -> CollaboratorView {
        CollaboratorView { id: self.id@, name: self.name@, cursor_position: self.cursor_position }
    }
}

impl Clone for Collaborator {
    fn clone(&self) -> (r: Self)
        ensures
            r@ == self@,
    {
        Collaborator {
            id: self.id.clone(),
            name: self.name.clone(),
            cursor_position: self.cursor_position,
        }
    }
}

impl CollaboratorView {
    /// A collaborator who has just arrived: the cursor at the origin.
    pub open spec fn arriving(id: Seq<char>, name: Seq<char>) -> CollaboratorView {
        CollaboratorView {
            id,
            name,
            cursor_position: CursorPosition { track: 0, time: TimeSpan { nanos: 0 } },
        }
    }

    /// The collaborator with the cursor at `position`.
    pub open spec fn pointing_at(self, position: CursorPosition) -> CollaboratorView {
        CollaboratorView { cursor_position: position, ..self }
    }
}

impl Collaborator {
    /// A collaborator who has just arrived: the cursor at the origin.
    pub fn arriving(id: String, name: String) -> (r: Collaborator)
        ensures
            r@ == CollaboratorView::arriving(id@, name@),
    {
        Collaborator { id, name, cursor_position: CursorPosition::origin() }
    }
}

/// The views of a run of clips, in order.
pub open spec fn clip_views(clips: Seq<VideoClip>) -> Seq<ClipView> {
    clips.map_values(|c: VideoClip| c@)
}

/// The views of a run of collaborators, in order.
pub open spec fn collaborator_views(people: Seq<Collaborator>) -> Seq<CollaboratorView> {
    people.map_values(|c: Collaborator| c@)
}

/// Whether some clip of the run carries `id`.
pub open spec fn has_clip(clips: Seq<ClipView>, id: Seq<char>) -> bool {
    exists|i: int| 0 <= i < clips.len() && (#[trigger] clips[i]).id == id
}

/// Whether some collaborator of the run carries `id`.
pub open spec fn has_collaborator(people: Seq<CollaboratorView>, id: Seq<char>) -> bool {
    exists|i: int| 0 <= i < people.len() && (#[trigger] people[i]).id == id
}

/// Whether no two clips of the run carry the same id.
pub open spec fn distinct_clip_ids(clips: Seq<ClipView>) -> bool {
    forall|i: int, j: int|
        0 <= i < j < clips.len() ==> (#[trigger] clips[i]).id != (#[trigger] clips[j]).id
}

/// Whether no two collaborators of the run carry the same id.
pub open spec fn distinct_collaborator_ids(people: Seq<CollaboratorView>) -> bool {
    forall|i: int, j: int|
        0 <= i < j < people.len() ==> (#[trigger] people[i]).id != (#[trigger] people[j]).id
}

/// Default length of a new project, in seconds.
pub const DEFAULT_PROJECT_SECS: u64 = 300;

/// A video project: the document that a session shares among its clients.
#[derive(Debug, PartialEq, Eq)]
pub struct VideoProject {
    pub id: String,
    pub name: String,
    pub clips: Vec<VideoClip>,
    pub duration: TimeSpan,
    pub collaborators: Vec<Collaborator>,
}

/// A [`VideoProject`] as mathematical values: the model that the contracts speak of.
pub struct ProjectView {
    pub id: Seq<char>,
    pub name: Seq<char>,
    pub clips: Seq<ClipView>,
    pub duration: nat,
    pub collaborators: Seq<CollaboratorView>,
}

impl View for VideoProject {
    type V = ProjectView;

    open spec fn view(&self) -> ProjectView {
        ProjectView {
            id: self.id@,
            name: self.name@,
            clips: clip_views(self.clips@),
            duration: self.duration@,
            collaborators: collaborator_views(self.collaborators@),
        }
    }
}

impl Clone for VideoProject {
    fn clone(&self) -> (r: Self)
        ensures
            r@ == self@,
    {
        let clips = self.clips.clone();
        assert(clip_views(clips@) =~= clip_views(self.clips@));
        let collaborators = self.collaborators.clone();
        assert(collaborator_views(collaborators@) =~= collaborator_views(self.collaborators@));
        VideoProject {
            id: self.id.clone(),
            name: self.name.clone(),
            clips,
            duration: self.duration,
            collaborators,
        }
    }
}

impl ProjectView {
    /// A new project: no clips, the default length, and one collaborator.
    pub open spec fn fresh(
        id: Seq<char>,
        name: Seq<char>,
        client_id: Seq<char>,
        client_name: Seq<char>,
    ) -> ProjectView {
        ProjectView {
            id,
            name,
            clips: Seq::empty(),
            duration: (DEFAULT_PROJECT_SECS * crate::time::NANOS_PER_SEC) as nat,
            collaborators: seq![CollaboratorView::arriving(client_id, client_name)],
        }
    }

    /// Whether ids are unique: no two clips share one, and no two
    /// collaborators do.
    pub open spec fn well_formed(self) -> bool {
        &&& distinct_clip_ids(self.clips)
        &&& distinct_collaborator_ids(self.collaborators)
    }

    /// Whether the project is well formed and so is each of its clips.
    pub open spec fn sound(self) -> bool {
        &&& self.well_formed()
        &&& forall|i: int| 0 <= i < self.clips.len() ==> (#[trigger] self.clips[i]).well_formed()
    }
}

impl VideoProject {
    /// A new project with no clips, a length of five minutes, and the given
    /// client as its only collaborator, the cursor at the origin.
    pub fn new(id: String, name: String, client_id: String, client_name: String) -> (r:
        VideoProject)
        ensures
            r@ == ProjectView::fresh(id@, name@, client_id@, client_name@),
            r@.well_formed(),
    {
        let ghost first = CollaboratorView::arriving(client_id@, client_name@);
        let mut collaborators: Vec<Collaborator> = Vec::new();
        collaborators.push(Collaborator::arriving(client_id, client_name));
        assert(collaborator_views(collaborators@) =~= seq![first]);
        let clips: Vec<VideoClip> = Vec::new();
        assert(clip_views(clips@) =~= Seq::<ClipView>::empty());
        VideoProject {
            id,
            name,
            clips,
            duration: TimeSpan::from_secs(DEFAULT_PROJECT_SECS),
            collaborators,
        }
    }

    /// Whether a clip of the project carries `id`.
    pub fn has_clip(&self, id: &str) -> (r: bool)
        ensures
            r == has_clip(self@.clips, id@),
    {
        let mut i: usize = 0;
        while i < self.clips.len()
            invariant
                i <= self.clips.len(),
                forall|j: int| 0 <= j < i ==> (#[trigger] self@.clips[j]).id != id@,
            decreases self.clips.len() - i,
        {
            if text::equal(self.clips[i].id.as_str(), id) {
                assert(self@.clips[i as int].id == id@);
                return true;
            }
            i += 1;
        }
        false
    }

    /// The place of the first clip that carries `id`, if there is one.
    pub fn find_clip(&self, id: &str) -> (r: Option<usize>)
        ensures
            match r {
                Some(i) => {
                    &&& i < self@.clips.len()
                    &&& self@.clips[i as int].id == id@
                    &&& forall|j: int| 0 <= j < i ==> (#[trigger] self@.clips[j]).id != id@
                },
                None => !has_clip(self@.clips, id@),
            },
    {
        let mut i: usize = 0;
        while i < self.clips.len()
            invariant
                i <= self.clips.len(),
                forall|j: int| 0 <= j < i ==> (#[trigger] self@.clips[j]).id != id@,
            decreases self.clips.len() - i,
        {
            if text::equal(self.clips[i].id.as_str(), id) {
                assert(self@.clips[i as int].id == id@);
                return Some(i);
            }
            i += 1;
        }
        None
    }

    /// Whether a collaborator of the project carries `id`.
    pub fn has_collaborator(&self, id: &str) -> (r: bool)
        ensures
            r == has_collaborator(self@.collaborators, id@),
    {
        let mut i: usize = 0;
        while i < self.collaborators.len()
            invariant
                i <= self.collaborators.len(),
                forall|j: int| 0 <= j < i ==> (#[trigger] self@.collaborators[j]).id != id@,
            decreases self.collaborators.len() - i,
        {
            if text::equal(self.collaborators[i].id.as_str(), id) {
                assert(self@.collaborators[i as int].id == id@);
                return true;
            }
            i += 1;
        }
        false
    }
}

} // verus!
