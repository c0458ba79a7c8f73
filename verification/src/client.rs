//! A client's own copy of the project.
//!
//! A replica carries out each of its user's edits at once and hands back the
//! envelope to send to the session. Whatever the session sends is replayed
//! on the copy, the echoes of the replica's own edits among it.

use crate::clip::{ClipView, VideoClip};
use crate::effect::{effect_type_named, Effect, EffectType, EffectView};
use crate::entropy::{fresh_uuid, is_uuid_text};
use crate::message::{ServerMessage, ServerMessageView};
use crate::operation::{EditOperation, EditOperationView, OTOperation, OTOperationView};
use crate::project::{
    has_clip, Collaborator, CollaboratorView, CursorPosition, ProjectView, VideoProject,
};
use crate::text;
use crate::time::TimeSpan;
use vstd::prelude::*;
use vstd::string::*;

verus! {

/// Why a replica turned an edit down.
#[derive(Debug, Clone, Copy, PartialEq, Eq, Structural)]
pub enum ClientError {
    /// The project holds no clip under the given id.
    ClipNotFound,
    /// The name stands for no effect type.
    UnsupportedEffectType,
}

impl ClientError {
    /// The error in words.
    pub fn message(&self) -> (r: String)
        ensures
            r@ == match *self {
                ClientError::ClipNotFound => "Clip not found"@,
                ClientError::UnsupportedEffectType => "Unsupported effect type"@,
            },
    {
        match self {
            ClientError::ClipNotFound => String::from_str("Clip not found"),
            ClientError::UnsupportedEffectType => String::from_str("Unsupported effect type"),
        }
    }
}

/// Whether `i` is the place of the first clip that carries `id`.
pub open spec fn is_first_clip(clips: Seq<ClipView>, id: Seq<char>, i: int) -> bool {
    &&& 0 <= i < clips.len()
    &&& clips[i].id == id
    &&& forall|j: int| 0 <= j < i ==> (#[trigger] clips[j]).id != id
}

/// The clip that [`WeframeClient::add_clip_with_token`] adds.
pub open spec fn new_clip(
    token: Seq<char>,
    start_time: nat,
    end_time: nat,
    track: nat,
    source_file: Seq<char>,
) -> ClipView {
    ClipView {
        id: "clip-"@ + token,
        source_file,
        start_time,
        end_time,
        track,
        effects: Seq::empty(),
        transition: None,
    }
}

/// What a [`WeframeClient`] holds, as mathematical values.
pub struct ClientView {
    pub project: ProjectView,
    pub client_id: Seq<char>,
    /// The number of edits that the replica has sent.
    pub client_version: u64,
    /// The version of the last committed edit that the replica has seen.
    pub last_server_version: u64,
}

impl ClientView {
    /// A replica that has just been made.
    pub open spec fn fresh(
        project_id: Seq<char>,
        client_id: Seq<char>,
        client_name: Seq<char>,
    ) -> ClientView {
        ClientView {
            project: ProjectView::fresh(project_id, "New Project"@, client_id, client_name),
            client_id,
            client_version: 0,
            last_server_version: 0,
        }
    }

    /// The envelope in which the replica sends `edit`.
    pub open spec fn envelope(self, edit: EditOperationView) -> OTOperationView {
        OTOperationView {
            client_id: self.client_id,
            client_version: self.client_version,
            server_version: self.last_server_version,
            operation: edit,
        }
    }

    /// The replica after its user has made `edit`.
    pub open spec fn after_intent(self, edit: EditOperationView) -> ClientView {
        ClientView {
            project: self.project.apply(edit),
            client_version: (self.client_version + 1) as u64,
            ..self
        }
    }

    /// The replica after it has taken in `message`.
    ///
    /// A committed edit is replayed and its version noted. An arrival adds a
    /// collaborator, a departure removes one, and a whole project takes the
    /// place of the copy. Any other message changes nothing.
    pub open spec fn after_message(self, message: ServerMessageView) -> ClientView {
        match message {
            ServerMessageView::ClientOperation(op) => ClientView {
                project: self.project.apply(op.operation),
                last_server_version: op.server_version,
                ..self
            },
            ServerMessageView::NewClient { client_id, name } => ClientView {
                project: self.project.apply(
                    EditOperationView::AddCollaborator(CollaboratorView::arriving(client_id, name)),
                ),
                ..self
            },
            ServerMessageView::ClientDisconnected(client_id) => ClientView {
                project: self.project.apply(EditOperationView::RemoveCollaborator(client_id)),
                ..self
            },
            ServerMessageView::ProjectUpdate(project) => ClientView { project, ..self },
            _ => self,
        }
    }
}

/// Whether a message is passed on to the program that hosts the replica:
/// every message but a probe and its answer.
pub open spec fn passed_on(message: ServerMessageView) -> bool {
    !(message is Ping || message is Pong)
}

/// A client's copy of the project, with the counters that go into the
/// envelopes.
#[derive(Debug)]
pub struct WeframeClient {
    project: VideoProject,
    client_id: String,
    client_version: u64,
    last_server_version: u64,
}

impl View for WeframeClient {
    type V = ClientView;

    closed spec fn view(&self) -> ClientView {
        ClientView {
            project: self.project@,
            client_id: self.client_id@,
            client_version: self.client_version,
            last_server_version: self.last_server_version,
        }
    }
}

impl WeframeClient {
    /// A replica for the client `client_id`, with a new project under a
    /// random id.
    pub fn new(client_id: &str, client_name: &str) -> (r: WeframeClient)
        ensures
            exists|project_id: Seq<char>|
                is_uuid_text(project_id) && r@ == ClientView::fresh(
                    project_id,
                    client_id@,
                    client_name@,
                ),
    {
        let project_id = fresh_uuid();
        WeframeClient::with_project_id(project_id, client_id, client_name)
    }

    /// A replica for the client `client_id`, with a new project under
    /// `project_id`. The project is named `New Project` and has the client
    /// as its only collaborator; both counters are at zero.
    pub fn with_project_id(project_id: String, client_id: &str, client_name: &str) -> (r:
        WeframeClient)
        ensures
            r@ == ClientView::fresh(project_id@, client_id@, client_name@),
    {
        WeframeClient {
            project: VideoProject::new(
                project_id,
                String::from_str("New Project"),
                client_id.to_owned(),
                client_name.to_owned(),
            ),
            client_id: client_id.to_owned(),
            client_version: 0,
            last_server_version: 0,
        }
    }

    /// The copy of the project as it stands.
    pub fn get_project(&self) -> (r: &VideoProject)
        ensures
            r@ == self@.project,
    {
        &self.project
    }

    pub fn client_id(&self) -> (r: &String)
        ensures
            r@ == self@.client_id,
    {
        &self.client_id
    }

    /// The number of edits that the replica has sent.
    pub fn client_version(&self) -> (r: u64)
        ensures
            r == self@.client_version,
    {
        self.client_version
    }

    /// The version of the last committed edit that the replica has seen.
    pub fn last_server_version(&self) -> (r: u64)
        ensures
            r == self@.last_server_version,
    {
        self.last_server_version
    }

    /// The user makes `edit`: it is carried out on the copy at once, and the
    /// envelope to send to the session comes back. The envelope carries the
    /// counters as they were before; the count of edits sent goes up by one.
    pub fn local_intent(&mut self, edit: EditOperation) -> (r: OTOperation)
        requires
            old(self)@.client_version < u64::MAX,
        ensures
            r@ == old(self)@.envelope(edit@),
            final(self)@ == old(self)@.after_intent(edit@),
    {
        self.project.apply_operation(&edit);
        let envelope = OTOperation {
            client_id: self.client_id.clone(),
            client_version: self.client_version,
            server_version: self.last_server_version,
            operation: edit,
        };
        self.client_version = self.client_version + 1;
        envelope
    }

    /// Takes in a message from the session, as [`ClientView::after_message`]
    /// says, and tells whether the message is to be passed on to the host.
    pub fn on_inbound(&mut self, message: &ServerMessage) -> (r: bool)
        ensures
            final(self)@ == old(self)@.after_message(message@),
            r == passed_on(message@),
    {
        match message {
            ServerMessage::ClientOperation(op) => {
                self.project.apply_operation(&op.operation);
                self.last_server_version = op.server_version;
                true
            },
            ServerMessage::NewClient { client_id, name } => {
                let person = Collaborator::arriving(client_id.clone(), name.clone());
                self.project.apply_operation(&EditOperation::AddCollaborator(person));
                true
            },
            ServerMessage::ClientDisconnected(client_id) => {
                self.project.apply_operation(&EditOperation::RemoveCollaborator(client_id.clone()));
                true
            },
            ServerMessage::ProjectUpdate(project) => {
                self.project = project.clone();
                true
            },
            ServerMessage::ChatMessage { .. } => true,
            ServerMessage::Error { .. } => true,
            ServerMessage::Ping(_) => false,
            ServerMessage::Pong(_) => false,
        }
    }

    /// Puts the client's own cursor at `time` on `track`.
    pub fn update_cursor_position(&mut self, track: usize, time: TimeSpan) -> (r: OTOperation)
        requires
            old(self)@.client_version < u64::MAX,
        ensures
            r@ == old(self)@.envelope(
                EditOperationView::UpdateCollaboratorCursor {
                    collaborator_id: old(self)@.client_id,
                    new_position: CursorPosition { track, time },
                },
            ),
            final(self)@ == old(self)@.after_intent(r@.operation),
    {
        let edit = EditOperation::UpdateCollaboratorCursor {
            collaborator_id: self.client_id.clone(),
            new_position: CursorPosition { track, time },
        };
        self.local_intent(edit)
    }

    /// Moves the clip `clip_id` to start at `new_start_time` on `new_track`.
    /// Where the copy holds no such clip, nothing changes and nothing is to
    /// be sent.
    pub fn move_clip(&mut self, clip_id: &str, new_start_time: TimeSpan, new_track: usize) -> (r:
        Result<OTOperation, ClientError>)
        requires
            old(self)@.client_version < u64::MAX,
        ensures
            match r {
                Ok(op) => {
                    &&& has_clip(old(self)@.project.clips, clip_id@)
                    &&& op@ == old(self)@.envelope(
                        EditOperationView::MoveClip {
                            id: clip_id@,
                            new_start_time: new_start_time@,
                            new_track: new_track as nat,
                        },
                    )
                    &&& final(self)@ == old(self)@.after_intent(op@.operation)
                },
                Err(e) => {
                    &&& !has_clip(old(self)@.project.clips, clip_id@)
                    &&& e == ClientError::ClipNotFound
                    &&& final(self)@ == old(self)@
                },
            },
    {
        if !self.project.has_clip(clip_id) {
            return Err(ClientError::ClipNotFound);
        }
        let edit = EditOperation::MoveClip { id: clip_id.to_owned(), new_start_time, new_track };
        Ok(self.local_intent(edit))
    }

    /// Sets the end of the clip `clip_id` to `new_end_time` and leaves its
    /// start where it is. Where the copy holds no such clip, nothing changes
    /// and nothing is to be sent.
    pub fn resize_clip(&mut self, clip_id: &str, new_end_time: TimeSpan) -> (r: Result<
        OTOperation,
        ClientError,
    >)
        requires
            old(self)@.client_version < u64::MAX,
        ensures
            match r {
                Ok(op) => {
                    &&& exists|i: int|
                        is_first_clip(old(self)@.project.clips, clip_id@, i) && op@ == old(
                            self,
                        )@.envelope(
                            EditOperationView::TrimClip {
                                id: clip_id@,
                                new_start_time: old(self)@.project.clips[i].start_time,
                                new_end_time: new_end_time@,
                            },
                        )
                    &&& final(self)@ == old(self)@.after_intent(op@.operation)
                },
                Err(e) => {
                    &&& !has_clip(old(self)@.project.clips, clip_id@)
                    &&& e == ClientError::ClipNotFound
                    &&& final(self)@ == old(self)@
                },
            },
    {
        match self.project.find_clip(clip_id) {
            None => Err(ClientError::ClipNotFound),
            Some(i) => {
                let edit = EditOperation::TrimClip {
                    id: clip_id.to_owned(),
                    new_start_time: self.project.clips[i].start_time,
                    new_end_time,
                };
                assert(is_first_clip(old(self)@.project.clips, clip_id@, i as int));
                Ok(self.local_intent(edit))
            },
        }
    }

    /// Adds a clip with no effects and no transition under a random id.
    pub fn add_clip(
        &mut self,
        start_time: TimeSpan,
        end_time: TimeSpan,
        track: usize,
        source_file: &str,
    ) -> (r: OTOperation)
        requires
            old(self)@.client_version < u64::MAX,
        ensures
            exists|token: Seq<char>|
                is_uuid_text(token) && r@ == old(self)@.envelope(
                    EditOperationView::AddClip(
                        new_clip(token, start_time@, end_time@, track as nat, source_file@),
                    ),
                ),
            final(self)@ == old(self)@.after_intent(r@.operation),
    {
        let token = fresh_uuid();
        self.add_clip_with_token(token.as_str(), start_time, end_time, track, source_file)
    }

    /// Adds a clip with no effects and no transition whose id is `clip-`
    /// followed by `token`.
    pub fn add_clip_with_token(
        &mut self,
        token: &str,
        start_time: TimeSpan,
        end_time: TimeSpan,
        track: usize,
        source_file: &str,
    ) -> (r: OTOperation)
        requires
            old(self)@.client_version < u64::MAX,
        ensures
            r@ == old(self)@.envelope(
                EditOperationView::AddClip(
                    new_clip(token@, start_time@, end_time@, track as nat, source_file@),
                ),
            ),
            final(self)@ == old(self)@.after_intent(r@.operation),
    {
        let effects: Vec<Effect> = Vec::new();
        assert(crate::clip::effect_views(effects@) =~= Seq::<EffectView>::empty());
        let clip = VideoClip {
            id: text::joined("clip-", token),
            source_file: source_file.to_owned(),
            start_time,
            end_time,
            track,
            effects,
            transition: None,
        };
        self.local_intent(EditOperation::AddClip(clip))
    }

    /// Puts an effect of the type named `effect_type` on the clip `clip_id`,
    /// under a random id. See [`WeframeClient::apply_effect_with_token`].
    pub fn apply_effect(&mut self, clip_id: &str, effect_type: &str, value: u64) -> (r: Result<
        OTOperation,
        ClientError,
    >)
        requires
            old(self)@.client_version < u64::MAX,
        ensures
            match r {
                Ok(op) => {
                    &&& effect_type_named(effect_type@) is Some
                    &&& has_clip(old(self)@.project.clips, clip_id@)
                    &&& exists|token: Seq<char>|
                        is_uuid_text(token) && op@ == old(self)@.envelope(
                            EditOperationView::AddEffect {
                                clip_id: clip_id@,
                                effect: EffectView::fresh(
                                    token,
                                    effect_type_named(effect_type@)->0,
                                    value,
                                ),
                            },
                        )
                    &&& final(self)@ == old(self)@.after_intent(op@.operation)
                },
                Err(e) => {
                    &&& final(self)@ == old(self)@
                    &&& e == if effect_type_named(effect_type@) is None {
                        ClientError::UnsupportedEffectType
                    } else {
                        ClientError::ClipNotFound
                    }
                    &&& effect_type_named(effect_type@) is None || !has_clip(
                        old(self)@.project.clips,
                        clip_id@,
                    )
                },
            },
    {
        let token = fresh_uuid();
        self.apply_effect_with_token(token.as_str(), clip_id, effect_type, value)
    }

    /// Puts an effect of the type named `effect_type` on the clip `clip_id`,
    /// in place of any effect of that type. The effect's id is `effect-`
    /// followed by `token`, and its parameter `value` holds `value`.
    ///
    /// A name that stands for no effect type is turned down first, then a
    /// clip that the copy does not hold; either way nothing changes.
    pub fn apply_effect_with_token(
        &mut self,
        token: &str,
        clip_id: &str,
        effect_type: &str,
        value: u64,
    ) -> (r: Result<OTOperation, ClientError>)
        requires
            old(self)@.client_version < u64::MAX,
        ensures
            match r {
                Ok(op) => {
                    &&& effect_type_named(effect_type@) is Some
                    &&& has_clip(old(self)@.project.clips, clip_id@)
                    &&& op@ == old(self)@.envelope(
                        EditOperationView::AddEffect {
                            clip_id: clip_id@,
                            effect: EffectView::fresh(
                                token@,
                                effect_type_named(effect_type@)->0,
                                value,
                            ),
                        },
                    )
                    &&& final(self)@ == old(self)@.after_intent(op@.operation)
                },
                Err(e) => {
                    &&& final(self)@ == old(self)@
                    &&& e == if effect_type_named(effect_type@) is None {
                        ClientError::UnsupportedEffectType
                    } else {
                        ClientError::ClipNotFound
                    }
                    &&& effect_type_named(effect_type@) is None || !has_clip(
                        old(self)@.project.clips,
                        clip_id@,
                    )
                },
            },
    {
        let kind = match EffectType::from_name(effect_type) {
            Some(kind) => kind,
            None => {
                return Err(ClientError::UnsupportedEffectType);
            },
        };
        if !self.project.has_clip(clip_id) {
            return Err(ClientError::ClipNotFound);
        }
        let effect = Effect::with_token(token, kind, value);
        let edit = EditOperation::AddEffect { clip_id: clip_id.to_owned(), effect };
        Ok(self.local_intent(edit))
    }

    /// Gives the project the name `new_name`.
    pub fn rename_project(&mut self, new_name: &str) -> (r: OTOperation)
        requires
            old(self)@.client_version < u64::MAX,
        ensures
            r@ == old(self)@.envelope(EditOperationView::RenameProject(new_name@)),
            final(self)@ == old(self)@.after_intent(r@.operation),
    {
        self.local_intent(EditOperation::RenameProject(new_name.to_owned()))
    }
}

} // verus!
