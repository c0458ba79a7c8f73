//! One room: the project that its clients share, and the order of their
//! edits.
//!
//! A session is a state machine. The program around it feeds it what
//! happens (a client arrives, sends a frame, goes away) together with the
//! time in milliseconds, and sends out the messages that come back.

use crate::entropy::{
    client_id_for, client_id_text, fresh_uuid, is_uuid_text, lemma_client_id_injective, random_u32,
};
use crate::message::{outbound_views, to_each, Outbound, OutboundView, ServerMessage, ServerMessageView};
use crate::operation::{EditOperation, EditOperationView, OTOperation, OTOperationView};
use crate::project::{Collaborator, CollaboratorView, ProjectView, VideoProject};
use crate::sequences::{lemma_filter_embeds, lemma_filter_next};
use crate::text;
use crate::time::{TimeSpan, NANOS_PER_MILLI};
use crate::transform::transform;
use vstd::prelude::*;
use vstd::string::*;

verus! {

/// What a session is told about itself when it is made.
#[derive(Debug, PartialEq, Eq)]
pub struct Metadata {
    pub name: String,
    /// When the session was made, in milliseconds.
    pub created_at: u64,
    /// How long a session is meant to last.
    pub max_duration: TimeSpan,
}

/// A [`Metadata`] as mathematical values.
pub struct MetadataView {
    pub name: Seq<char>,
    pub created_at: u64,
    pub max_duration: nat,
}

impl View for Metadata {
    type V = MetadataView;

    open spec fn view(&self) -> MetadataView {
        MetadataView {
            name: self.name@,
            created_at: self.created_at,
            max_duration: self.max_duration@,
        }
    }
}

impl Clone for Metadata {
    fn clone(&self) -> (r: Self)
        ensures
            r@ == self@,
    {
        Metadata {
            name: self.name.clone(),
            created_at: self.created_at,
            max_duration: self.max_duration,
        }
    }
}

/// What a client sends to the session.
#[derive(Debug, PartialEq, Eq)]
pub enum ClientFrame {
    /// An edit to commit.
    Operation(OTOperation),
    /// A probe that carries the client's clock, in milliseconds.
    Ping(u64),
}

/// A [`ClientFrame`] as mathematical values.
pub enum ClientFrameView {
    Operation(OTOperationView),
    Ping(u64),
}

impl View for ClientFrame {
    type V = ClientFrameView;

    open spec fn view(&self) -> ClientFrameView {
        match *self {
            ClientFrame::Operation(op) => ClientFrameView::Operation(op@),
            ClientFrame::Ping(sent) => ClientFrameView::Ping(sent),
        }
    }
}

/// What a client is handed when it joins, and what the others are told.
#[derive(Debug, PartialEq, Eq)]
pub struct Joined {
    /// The project as it stands.
    pub project: VideoProject,
    /// The version that the project stands at.
    pub server_version: u64,
    /// The news of the arrival, one copy for each client.
    pub announcements: Vec<Outbound>,
}

/// The views of a run of committed edits, in order.
pub open spec fn operation_views(ops: Seq<OTOperation>) -> Seq<OTOperationView> {
    ops.map_values(|o: OTOperation| o@)
}

/// The ids held by a roster, in order.
pub open spec fn roster_view(clients: Seq<String>) -> Seq<Seq<char>> {
    clients.map_values(|c: String| c@)
}

/// Whether no id stands twice in the roster.
pub open spec fn distinct_ids(ids: Seq<Seq<char>>) -> bool {
    forall|i: int, j: int| 0 <= i < j < ids.len() ==> #[trigger] ids[i] != #[trigger] ids[j]
}

/// The roster without `id`.
pub open spec fn without_id(ids: Seq<Seq<char>>, id: Seq<char>) -> Seq<Seq<char>> {
    ids.filter(|c: Seq<char>| c != id)
}

/// `op` transformed against each of `pending` in turn, oldest first.
pub open spec fn rebase(pending: Seq<OTOperationView>, op: OTOperationView, version: u64) -> OTOperationView
    decreases pending.len(),
{
    if pending.len() == 0 {
        op
    } else {
        rebase(pending.drop_first(), transform(pending[0], op, version), version)
    }
}

/// The `k`-th number to try for a client that drew `start`: the numbers
/// from `start` on, back to zero after the last.
pub open spec fn probe(start: u32, k: nat) -> u32 {
    ((start + k) % 0x1_0000_0000) as u32
}

/// The first `j` from `k` on for which the id of `probe(start, j)` is not on
/// the roster, or the length of the roster where all up to there are taken.
pub open spec fn first_free(clients: Seq<Seq<char>>, start: u32, k: nat) -> nat
    decreases clients.len() - k,
{
    if k >= clients.len() || !clients.contains(client_id_text(probe(start, k))) {
        k
    } else {
        first_free(clients, start, k + 1)
    }
}

/// The id given to a client that drew `start`: that of the first number
/// from `start` on whose id is not on the roster.
pub open spec fn assigned_id(clients: Seq<Seq<char>>, start: u32) -> Seq<char> {
    client_id_text(probe(start, first_free(clients, start, 0)))
}

/// Every number up to where `first_free` stops is taken.
pub proof fn lemma_first_free(clients: Seq<Seq<char>>, start: u32, k: nat)
    ensures
        k <= first_free(clients, start, k) || clients.len() < k,
        first_free(clients, start, k) <= clients.len() || first_free(clients, start, k) == k,
        forall|j: nat|
            k <= j < first_free(clients, start, k) ==> clients.contains(
                client_id_text(#[trigger] probe(start, j)),
            ),
        first_free(clients, start, k) < clients.len() ==> !clients.contains(
            client_id_text(probe(start, first_free(clients, start, k))),
        ),
    decreases clients.len() - k,
{
    if !(k >= clients.len() || !clients.contains(client_id_text(probe(start, k)))) {
        lemma_first_free(clients, start, k + 1);
    }
}

/// A roster of fewer than 2^32 clients never holds the id that is given to
/// the next client: among one more ids than there are clients, one is free.
pub proof fn lemma_assigned_id_is_free(clients: Seq<Seq<char>>, start: u32)
    requires
        clients.len() < 0x1_0000_0000,
    ensures
        !clients.contains(assigned_id(clients, start)),
{
    let n = clients.len();
    let k = first_free(clients, start, 0);
    lemma_first_free(clients, start, 0);
    if k >= n && clients.contains(client_id_text(probe(start, k))) {
        assert(k == n);
        let tried = Seq::new(n + 1, |j: int| client_id_text(probe(start, j as nat)));
        assert forall|i: int, j: int| 0 <= i < tried.len() && 0 <= j < tried.len() && i
            != j implies tried[i] != tried[j] by {
            if tried[i] == tried[j] {
                lemma_client_id_injective(probe(start, i as nat), probe(start, j as nat));
            }
        }
        assert(tried.no_duplicates());
        assert forall|id: Seq<char>| tried.to_set().contains(id) implies clients.to_set().contains(
            id,
        ) by {
            let j = choose|j: int| 0 <= j < tried.len() && tried[j] == id;
            assert(clients.contains(client_id_text(probe(start, j as nat))));
        }
        tried.unique_seq_to_set();
        clients.lemma_cardinality_of_set();
        vstd::set_lib::lemma_len_subset(tried.to_set(), clients.to_set());
    }
}

/// The milliseconds that have gone by at `now` since a probe was sent at
/// `sent`; zero where the probe claims to be sent after `now`, as one from a
/// client whose clock runs ahead does.
pub open spec fn elapsed_since(now: u64, sent: u64) -> u64 {
    if sent <= now {
        (now - sent) as u64
    } else {
        0
    }
}

/// The collaborator that stands for a client who joins: named `User` and
/// the client's id, the cursor at the origin.
pub open spec fn newcomer(client_id: Seq<char>) -> CollaboratorView {
    CollaboratorView::arriving(client_id, "User "@ + client_id)
}

/// The news that a client has joined.
pub open spec fn arrival(client_id: Seq<char>) -> ServerMessageView {
    ServerMessageView::NewClient { client_id, name: "User "@ + client_id }
}

/// What a [`VideoSession`] holds, as mathematical values.
pub struct SessionView {
    pub metadata: MetadataView,
    pub project: ProjectView,
    pub clients: Seq<Seq<char>>,
    pub last_activity: u64,
    /// Every committed edit, oldest first.
    pub history: Seq<OTOperationView>,
}

impl SessionView {
    /// A session that has just been made.
    pub open spec fn fresh(metadata: MetadataView, project_id: Seq<char>, now: u64) -> SessionView {
        SessionView {
            metadata,
            project: ProjectView::fresh(project_id, metadata.name, "server"@, "Server"@),
            clients: Seq::empty(),
            last_activity: now,
            history: Seq::empty(),
        }
    }

    /// The number of edits committed so far.
    pub open spec fn server_version(self) -> nat {
        self.history.len()
    }

    /// Whether the session is in order: the project's ids are unique, no
    /// client stands twice in the roster, and the committed edits carry the
    /// versions 1, 2, 3 and so on.
    pub open spec fn well_formed(self) -> bool {
        &&& self.project.well_formed()
        &&& distinct_ids(self.clients)
        &&& self.history.len() <= u64::MAX
        &&& forall|i: int|
            0 <= i < self.history.len() ==> (#[trigger] self.history[i]).server_version == i + 1
    }

    /// The committed edits that a client at version `base` has not seen.
    pub open spec fn pending(self, base: u64) -> Seq<OTOperationView> {
        if base <= self.history.len() {
            self.history.skip(base as int)
        } else {
            Seq::empty()
        }
    }

    /// `op` as it is committed: transformed against what its sender has not
    /// seen.
    pub open spec fn rebased(self, op: OTOperationView) -> OTOperationView {
        rebase(self.pending(op.server_version), op, self.history.len() as u64)
    }

    /// The session after it has carried out `op` as it is and given it the
    /// next version.
    pub open spec fn committed(self, op: OTOperationView) -> SessionView {
        SessionView {
            project: self.project.apply(op.operation),
            history: self.history.push(op.stamped((self.history.len() + 1) as u64)),
            ..self
        }
    }

    /// The session after a client has sent `op` at the time `now`.
    pub open spec fn submitted(self, op: OTOperationView, now: u64) -> SessionView {
        SessionView { last_activity: now, ..self }.committed(self.rebased(op))
    }

    /// The session after `client_id` has joined at the time `now`. Nothing
    /// changes where the roster holds the id already.
    pub open spec fn joined(self, client_id: Seq<char>, now: u64) -> SessionView {
        if self.clients.contains(client_id) {
            self
        } else {
            SessionView {
                clients: self.clients.push(client_id),
                project: self.project.apply(EditOperationView::AddCollaborator(newcomer(client_id))),
                last_activity: now,
                ..self
            }
        }
    }

    /// The session after `client_id` has gone.
    pub open spec fn left(self, client_id: Seq<char>) -> SessionView {
        SessionView {
            clients: without_id(self.clients, client_id),
            project: self.project.apply(EditOperationView::RemoveCollaborator(client_id)),
            ..self
        }
    }

    /// The time without activity at `now`, in nanoseconds; zero where the
    /// last activity lies after `now`.
    pub open spec fn idle_nanos(self, now: u64) -> nat {
        if now >= self.last_activity {
            ((now - self.last_activity) * NANOS_PER_MILLI) as nat
        } else {
            0
        }
    }

    /// Whether the session has been idle for longer than `limit`
    /// nanoseconds. A session that has been idle for exactly that long has
    /// not expired yet.
    pub open spec fn expired(self, now: u64, limit: nat) -> bool {
        self.idle_nanos(now) > limit
    }

    /// The session after the frame has been dealt with.
    pub open spec fn received(self, frame: ClientFrameView, now: u64) -> SessionView {
        match frame {
            ClientFrameView::Operation(op) => self.submitted(op, now),
            ClientFrameView::Ping(_) => self,
        }
    }

    /// The session after a frame from `sender` has been delivered to it:
    /// the sender has joined, where it was not on the roster, and the frame
    /// has been dealt with.
    pub open spec fn delivered(self, sender: Seq<char>, frame: ClientFrameView, now: u64) -> SessionView {
        self.joined(sender, now).received(frame, now)
    }

    /// What the clients are sent when a frame from `sender` is delivered:
    /// the news of the sender's arrival, where it was not on the roster, and
    /// then the replies to the frame.
    pub open spec fn delivery(self, sender: Seq<char>, frame: ClientFrameView, now: u64) -> Seq<
        OutboundView,
    > {
        let news = if self.clients.contains(sender) {
            Seq::<OutboundView>::empty()
        } else {
            to_each(self.joined(sender, now).clients, arrival(sender))
        };
        news + self.delivered(sender, frame, now).replies(sender, frame, now)
    }

    /// What the clients are sent after a frame from `sender` has been dealt
    /// with, `self` being the session after it.
    pub open spec fn replies(self, sender: Seq<char>, frame: ClientFrameView, now: u64) -> Seq<OutboundView> {
        match frame {
            ClientFrameView::Operation(_) => to_each(
                self.clients,
                ServerMessageView::ClientOperation(self.history.last()),
            ),
            ClientFrameView::Ping(sent) => seq![
                OutboundView {
                    recipient: sender,
                    message: ServerMessageView::Pong(elapsed_since(now, sent)),
                },
            ],
        }
    }
}

/// One room of clients and the project they share.
#[derive(Debug)]
pub struct VideoSession {
    metadata: Metadata,
    project: VideoProject,
    clients: Vec<String>,
    last_activity: u64,
    history: Vec<OTOperation>,
}

impl View for VideoSession {
    type V = SessionView;

    closed spec fn view(&self) -> SessionView {
        SessionView {
            metadata: self.metadata@,
            project: self.project@,
            clients: roster_view(self.clients@),
            last_activity: self.last_activity,
            history: operation_views(self.history@),
        }
    }
}

impl VideoSession {
    /// A session with a new project under a random id. No client has
    /// joined, nothing is committed, and the last activity is `now`.
    pub fn new(metadata: Metadata, now: u64) -> (r: VideoSession)
        ensures
            exists|project_id: Seq<char>|
                is_uuid_text(project_id) && r@ == SessionView::fresh(metadata@, project_id, now),
            r@.well_formed(),
    {
        let project_id = fresh_uuid();
        VideoSession::with_project_id(metadata, project_id, now)
    }

    /// A session with a new project under `project_id`. The project is named
    /// after the session and has the collaborator `server`.
    pub fn with_project_id(metadata: Metadata, project_id: String, now: u64) -> (r: VideoSession)
        ensures
            r@ == SessionView::fresh(metadata@, project_id@, now),
            r@.well_formed(),
    {
        let project = VideoProject::new(
            project_id,
            metadata.name.clone(),
            String::from_str("server"),
            String::from_str("Server"),
        );
        let clients: Vec<String> = Vec::new();
        let history: Vec<OTOperation> = Vec::new();
        assert(roster_view(clients@) =~= Seq::<Seq<char>>::empty());
        assert(operation_views(history@) =~= Seq::<OTOperationView>::empty());
        VideoSession { metadata, project, clients, last_activity: now, history }
    }

    pub fn metadata(&self) -> (r: &Metadata)
        ensures
            r@ == self@.metadata,
    {
        &self.metadata
    }

    /// The project as it stands.
    pub fn project(&self) -> (r: &VideoProject)
        ensures
            r@ == self@.project,
    {
        &self.project
    }

    /// The ids of the clients that have joined, in the order of arrival.
    pub fn clients(&self) -> (r: &Vec<String>)
        ensures
            roster_view(r@) == self@.clients,
    {
        &self.clients
    }

    /// The number of edits committed so far.
    pub fn server_version(&self) -> (r: u64)
        ensures
            r == self@.server_version(),
    {
        self.history.len() as u64
    }

    /// The time of the last activity, in milliseconds.
    pub fn last_activity(&self) -> (r: u64)
        ensures
            r == self@.last_activity,
    {
        self.last_activity
    }

    /// Every committed edit, oldest first.
    pub fn history(&self) -> (r: &Vec<OTOperation>)
        ensures
            operation_views(r@) == self@.history,
    {
        &self.history
    }

    /// Whether `client_id` stands in the roster.
    pub fn has_client(&self, client_id: &str) -> (r: bool)
        ensures
            r == self@.clients.contains(client_id@),
    {
        let mut i: usize = 0;
        while i < self.clients.len()
            invariant
                i <= self.clients.len(),
                forall|j: int| 0 <= j < i ==> #[trigger] self@.clients[j] != client_id@,
            decreases self.clients.len() - i,
        {
            if text::equal(self.clients[i].as_str(), client_id) {
                assert(self@.clients[i as int] == client_id@);
                return true;
            }
            i += 1;
        }
        false
    }

    /// `op` transformed against every committed edit that its sender has
    /// not seen, oldest first.
    pub fn rebase(&self, op: &OTOperation) -> (r: OTOperation)
        ensures
            r@ == self@.rebased(op@),
    {
        let n = self.history.len();
        let version = n as u64;
        let start: usize = if op.server_version <= version {
            op.server_version as usize
        } else {
            n
        };
        let ghost all = self@.history;
        assert(self@.pending(op.server_version) =~= all.skip(start as int));
        let mut current = op.clone();
        let mut i: usize = start;
        while i < n
            invariant
                start <= i <= n,
                n == self.history.len(),
                all == self@.history,
                rebase(all.skip(start as int), op@, version) == rebase(
                    all.skip(i as int),
                    current@,
                    version,
                ),
            decreases n - i,
        {
            proof {
                assert(all.skip(i as int)[0] == all[i as int]);
                assert(all.skip(i as int).drop_first() =~= all.skip(i + 1));
            }
            current = VideoProject::transform_operation(&self.history[i], &current, version);
            i += 1;
        }
        current
    }

    /// Carries out `operation` as it is, gives it the next version and
    /// keeps it among the committed edits. Gives back the edit as committed.
    pub fn apply_operation(&mut self, operation: &OTOperation) -> (r: OTOperation)
        requires
            old(self)@.well_formed(),
        ensures
            final(self)@ == old(self)@.committed(operation@),
            final(self)@.well_formed(),
            final(self)@.server_version() == old(self)@.server_version() + 1,
            r@ == final(self)@.history.last(),
            r@ == operation@.stamped(final(self)@.server_version() as u64),
    {
        let ghost before = operation_views(self.history@);
        self.project.apply_operation(&operation.operation);
        let mut committed = operation.clone();
        self.history.push(operation.clone());
        let version = self.history.len() as u64;
        committed.server_version = version;
        let last = self.history.len() - 1;
        self.history[last].server_version = version;
        assert(operation_views(self.history@) =~= before.push(operation@.stamped(version)));
        committed
    }

    /// Commits an edit that a client has sent: notes the activity,
    /// transforms the edit against what its sender has not seen, carries it
    /// out, gives it the next version, and addresses a copy of the committed
    /// edit to every client, the sender among them.
    pub fn submit(&mut self, op: &OTOperation, now: u64) -> (r: Vec<Outbound>)
        requires
            old(self)@.well_formed(),
        ensures
            final(self)@ == old(self)@.submitted(op@, now),
            final(self)@.well_formed(),
            final(self)@.server_version() == old(self)@.server_version() + 1,
            final(self)@.history.last().server_version == final(self)@.server_version(),
            outbound_views(r@) == to_each(
                final(self)@.clients,
                ServerMessageView::ClientOperation(final(self)@.history.last()),
            ),
    {
        self.last_activity = now;
        let rebased = self.rebase(op);
        let committed = self.apply_operation(&rebased);
        self.broadcast_message(&ServerMessage::ClientOperation(committed))
    }

    /// Puts `client_id` on the roster and among the project's collaborators
    /// and notes the activity. Nothing changes where the roster holds the id
    /// already.
    pub fn add_client(&mut self, client_id: String, now: u64)
        requires
            old(self)@.well_formed(),
        ensures
            final(self)@ == old(self)@.joined(client_id@, now),
            final(self)@.well_formed(),
    {
        if !self.has_client(client_id.as_str()) {
            let person = Collaborator::arriving(
                client_id.clone(),
                text::joined("User ", client_id.as_str()),
            );
            self.project.apply_operation(&EditOperation::AddCollaborator(person));
            let ghost before = roster_view(self.clients@);
            self.clients.push(client_id);
            assert(roster_view(self.clients@) =~= before.push(client_id@));
            self.last_activity = now;
        }
    }

    /// Takes `client_id` off the roster and out of the project's
    /// collaborators.
    pub fn remove_client(&mut self, client_id: &str)
        requires
            old(self)@.well_formed(),
        ensures
            final(self)@ == old(self)@.left(client_id@),
            final(self)@.well_formed(),
    {
        self.project.apply_operation(&EditOperation::RemoveCollaborator(client_id.to_owned()));
        let mut source: Vec<String> = Vec::new();
        core::mem::swap(&mut source, &mut self.clients);
        let ghost all = roster_view(source@);
        let ghost keep = |c: Seq<char>| c != client_id@;
        let mut kept: Vec<String> = Vec::new();
        assert(all.take(0).filter(keep) =~= Seq::<Seq<char>>::empty()) by {
            reveal(Seq::filter);
        }
        for id in it: source
            invariant
                all == roster_view(it.seq()),
                keep == |c: Seq<char>| c != client_id@,
                roster_view(kept@) == all.take(it.index() as int).filter(keep),
        {
            proof {
                lemma_filter_next(all, keep, it.index() as int);
            }
            let ghost before = roster_view(kept@);
            if !text::equal(id.as_str(), client_id) {
                kept.push(id);
                assert(roster_view(kept@) =~= before.push(id@));
            }
        }
        assert(all.take(all.len() as int) =~= all);
        self.clients = kept;
        proof {
            let at = lemma_filter_embeds(all, keep);
            let rest = without_id(all, client_id@);
            assert forall|i: int, j: int| 0 <= i < j < rest.len() implies #[trigger] rest[i]
                != #[trigger] rest[j] by {
                assert(at[i] < at[j]);
                assert(all[at[i]] != all[at[j]]);
            }
        }
    }

    /// One copy of `message` for each client on the roster, in the order of
    /// arrival.
    pub fn broadcast_message(&self, message: &ServerMessage) -> (r: Vec<Outbound>)
        ensures
            outbound_views(r@) == to_each(self@.clients, message@),
    {
        let mut out: Vec<Outbound> = Vec::new();
        let mut i: usize = 0;
        while i < self.clients.len()
            invariant
                i <= self.clients.len(),
                out.len() == i,
                forall|j: int|
                    0 <= j < i ==> (#[trigger] out@[j])@ == (OutboundView {
                        recipient: self.clients@[j]@,
                        message: message@,
                    }),
            decreases self.clients.len() - i,
        {
            out.push(Outbound { recipient: self.clients[i].clone(), message: message.clone() });
            i += 1;
        }
        assert(outbound_views(out@) =~= to_each(self@.clients, message@));
        out
    }

    /// A client joins: it is put on the roster, and where it was not there
    /// before, every client is told, the newcomer among them. The newcomer is
    /// handed the project and the version it stands at.
    pub fn join(&mut self, client_id: &str, now: u64) -> (r: Joined)
        requires
            old(self)@.well_formed(),
        ensures
            final(self)@ == old(self)@.joined(client_id@, now),
            final(self)@.well_formed(),
            r.project@ == final(self)@.project,
            r.server_version == final(self)@.server_version(),
            outbound_views(r.announcements@) == if old(self)@.clients.contains(client_id@) {
                Seq::<OutboundView>::empty()
            } else {
                to_each(final(self)@.clients, arrival(client_id@))
            },
    {
        let known = self.has_client(client_id);
        self.add_client(client_id.to_owned(), now);
        let announcements = if known {
            let none: Vec<Outbound> = Vec::new();
            assert(outbound_views(none@) =~= Seq::<OutboundView>::empty());
            none
        } else {
            self.broadcast_message(
                &ServerMessage::NewClient {
                    client_id: client_id.to_owned(),
                    name: text::joined("User ", client_id),
                },
            )
        };
        Joined {
            project: self.project.clone(),
            server_version: self.server_version(),
            announcements,
        }
    }

    /// The id for a client that drew `start`: `user-` and the first number
    /// from `start` on, back to zero after the last, whose id is not on the
    /// roster.
    pub fn free_client_id(&self, start: u32) -> (r: String)
        ensures
            r@ == assigned_id(self@.clients, start),
            self@.clients.len() < 0x1_0000_0000 ==> !self@.clients.contains(r@),
    {
        proof {
            if self@.clients.len() < 0x1_0000_0000 {
                lemma_assigned_id_is_free(self@.clients, start);
            }
        }
        let n = self.clients.len();
        let mut number = start;
        let mut k: usize = 0;
        loop
            invariant
                k <= n,
                n == self.clients.len(),
                number == probe(start, k as nat),
                first_free(self@.clients, start, 0) == first_free(self@.clients, start, k as nat),
                self@.clients.len() < 0x1_0000_0000 ==> !self@.clients.contains(
                    assigned_id(self@.clients, start),
                ),
            decreases n - k,
        {
            let id = client_id_for(number);
            if k >= n || !self.has_client(id.as_str()) {
                return id;
            }
            number = if number == u32::MAX {
                0
            } else {
                number + 1
            };
            k += 1;
        }
    }

    /// A client arrives without an id: it draws a random number, is given
    /// the id that [`VideoSession::free_client_id`] finds from there, and
    /// joins under it. Gives back the id and what [`VideoSession::join`]
    /// gives.
    pub fn connect(&mut self, now: u64) -> (r: (String, Joined))
        requires
            old(self)@.well_formed(),
        ensures
            exists|start: u32| r.0@ == assigned_id(old(self)@.clients, start),
            old(self)@.clients.len() < 0x1_0000_0000 ==> !old(self)@.clients.contains(r.0@),
            final(self)@ == old(self)@.joined(r.0@, now),
            final(self)@.well_formed(),
            r.1.project@ == final(self)@.project,
            r.1.server_version == final(self)@.server_version(),
            outbound_views(r.1.announcements@) == if old(self)@.clients.contains(r.0@) {
                Seq::<OutboundView>::empty()
            } else {
                to_each(final(self)@.clients, arrival(r.0@))
            },
    {
        let start = random_u32();
        let client_id = self.free_client_id(start);
        let joined = self.join(client_id.as_str(), now);
        (client_id, joined)
    }

    /// A client goes: it is taken off the roster and out of the project's
    /// collaborators, and every client that remains is told.
    pub fn leave(&mut self, client_id: &str) -> (r: Vec<Outbound>)
        requires
            old(self)@.well_formed(),
        ensures
            final(self)@ == old(self)@.left(client_id@),
            final(self)@.well_formed(),
            outbound_views(r@) == to_each(
                final(self)@.clients,
                ServerMessageView::ClientDisconnected(client_id@),
            ),
    {
        self.remove_client(client_id);
        self.broadcast_message(&ServerMessage::ClientDisconnected(client_id.to_owned()))
    }

    /// A probe that carries the time `now`.
    pub fn send_ping(&self, now: u64) -> (r: ServerMessage)
        ensures
            r@ == ServerMessageView::Ping(now),
    {
        ServerMessage::Ping(now)
    }

    /// The answer to a probe sent at `received_time`: the milliseconds that
    /// have gone by until `now`, and zero where `received_time` lies after
    /// `now`.
    pub fn send_pong(&self, now: u64, received_time: u64) -> (r: ServerMessage)
        ensures
            r@ == ServerMessageView::Pong(elapsed_since(now, received_time)),
    {
        if received_time <= now {
            ServerMessage::Pong(now - received_time)
        } else {
            ServerMessage::Pong(0)
        }
    }

    /// Deals with a frame that `sender` has sent. An edit is committed and
    /// handed to every client; a probe is answered to its sender alone, with
    /// what [`VideoSession::send_pong`] gives, and changes nothing.
    pub fn receive(&mut self, sender: &str, frame: &ClientFrame, now: u64) -> (r: Vec<Outbound>)
        requires
            old(self)@.well_formed(),
        ensures
            final(self)@ == old(self)@.received(frame@, now),
            final(self)@.well_formed(),
            outbound_views(r@) == final(self)@.replies(sender@, frame@, now),
    {
        match frame {
            ClientFrame::Operation(op) => self.submit(op, now),
            ClientFrame::Ping(sent) => {
                let mut out: Vec<Outbound> = Vec::new();
                out.push(
                    Outbound { recipient: sender.to_owned(), message: self.send_pong(now, *sent) },
                );
                assert(outbound_views(out@) =~= self@.replies(sender@, frame@, now));
                out
            },
        }
    }

    /// Takes a frame from a connection that goes by `sender`. Where the
    /// sender is not on the roster, as after the session was made anew, it
    /// joins first and every client is told; then the frame is dealt with as
    /// [`VideoSession::receive`] does.
    pub fn deliver(&mut self, sender: &str, frame: &ClientFrame, now: u64) -> (r: Vec<Outbound>)
        requires
            old(self)@.well_formed(),
        ensures
            final(self)@ == old(self)@.delivered(sender@, frame@, now),
            final(self)@.well_formed(),
            outbound_views(r@) == old(self)@.delivery(sender@, frame@, now),
    {
        let mut out = self.join(sender, now).announcements;
        let ghost news = outbound_views(out@);
        let mut replies = self.receive(sender, frame, now);
        let ghost answers = outbound_views(replies@);
        out.append(&mut replies);
        assert(outbound_views(out@) =~= news + answers);
        out
    }

    /// Whether the session has been idle at `now` for longer than `limit`.
    /// A session whose last activity lies after `now` has not been idle.
    pub fn expired(&self, now: u64, limit: TimeSpan) -> (r: bool)
        ensures
            r == self@.expired(now, limit@),
    {
        if now >= self.last_activity {
            let idle: u128 = (now - self.last_activity) as u128;
            idle * NANOS_PER_MILLI > limit.nanos
        } else {
            false
        }
    }
}

} // verus!
