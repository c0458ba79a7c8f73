//! The directory of sessions, one for each room.

use crate::config::ServerConfig;
use crate::entropy::is_uuid_text;
use crate::message::{outbound_views, Outbound};
use crate::sequences::{lemma_filter_embeds, lemma_filter_next};
use crate::session::{ClientFrame, Metadata, MetadataView, SessionView, VideoSession};
use crate::text;
use vstd::prelude::*;

verus! {

/// A session under its id.
#[derive(Debug)]
pub struct SessionEntry {
    id: String,
    session: VideoSession,
}

/// A session and the id it stands under, as mathematical values.
pub struct EntryView {
    pub id: Seq<char>,
    pub session: SessionView,
}

impl View for SessionEntry {
    type V = EntryView;

    closed spec fn view(&self) -> EntryView {
        EntryView { id: self.id@, session: self.session@ }
    }
}

/// The views of a run of entries, in order.
pub open spec fn entry_views(entries: Seq<SessionEntry>) -> Seq<EntryView> {
    entries.map_values(|e: SessionEntry| e@)
}

/// Whether some entry of the run stands under `id`.
pub open spec fn has_session(entries: Seq<EntryView>, id: Seq<char>) -> bool {
    exists|i: int| 0 <= i < entries.len() && (#[trigger] entries[i]).id == id
}

/// The entries whose sessions have not been idle at `now` for longer than
/// `limit` nanoseconds.
pub open spec fn still_active(entries: Seq<EntryView>, now: u64, limit: nat) -> Seq<EntryView> {
    entries.filter(|e: EntryView| !e.session.expired(now, limit))
}

/// What a [`SessionManager`] holds, as mathematical values.
pub struct ManagerView {
    pub config: ServerConfig,
    /// The sessions in the order in which they were made.
    pub entries: Seq<EntryView>,
}

impl ManagerView {
    /// Whether the directory is in order: no two sessions stand under the
    /// same id, and each session is well formed.
    pub open spec fn well_formed(self) -> bool {
        &&& forall|i: int, j: int|
            0 <= i < j < self.entries.len() ==> (#[trigger] self.entries[i]).id != (
            #[trigger] self.entries[j]).id
        &&& forall|i: int|
            0 <= i < self.entries.len() ==> (#[trigger] self.entries[i]).session.well_formed()
    }

    /// What a session made for the room `id` at the time `now` is told
    /// about itself.
    pub open spec fn metadata_for(self, id: Seq<char>, now: u64) -> MetadataView {
        MetadataView {
            name: id,
            created_at: now,
            max_duration: self.config.session_max_duration@,
        }
    }
}

/// The sessions of a server, each under the id of its room.
#[derive(Debug)]
pub struct SessionManager {
    config: ServerConfig,
    entries: Vec<SessionEntry>,
}

impl View for SessionManager {
    type V = ManagerView;

    closed spec fn view(&self) -> ManagerView {
        ManagerView { config: self.config, entries: entry_views(self.entries@) }
    }
}

impl SessionManager {
    /// A directory with no sessions and the standard settings.
    pub fn new() -> (r: SessionManager)
        ensures
            r@.config == ServerConfig::standard(),
            r@.entries.len() == 0,
            r@.well_formed(),
    {
        SessionManager::with_config(ServerConfig::default())
    }

    /// A directory with no sessions and the given settings.
    pub fn with_config(config: ServerConfig) -> (r: SessionManager)
        ensures
            r@.config == config,
            r@.entries.len() == 0,
            r@.well_formed(),
    {
        SessionManager { config, entries: Vec::new() }
    }

    pub fn config(&self) -> (r: ServerConfig)
        ensures
            r == self@.config,
    {
        self.config
    }

    /// The number of sessions.
    pub fn len(&self) -> (r: usize)
        ensures
            r == self@.entries.len(),
    {
        self.entries.len()
    }

    /// The place of the first session that stands under `id`, if there is
    /// one.
    pub fn position(&self, id: &str) -> (r: Option<usize>)
        ensures
            match r {
                Some(i) => {
                    &&& i < self@.entries.len()
                    &&& self@.entries[i as int].id == id@
                    &&& forall|j: int| 0 <= j < i ==> (#[trigger] self@.entries[j]).id != id@
                },
                None => !has_session(self@.entries, id@),
            },
    {
        let mut i: usize = 0;
        while i < self.entries.len()
            invariant
                i <= self.entries.len(),
                forall|j: int| 0 <= j < i ==> (#[trigger] self@.entries[j]).id != id@,
            decreases self.entries.len() - i,
        {
            if text::equal(self.entries[i].id.as_str(), id) {
                assert(self@.entries[i as int].id == id@);
                return Some(i);
            }
            i += 1;
        }
        None
    }

    /// The id under which the session at `index` stands.
    pub fn session_id(&self, index: usize) -> (r: &String)
        requires
            index < self@.entries.len(),
        ensures
            r@ == self@.entries[index as int].id,
    {
        &self.entries[index].id
    }

    /// The session at `index`.
    pub fn session(&self, index: usize) -> (r: &VideoSession)
        requires
            index < self@.entries.len(),
        ensures
            r@ == self@.entries[index as int].session,
    {
        &self.entries[index].session
    }

    /// The session at `index`, to work on. The directory afterwards holds
    /// the session as the caller leaves it, and everything else as it was.
    pub fn session_mut(&mut self, index: usize) -> (r: &mut VideoSession)
        requires
            index < old(self)@.entries.len(),
        ensures
            r@ == old(self)@.entries[index as int].session,
            final(self)@.config == old(self)@.config,
            final(self)@.entries =~= old(self)@.entries.update(
                index as int,
                EntryView { id: old(self)@.entries[index as int].id, session: final(r)@ },
            ),
    {
        &mut self.entries[index].session
    }

    /// The place of the session for the room `id`. Where the directory holds
    /// none, one is made first, with a new project under a random id, and
    /// put last.
    pub fn get_or_create_session(&mut self, id: &str, now: u64) -> (r: usize)
        requires
            old(self)@.well_formed(),
        ensures
            final(self)@.well_formed(),
            final(self)@.config == old(self)@.config,
            r < final(self)@.entries.len(),
            final(self)@.entries[r as int].id == id@,
            has_session(old(self)@.entries, id@) ==> final(self)@ == old(self)@,
            !has_session(old(self)@.entries, id@) ==> r == old(self)@.entries.len() && exists|
                project_id: Seq<char>,
            |
                is_uuid_text(project_id) && final(self)@.entries == old(self)@.entries.push(
                    EntryView {
                        id: id@,
                        session: SessionView::fresh(
                            old(self)@.metadata_for(id@, now),
                            project_id,
                            now,
                        ),
                    },
                ),
    {
        match self.position(id) {
            Some(i) => i,
            None => {
                let metadata = Metadata {
                    name: id.to_owned(),
                    created_at: now,
                    max_duration: self.config.session_max_duration,
                };
                let ghost told = metadata@;
                let session = VideoSession::new(metadata, now);
                let ghost before = entry_views(self.entries@);
                let ghost added = EntryView { id: id@, session: session@ };
                let ghost project_id = choose|project_id: Seq<char>|
                    is_uuid_text(project_id) && session@ == SessionView::fresh(
                        told,
                        project_id,
                        now,
                    );
                self.entries.push(SessionEntry { id: id.to_owned(), session });
                assert(entry_views(self.entries@) =~= before.push(added));
                assert(added == EntryView {
                    id: id@,
                    session: SessionView::fresh(
                        old(self)@.metadata_for(id@, now),
                        project_id,
                        now,
                    ),
                });
                self.entries.len() - 1
            },
        }
    }

    /// Takes a frame from a connection to the room `id` that goes by
    /// `sender`. The session for the room is made first where the directory
    /// holds none, as after it was dropped for being idle; then the frame is
    /// delivered to it as [`VideoSession::deliver`] does. Gives back what the
    /// clients of that session are sent.
    pub fn deliver(&mut self, id: &str, sender: &str, frame: &ClientFrame, now: u64) -> (r: Vec<
        Outbound,
    >)
        requires
            old(self)@.well_formed(),
        ensures
            final(self)@.well_formed(),
            final(self)@.config == old(self)@.config,
            has_session(old(self)@.entries, id@) ==> exists|i: int|
                0 <= i < old(self)@.entries.len() && (#[trigger] old(self)@.entries[i]).id == id@
                    && final(self)@.entries == old(self)@.entries.update(
                    i,
                    EntryView {
                        id: id@,
                        session: old(self)@.entries[i].session.delivered(sender@, frame@, now),
                    },
                ) && outbound_views(r@) == old(self)@.entries[i].session.delivery(
                    sender@,
                    frame@,
                    now,
                ),
            !has_session(old(self)@.entries, id@) ==> exists|project_id: Seq<char>|
                is_uuid_text(project_id) && final(self)@.entries == old(self)@.entries.push(
                    EntryView {
                        id: id@,
                        session: SessionView::fresh(
                            old(self)@.metadata_for(id@, now),
                            project_id,
                            now,
                        ).delivered(sender@, frame@, now),
                    },
                ) && outbound_views(r@) == SessionView::fresh(
                    old(self)@.metadata_for(id@, now),
                    project_id,
                    now,
                ).delivery(sender@, frame@, now),
    {
        let index = self.get_or_create_session(id, now);
        let ghost made = self@.entries;
        let ghost before = made[index as int].session;
        let session = self.session_mut(index);
        let out = session.deliver(sender, frame, now);
        proof {
            let after = before.delivered(sender@, frame@, now);
            assert(self@.entries == made.update(index as int, EntryView { id: id@, session: after }));
            if has_session(old(self)@.entries, id@) {
                assert(old(self)@.entries[index as int].id == id@);
            } else {
                let project_id = choose|project_id: Seq<char>|
                    is_uuid_text(project_id) && made == old(self)@.entries.push(
                        EntryView {
                            id: id@,
                            session: SessionView::fresh(
                                old(self)@.metadata_for(id@, now),
                                project_id,
                                now,
                            ),
                        },
                    );
                assert(self@.entries =~= old(self)@.entries.push(
                    EntryView { id: id@, session: after },
                ));
            }
        }
        out
    }

    /// Drops every session that has been idle at `now` for longer than the
    /// settings allow. The others stay as they are, in their order; a
    /// session that has been idle for exactly as long as allowed stays.
    pub fn cleanup_inactive_sessions(&mut self, now: u64)
        requires
            old(self)@.well_formed(),
        ensures
            final(self)@.well_formed(),
            final(self)@.config == old(self)@.config,
            final(self)@.entries == still_active(
                old(self)@.entries,
                now,
                old(self)@.config.session_idle_ttl@,
            ),
    {
        let limit = self.config.session_idle_ttl;
        let mut source: Vec<SessionEntry> = Vec::new();
        core::mem::swap(&mut source, &mut self.entries);
        let ghost all = entry_views(source@);
        assert(all == old(self)@.entries);
        let ghost keep = |e: EntryView| !e.session.expired(now, limit@);
        let mut kept: Vec<SessionEntry> = Vec::new();
        assert(all.take(0).filter(keep) =~= Seq::<EntryView>::empty()) by {
            reveal(Seq::filter);
        }
        for entry in it: source
            invariant
                all == entry_views(it.seq()),
                keep == |e: EntryView| !e.session.expired(now, limit@),
                entry_views(kept@) == all.take(it.index() as int).filter(keep),
        {
            proof {
                lemma_filter_next(all, keep, it.index() as int);
            }
            let ghost before = entry_views(kept@);
            if !entry.session.expired(now, limit) {
                kept.push(entry);
                assert(entry_views(kept@) =~= before.push(entry@));
            }
        }
        assert(all.take(all.len() as int) =~= all);
        self.entries = kept;
        proof {
            let at = lemma_filter_embeds(all, keep);
            let rest = all.filter(keep);
            assert forall|i: int, j: int| 0 <= i < j < rest.len() implies (#[trigger] rest[i]).id
                != (#[trigger] rest[j]).id by {
                assert(at[i] < at[j]);
                assert(all[at[i]].id != all[at[j]].id);
            }
            assert forall|i: int| 0 <= i < rest.len() implies (
            #[trigger] rest[i]).session.well_formed() by {
                assert(rest[i] == all[at[i]]);
            }
        }
    }
}

} // verus!
