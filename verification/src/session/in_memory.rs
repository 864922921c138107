//! Sessions kept in memory.

use super::model::{fresh_session, Session, SessionView};
use crate::clock;
use crate::clock::Timestamp;
use crate::lists;
use crate::named;
use crate::named::by_name;
use vstd::prelude::*;

verus! {

/// Sessions kept in memory, each under its id.
#[derive(Debug)]
pub struct InMemorySessionStore {
    sessions: Vec<(String, Session)>,
}

impl View for InMemorySessionStore {
    type V = Map<Seq<char>, SessionView>;

    closed spec fn view(&self) -> Map<Seq<char>, SessionView> {
        by_name(self.sessions.deep_view())
    }
}

impl InMemorySessionStore {
    /// A store without sessions.
    pub fn new() -> (r: Self)
        ensures
            r@ == Map::<Seq<char>, SessionView>::empty(),
    {
        let r = InMemorySessionStore { sessions: lists::no_items() };
        assert(r@ =~= Map::empty());
        r
    }

    /// The session with an id, if there is one.
    pub fn get(&self, id: &str) -> (r: Option<Session>)
        ensures
            match r {
                Some(session) => self@.contains_key(id@) && self@[id@] == session.deep_view(),
                None => !self@.contains_key(id@),
            },
    {
        match named::find(&self.sessions, id) {
            Some(i) => Some(self.sessions[i].1.clone()),
            None => None,
        }
    }

    /// Makes a session now and keeps it, under the given id or else a fresh one. A session that was
    /// kept under that id is replaced.
    pub fn create(&mut self, profile_name: &str, id: Option<&str>) -> (r: Session)
        ensures
            final(self)@ == old(self)@.insert(r.deep_view().id, r.deep_view()),
            id is Some ==> r.deep_view().id == id->0@,
            id is None ==> clock::is_uuid_text(r.deep_view().id),
            exists|now: Timestamp|
                now.is_instant() && r.deep_view() == #[trigger] fresh_session(
                    r.deep_view().id,
                    profile_name@,
                    now,
                ),
    {
        let session = Session::create(profile_name, id);
        self.save(&session);
        session
    }

    /// Makes a session at the given time and keeps it.
    pub fn create_at(&mut self, profile_name: &str, id: &str, now: Timestamp) -> (r: Session)
        ensures
            r.deep_view() == fresh_session(id@, profile_name@, now),
            final(self)@ == old(self)@.insert(id@, r.deep_view()),
    {
        let session = Session::new_at(id, profile_name, now);
        self.save(&session);
        session
    }

    /// Keeps a session, in place of one with the same id.
    pub fn save(&mut self, session: &Session)
        ensures
            final(self)@ == old(self)@.insert(session.deep_view().id, session.deep_view()),
    {
        named::put(&mut self.sessions, session.id.as_str(), session.clone());
    }
}

/// A session that was saved is found as it was saved, and the other sessions are as before.
pub proof fn law_saved_sessions_are_found(
    store: Map<Seq<char>, SessionView>,
    session: SessionView,
    id: Seq<char>,
)
    ensures
        ({
            let after = store.insert(session.id, session);
            if id == session.id {
                after.contains_key(id) && after[id] == session
            } else {
                after.contains_key(id) == store.contains_key(id) && after[id] == store[id]
            }
        }),
{
}

impl Default for InMemorySessionStore {
    fn default() -> (r: Self)
        ensures
            r@ == Map::<Seq<char>, SessionView>::empty(),
    {
        InMemorySessionStore::new()
    }
}

} // verus!
