//! Sessions: an ordered list of turns, and the compaction state that rides in their metadata.

use crate::clock;
use crate::clock::Timestamp;
use crate::json;
use crate::json::{member, object_view, text, unsigned, unsigned_32, with_member, Json};
use serde_json::Value;
use vstd::prelude::*;

verus! {

/// Conversation-compaction state is persisted inside session metadata under this reserved key, with
/// exact camelCase field names.
pub const COMPACTION_METADATA_KEY: &'static str = "__compaction";

/// Decoded view of the compaction state in a session's metadata.
#[derive(Debug)]
pub struct CompactionState {
    pub summary: Option<String>,
    pub summarized_through: usize,
    pub last_input_tokens: Option<u32>,
    pub updated_at: Option<String>,
}

/// What a `CompactionState` holds.
pub struct CompactionStateView {
    pub summary: Option<Seq<char>>,
    pub summarized_through: usize,
    pub last_input_tokens: Option<u32>,
    pub updated_at: Option<Seq<char>>,
}

impl DeepView for CompactionState {
    type V = CompactionStateView;

    open spec fn deep_view(&self) -> CompactionStateView {
        CompactionStateView {
            summary: self.summary.deep_view(),
            summarized_through: self.summarized_through,
            last_input_tokens: self.last_input_tokens,
            updated_at: self.updated_at.deep_view(),
        }
    }
}

/// The state of a session that was never compacted.
pub open spec fn no_compaction() -> CompactionStateView {
    CompactionStateView {
        summary: None,
        summarized_through: 0,
        last_input_tokens: None,
        updated_at: None,
    }
}

impl Default for CompactionState {
    fn default() -> (r: Self)
        ensures
            r.deep_view() == no_compaction(),
    {
        CompactionState {
            summary: None,
            summarized_through: 0,
            last_input_tokens: None,
            updated_at: None,
        }
    }
}

impl CompactionStateView {
    /// The state as it is stored: `summarizedThrough` always, the other members where there is
    /// something to say.
    pub open spec fn stored(self) -> Map<Seq<char>, Json> {
        let through = Map::empty().insert(
            "summarizedThrough"@,
            Json::Unsigned(self.summarized_through as u64),
        );
        let with_summary = with_member(
            through,
            "summary"@,
            match self.summary {
                Some(s) => Some(Json::Text(s)),
                None => None,
            },
        );
        let with_tokens = with_member(
            with_summary,
            "lastInputTokens"@,
            match self.last_input_tokens {
                Some(n) => Some(Json::Unsigned(n as u64)),
                None => None,
            },
        );
        with_member(
            with_tokens,
            "updatedAt"@,
            match self.updated_at {
                Some(t) => Some(Json::Text(t)),
                None => None,
            },
        )
    }
}

/// The compaction state that metadata holds: the empty state where it holds none.
pub open spec fn compaction_in(metadata: Map<Seq<char>, Json>) -> CompactionStateView {
    if metadata.contains_key(COMPACTION_METADATA_KEY@)
        && metadata[COMPACTION_METADATA_KEY@] is Object {
        let stored = metadata[COMPACTION_METADATA_KEY@];
        CompactionStateView {
            summary: text(member(stored, "summary"@)),
            summarized_through: match unsigned(member(stored, "summarizedThrough"@)) {
                Some(n) => n as usize,
                None => 0,
            },
            last_input_tokens: unsigned_32(member(stored, "lastInputTokens"@)),
            updated_at: text(member(stored, "updatedAt"@)),
        }
    } else {
        no_compaction()
    }
}

/// Metadata with its compaction state replaced.
pub open spec fn with_compaction(
    metadata: Map<Seq<char>, Json>,
    state: CompactionStateView,
) -> Map<Seq<char>, Json> {
    metadata.insert(COMPACTION_METADATA_KEY@, Json::Object(state.stored()))
}

/// What was stored as compaction state is read back unchanged, whatever else the metadata holds.
pub proof fn law_compaction_reads_back(
    metadata: Map<Seq<char>, Json>,
    state: CompactionStateView,
)
    ensures
        compaction_in(with_compaction(metadata, state)) == state,
{
    reveal_strlit("summarizedThrough");
    reveal_strlit("summary");
    reveal_strlit("lastInputTokens");
    reveal_strlit("updatedAt");
    let stored = state.stored();
    assert("summarizedThrough"@.len() == 17);
    assert("summary"@.len() == 7);
    assert("lastInputTokens"@.len() == 15);
    assert("updatedAt"@.len() == 9);
    assert(stored.contains_key("summarizedThrough"@));
    assert(stored.contains_key("summary"@) == state.summary is Some);
    assert(stored.contains_key("lastInputTokens"@) == state.last_input_tokens is Some);
    assert(stored.contains_key("updatedAt"@) == state.updated_at is Some);
    assert(member(Json::Object(stored), "summarizedThrough"@) == Json::Unsigned(
        state.summarized_through as u64,
    ));
}

/// One message of a conversation.
#[derive(Debug)]
pub struct Turn {
    pub role: String,
    pub content: String,
    pub timestamp: Timestamp,
}

/// What a `Turn` holds.
pub struct TurnView {
    pub role: Seq<char>,
    pub content: Seq<char>,
    pub timestamp: Timestamp,
}

impl DeepView for Turn {
    type V = TurnView;

    open spec fn deep_view(&self) -> TurnView {
        TurnView { role: self.role@, content: self.content@, timestamp: self.timestamp }
    }
}

impl Clone for Turn {
    fn clone(&self) -> (r: Self)
        ensures
            r.deep_view() == self.deep_view(),
    {
        Turn {
            role: self.role.clone(),
            content: self.content.clone(),
            timestamp: self.timestamp,
        }
    }
}

/// A conversation.
#[derive(Debug)]
pub struct Session {
    pub id: String,
    pub profile_name: String,
    pub created_at: Timestamp,
    pub updated_at: Timestamp,
    pub turns: Vec<Turn>,
    pub metadata: serde_json::Map<String, Value>,
}

/// What a `Session` holds.
pub struct SessionView {
    pub id: Seq<char>,
    pub profile_name: Seq<char>,
    pub created_at: Timestamp,
    pub updated_at: Timestamp,
    pub turns: Seq<TurnView>,
    pub metadata: Map<Seq<char>, Json>,
}

impl DeepView for Session {
    type V = SessionView;

    open spec fn deep_view(&self) -> SessionView {
        SessionView {
            id: self.id@,
            profile_name: self.profile_name@,
            created_at: self.created_at,
            updated_at: self.updated_at,
            turns: self.turns.deep_view(),
            metadata: object_view(self.metadata),
        }
    }
}

impl Clone for Session {
    fn clone(&self) -> (r: Self)
        ensures
            r.deep_view() == self.deep_view(),
    {
        let r = Session {
            id: self.id.clone(),
            profile_name: self.profile_name.clone(),
            created_at: self.created_at,
            updated_at: self.updated_at,
            turns: self.turns.clone(),
            metadata: self.metadata.clone(),
        };
        assert(r.turns.deep_view() =~= self.turns.deep_view());
        r
    }
}

/// A session without turns.
pub open spec fn fresh_session(
    id: Seq<char>,
    profile_name: Seq<char>,
    now: Timestamp,
) -> SessionView {
    SessionView {
        id,
        profile_name,
        created_at: now,
        updated_at: now,
        turns: Seq::empty(),
        metadata: Map::empty(),
    }
}

impl SessionView {
    /// The session with one more turn.
    pub open spec fn with_turn(
        self,
        role: Seq<char>,
        content: Seq<char>,
        stamped: Timestamp,
        updated: Timestamp,
    ) -> SessionView {
        SessionView {
            turns: self.turns.push(TurnView { role, content, timestamp: stamped }),
            updated_at: updated,
            ..self
        }
    }

    /// The session's compaction state.
    pub open spec fn compaction(self) -> CompactionStateView {
        compaction_in(self.metadata)
    }

    /// The session with its compaction state replaced.
    pub open spec fn with_compaction(
        self,
        state: CompactionStateView,
        updated: Timestamp,
    ) -> SessionView {
        SessionView {
            metadata: with_compaction(self.metadata, state),
            updated_at: updated,
            ..self
        }
    }

    /// The session after a turn's input size was recorded.
    pub open spec fn with_input_tokens(
        self,
        tokens: Option<u32>,
        updated: Timestamp,
    ) -> SessionView {
        match tokens {
            Some(n) => self.with_compaction(
                CompactionStateView { last_input_tokens: Some(n), ..self.compaction() },
                updated,
            ),
            None => self,
        }
    }

    /// The session after its first `through` turns were folded into `summary`.
    pub open spec fn with_summary(
        self,
        summary: Seq<char>,
        through: usize,
        stamped: Timestamp,
        updated: Timestamp,
    ) -> SessionView {
        self.with_compaction(
            CompactionStateView {
                summary: Some(summary),
                summarized_through: through,
                updated_at: Some(clock::stamp(stamped)),
                ..self.compaction()
            },
            updated,
        )
    }
}

impl Session {
    /// A session without turns, made now.
    pub fn new(id: &str, profile_name: &str) -> (r: Self)
        ensures
            exists|now: Timestamp|
                now.is_instant() && #[trigger] fresh_session(id@, profile_name@, now)
                    == r.deep_view(),
    {
        let now = clock::now();
        let r = Session::new_at(id, profile_name, now);
        assert(fresh_session(id@, profile_name@, now) == r.deep_view());
        r
    }

    /// A session without turns, made now, under the given id or else a fresh one.
    pub fn create(profile_name: &str, id: Option<&str>) -> (r: Self)
        ensures
            id is Some ==> r.deep_view().id == id->0@,
            id is None ==> clock::is_uuid_text(r.deep_view().id),
            exists|now: Timestamp|
                now.is_instant() && #[trigger] fresh_session(
                    r.deep_view().id,
                    profile_name@,
                    now,
                ) == r.deep_view(),
    {
        let session_id = match id {
            Some(given) => given.to_owned(),
            None => clock::fresh_id(),
        };
        Session::new(session_id.as_str(), profile_name)
    }

    /// A session without turns, made at the given time.
    pub fn new_at(id: &str, profile_name: &str, now: Timestamp) -> (r: Self)
        ensures
            r.deep_view() == fresh_session(id@, profile_name@, now),
    {
        let r = Session {
            id: id.to_owned(),
            profile_name: profile_name.to_owned(),
            created_at: now,
            updated_at: now,
            turns: Vec::new(),
            metadata: serde_json::Map::new(),
        };
        assert(r.turns.deep_view() =~= Seq::empty());
        r
    }

    /// Adds a turn, stamped with the current time.
    pub fn append_turn(&mut self, role: &str, content: &str)
        ensures
            exists|stamped: Timestamp, updated: Timestamp|
                stamped.is_instant() && updated.is_instant() && final(self).deep_view()
                    == #[trigger] old(self).deep_view().with_turn(role@, content@, stamped, updated),
    {
        let stamped = clock::now();
        let updated = clock::now();
        self.append_turn_at(role, content, stamped, updated);
    }

    /// Adds a turn stamped with `stamped`, to a session last changed at `updated`.
    pub fn append_turn_at(
        &mut self,
        role: &str,
        content: &str,
        stamped: Timestamp,
        updated: Timestamp,
    )
        ensures
            final(self).deep_view() == old(self).deep_view().with_turn(
                role@,
                content@,
                stamped,
                updated,
            ),
    {
        self.turns.push(
            Turn { role: role.to_owned(), content: content.to_owned(), timestamp: stamped },
        );
        self.updated_at = updated;
        assert(self.turns.deep_view() =~= old(self).deep_view().with_turn(
            role@,
            content@,
            stamped,
            updated,
        ).turns);
    }

    /// The stored text of an instant.
    pub fn format_timestamp(t: &Timestamp) -> (r: String)
        requires
            t.is_instant(),
        ensures
            r@ == clock::stamp(*t),
            clock::reads_back(*t),
    {
        clock::format_stamp(t)
    }

    /// The compaction state in the session's metadata. Empty state when unset.
    pub fn get_compaction(&self) -> (r: CompactionState)
        ensures
            r.deep_view() == self.deep_view().compaction(),
    {
        match json::get(&self.metadata, COMPACTION_METADATA_KEY) {
            Some(stored) => {
                if stored.as_object().is_none() {
                    return CompactionState::default();
                }
                let through: usize = match json::at(stored, "summarizedThrough").as_u64() {
                    Some(n) => #[verifier::truncate] (n as usize),
                    None => 0,
                };
                CompactionState {
                    summary: json::text_at(stored, "summary"),
                    summarized_through: through,
                    last_input_tokens: json::unsigned_at(stored, "lastInputTokens"),
                    updated_at: json::text_at(stored, "updatedAt"),
                }
            },
            None => CompactionState::default(),
        }
    }

    /// Stores compaction state in the session's metadata.
    fn set_compaction(&mut self, state: &CompactionState, updated: Timestamp)
        ensures
            final(self).deep_view() == old(self).deep_view().with_compaction(
                state.deep_view(),
                updated,
            ),
    {
        let mut stored: serde_json::Map<String, Value> = serde_json::Map::new();
        json::put(
            &mut stored,
            "summarizedThrough",
            json::from_unsigned(state.summarized_through as u64),
        );
        if let Some(summary) = &state.summary {
            json::put(&mut stored, "summary", json::from_text(summary.as_str()));
        }
        if let Some(tokens) = state.last_input_tokens {
            json::put(&mut stored, "lastInputTokens", json::from_unsigned(tokens as u64));
        }
        if let Some(updated_at) = &state.updated_at {
            json::put(&mut stored, "updatedAt", json::from_text(updated_at.as_str()));
        }
        json::put(&mut self.metadata, COMPACTION_METADATA_KEY, json::from_object(stored));
        self.updated_at = updated;
    }

    /// Records the most recent turn's input size, which decides when to compact. Nothing changes
    /// where the size is unknown.
    pub fn record_input_tokens(&mut self, tokens: Option<u32>)
        ensures
            exists|updated: Timestamp|
                updated.is_instant() && final(self).deep_view() == #[trigger] old(
                    self,
                ).deep_view().with_input_tokens(tokens, updated),
    {
        let updated = clock::now();
        self.record_input_tokens_at(tokens, updated);
    }

    /// Records the most recent turn's input size, at the given time.
    pub fn record_input_tokens_at(&mut self, tokens: Option<u32>, updated: Timestamp)
        ensures
            final(self).deep_view() == old(self).deep_view().with_input_tokens(tokens, updated),
    {
        if tokens.is_none() {
            return;
        }
        let mut state = self.get_compaction();
        state.last_input_tokens = tokens;
        self.set_compaction(&state, updated);
    }

    /// Folds the first `summarized_through` turns into `summary`. The raw turns stay as they are.
    pub fn apply_compaction(&mut self, summary: String, summarized_through: usize)
        ensures
            exists|stamped: Timestamp, updated: Timestamp|
                stamped.is_instant() && updated.is_instant() && final(self).deep_view()
                    == #[trigger] old(self).deep_view().with_summary(
                    summary@,
                    summarized_through,
                    stamped,
                    updated,
                ),
    {
        let stamped = clock::now();
        let updated = clock::now();
        self.apply_compaction_at(summary, summarized_through, stamped, updated);
    }

    /// Folds the first `summarized_through` turns into `summary`, at the given time.
    pub fn apply_compaction_at(
        &mut self,
        summary: String,
        summarized_through: usize,
        stamped: Timestamp,
        updated: Timestamp,
    )
        requires
            stamped.is_instant(),
        ensures
            final(self).deep_view() == old(self).deep_view().with_summary(
                summary@,
                summarized_through,
                stamped,
                updated,
            ),
    {
        let mut state = self.get_compaction();
        state.summary = Some(summary);
        state.summarized_through = summarized_through;
        state.updated_at = Some(Session::format_timestamp(&stamped));
        self.set_compaction(&state, updated);
    }
}

/// Folding turns into a summary leaves the raw turns as they are, and leaves the recorded input
/// size; the summary and how far it reaches are read back.
pub proof fn law_compaction_keeps_raw_turns(
    session: SessionView,
    summary: Seq<char>,
    through: usize,
    stamped: Timestamp,
    updated: Timestamp,
)
    ensures
        ({
            let after = session.with_summary(summary, through, stamped, updated);
            &&& after.turns == session.turns
            &&& after.id == session.id
            &&& after.compaction().summary == Some(summary)
            &&& after.compaction().summarized_through == through
            &&& after.compaction().last_input_tokens == session.compaction().last_input_tokens
        }),
{
    law_compaction_reads_back(
        session.metadata,
        CompactionStateView {
            summary: Some(summary),
            summarized_through: through,
            updated_at: Some(clock::stamp(stamped)),
            ..session.compaction()
        },
    );
}

/// Recording an input size leaves turns and summary as they are, and the size is read back.
pub proof fn law_recorded_tokens_read_back(session: SessionView, tokens: u32, updated: Timestamp)
    ensures
        ({
            let after = session.with_input_tokens(Some(tokens), updated);
            &&& after.turns == session.turns
            &&& after.compaction() == CompactionStateView {
                last_input_tokens: Some(tokens),
                ..session.compaction()
            }
        }),
{
    law_compaction_reads_back(
        session.metadata,
        CompactionStateView { last_input_tokens: Some(tokens), ..session.compaction() },
    );
}

} // verus!
