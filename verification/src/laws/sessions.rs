//! Laws on sessions.

use crate::clock::Timestamp;
use crate::json::{compact_text, member, Json};
use crate::session::model::{
    compaction_in, fresh_session, no_compaction, with_compaction, CompactionStateView, SessionView,
};
use crate::session::records::{session_read, session_record};
use vstd::prelude::*;

verus! {

/// A new session has its id and its profile, was made and last changed at the time given, and holds
/// nothing: no turns, no summary, no measured input.
pub proof fn law_new_sessions_hold_nothing(id: Seq<char>, profile_name: Seq<char>, now: Timestamp)
    ensures
        ({
            let session = fresh_session(id, profile_name, now);
            &&& session.id == id
            &&& session.profile_name == profile_name
            &&& session.created_at == now
            &&& session.updated_at == now
            &&& session.turns.len() == 0
            &&& session.metadata == Map::<Seq<char>, Json>::empty()
            &&& session.compaction().summary is None
            &&& session.compaction().summarized_through == 0
            &&& session.compaction().last_input_tokens is None
            &&& session.compaction().updated_at is None
        }),
{
}

/// A turn goes behind the turns that are there, with who spoke, what was said and when. The session
/// is marked as changed and is otherwise as it was.
pub proof fn law_turns_are_appended(
    session: SessionView,
    role: Seq<char>,
    content: Seq<char>,
    stamped: Timestamp,
    updated: Timestamp,
)
    ensures
        ({
            let after = session.with_turn(role, content, stamped, updated);
            &&& after.turns.len() == session.turns.len() + 1
            &&& forall|i: int|
                0 <= i < session.turns.len() ==> #[trigger] after.turns[i] == session.turns[i]
            &&& after.turns.last().role == role
            &&& after.turns.last().content == content
            &&& after.turns.last().timestamp == stamped
            &&& after.updated_at == updated
            &&& after.created_at == session.created_at
            &&& after.id == session.id
            &&& after.profile_name == session.profile_name
            &&& after.metadata == session.metadata
            &&& after.compaction() == session.compaction()
        }),
{
}

/// What is known of a session's compaction is kept among its metadata under one key, and nothing
/// else of the metadata changes.
pub proof fn law_other_metadata_stays(
    metadata: Map<Seq<char>, Json>,
    state: CompactionStateView,
    key: Seq<char>,
)
    requires
        key != "__compaction"@,
    ensures
        with_compaction(metadata, state).contains_key(key) == metadata.contains_key(key),
        metadata.contains_key(key) ==> with_compaction(metadata, state)[key] == metadata[key],
        !metadata.contains_key("__compaction"@) ==> compaction_in(metadata) == no_compaction(),
{
}

/// What is kept of a session's compaction is written under its names: the summary, the mark it
/// reaches, the size of the last input, and when it was written; what is not known is left out.
pub proof fn law_compaction_is_written_whole(
    metadata: Map<Seq<char>, Json>,
    state: CompactionStateView,
)
    ensures
        ({
            let kept = member(
                Json::Object(with_compaction(metadata, state)),
                "__compaction"@,
            );
            &&& member(kept, "summarizedThrough"@) == Json::Unsigned(
                state.summarized_through as u64,
            )
            &&& member(kept, "summary"@) == match state.summary {
                Some(s) => Json::Text(s),
                None => Json::Null,
            }
            &&& member(kept, "lastInputTokens"@) == match state.last_input_tokens {
                Some(n) => Json::Unsigned(n as u64),
                None => Json::Null,
            }
            &&& member(kept, "updatedAt"@) == match state.updated_at {
                Some(t) => Json::Text(t),
                None => Json::Null,
            }
        }),
{
    reveal_strlit("summarizedThrough");
    reveal_strlit("summary");
    reveal_strlit("lastInputTokens");
    reveal_strlit("updatedAt");
    assert("summarizedThrough"@.len() == 17 && "summary"@.len() == 7 && "lastInputTokens"@.len()
        == 15 && "updatedAt"@.len() == 9);
}

/// A record holds a session's id and profile and, one for one, its turns with who spoke and what
/// was said; and a session that is read from a record holds what the record holds.
pub proof fn law_records_hold_the_turns(session: SessionView, fallback: Timestamp)
    ensures
        ({
            let record = session_record(session);
            let read = session_read(record, fallback);
            &&& record.id == session.id
            &&& record.profile_name == session.profile_name
            &&& record.turns.len() == session.turns.len()
            &&& forall|i: int|
                0 <= i < session.turns.len() ==> (#[trigger] record.turns[i]).role
                    == session.turns[i].role && record.turns[i].content == session.turns[i].content
                    && record.turns[i].timestamp == crate::clock::stamp(session.turns[i].timestamp)
            &&& record.created_at == crate::clock::stamp(session.created_at)
            &&& record.updated_at == crate::clock::stamp(session.updated_at)
            &&& record.metadata == compact_text(Json::Object(session.metadata))
            &&& read.id == session.id
            &&& read.profile_name == session.profile_name
            &&& read.turns.len() == session.turns.len()
            &&& forall|i: int|
                0 <= i < session.turns.len() ==> (#[trigger] read.turns[i]).role
                    == session.turns[i].role && read.turns[i].content == session.turns[i].content
        }),
{
}

} // verus!
