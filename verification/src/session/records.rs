//! Sessions as they are stored in a database: instants and metadata as text.

use super::model::{
    law_compaction_reads_back, CompactionStateView, Session, SessionView, Turn, TurnView,
    COMPACTION_METADATA_KEY,
};
use crate::clock;
use crate::clock::{stamp, stamp_read, Timestamp};
use crate::json;
use crate::json::{compact_text, is_plain, json_of_text, max_nesting, members, object_view, Json};
use crate::lists;
use serde_json::Value;
use vstd::prelude::*;

verus! {

/// A turn as it is stored.
#[derive(Debug)]
pub struct TurnRecord {
    pub role: String,
    pub content: String,
    pub timestamp: String,
}

/// What a `TurnRecord` holds.
pub struct TurnRecordView {
    pub role: Seq<char>,
    pub content: Seq<char>,
    pub timestamp: Seq<char>,
}

impl DeepView for TurnRecord {
    type V = TurnRecordView;

    open spec fn deep_view(&self) -> TurnRecordView {
        TurnRecordView {
            role: self.role@,
            content: self.content@,
            timestamp: self.timestamp@,
        }
    }
}

/// A session as it is stored.
#[derive(Debug)]
pub struct SessionRecord {
    pub id: String,
    pub profile_name: String,
    pub created_at: String,
    pub updated_at: String,
    /// The metadata as the text of a JSON object.
    pub metadata: String,
    pub turns: Vec<TurnRecord>,
}

/// What a `SessionRecord` holds.
pub struct SessionRecordView {
    pub id: Seq<char>,
    pub profile_name: Seq<char>,
    pub created_at: Seq<char>,
    pub updated_at: Seq<char>,
    pub metadata: Seq<char>,
    pub turns: Seq<TurnRecordView>,
}

impl DeepView for SessionRecord {
    type V = SessionRecordView;

    open spec fn deep_view(&self) -> SessionRecordView {
        SessionRecordView {
            id: self.id@,
            profile_name: self.profile_name@,
            created_at: self.created_at@,
            updated_at: self.updated_at@,
            metadata: self.metadata@,
            turns: self.turns.deep_view(),
        }
    }
}

/// A turn as it is stored.
pub open spec fn turn_record(turn: TurnView) -> TurnRecordView {
    TurnRecordView {
        role: turn.role,
        content: turn.content,
        timestamp: stamp(turn.timestamp),
    }
}

/// A session as it is stored.
pub open spec fn session_record(session: SessionView) -> SessionRecordView {
    SessionRecordView {
        id: session.id,
        profile_name: session.profile_name,
        created_at: stamp(session.created_at),
        updated_at: stamp(session.updated_at),
        metadata: compact_text(Json::Object(session.metadata)),
        turns: Seq::new(session.turns.len(), |i: int| turn_record(session.turns[i])),
    }
}

/// The metadata that a stored text stands for: none where the text is no JSON object.
pub open spec fn metadata_read(t: Seq<char>) -> Map<Seq<char>, Json> {
    match json_of_text(t) {
        Ok(value) => members(value),
        Err(_) => Map::empty(),
    }
}

/// A stored turn, read again. An instant that cannot be read becomes `fallback`.
pub open spec fn turn_read(record: TurnRecordView, fallback: Timestamp) -> TurnView {
    TurnView {
        role: record.role,
        content: record.content,
        timestamp: stamp_read(record.timestamp, fallback),
    }
}

/// A stored session, read again. An instant that cannot be read becomes `fallback`.
pub open spec fn session_read(record: SessionRecordView, fallback: Timestamp) -> SessionView {
    SessionView {
        id: record.id,
        profile_name: record.profile_name,
        created_at: stamp_read(record.created_at, fallback),
        updated_at: stamp_read(record.updated_at, fallback),
        turns: Seq::new(record.turns.len(), |i: int| turn_read(record.turns[i], fallback)),
        metadata: metadata_read(record.metadata),
    }
}

/// Whether all instants of a session can be written.
pub open spec fn has_instants(session: SessionView) -> bool {
    &&& session.created_at.is_instant()
    &&& session.updated_at.is_instant()
    &&& forall|i: int|
        0 <= i < session.turns.len() ==> (#[trigger] session.turns[i]).timestamp.is_instant()
}

/// Whether metadata is not nested too deep and holds no numbers but integers of 64 bits.
pub open spec fn is_plain_metadata(metadata: Map<Seq<char>, Json>) -> bool {
    is_plain(Json::Object(metadata), max_nesting())
}

/// Whether a session comes back from the database as a whole.
pub open spec fn is_storable(session: SessionView) -> bool {
    has_instants(session) && is_plain_metadata(session.metadata)
}

/// A session without what is finer than a microsecond.
pub open spec fn to_the_microsecond(session: SessionView) -> SessionView {
    SessionView {
        created_at: session.created_at.to_the_microsecond(),
        updated_at: session.updated_at.to_the_microsecond(),
        turns: Seq::new(
            session.turns.len(),
            |i: int|
                TurnView {
                    timestamp: session.turns[i].timestamp.to_the_microsecond(),
                    ..session.turns[i]
                },
        ),
        ..session
    }
}

proof fn lemma_plain_member(members: Map<Seq<char>, Json>, depth: nat, key: Seq<char>)
    requires
        is_plain(Json::Object(members), depth),
        members.contains_key(key),
    ensures
        depth > 0,
        is_plain(members[key], (depth - 1) as nat),
{
    let object = Json::Object(members);
    assert(object->Object_0.contains_key(key));
}

/// Compaction state never stands in the way: a session that comes back from the database still does
/// with any compaction state in its metadata, and then the state comes back with it.
pub proof fn law_compaction_is_storable(
    session: SessionView,
    state: CompactionStateView,
    updated: Timestamp,
)
    requires
        is_storable(session),
        updated.is_instant(),
    ensures
        is_storable(session.with_compaction(state, updated)),
        to_the_microsecond(session.with_compaction(state, updated)).compaction() == state,
{
    law_compaction_reads_back(session.metadata, state);
    let after = session.with_compaction(state, updated).metadata;
    let deep = max_nesting();
    assert forall|key: Seq<char>| #[trigger] state.stored().contains_key(key) implies is_plain(
        state.stored()[key],
        (deep - 2) as nat,
    ) by {}
    assert(is_plain(Json::Object(state.stored()), (deep - 1) as nat));
    assert(is_plain(Json::Object(session.metadata), deep));
    assert forall|key: Seq<char>| #[trigger] after.contains_key(key) implies is_plain(
        after[key],
        (deep - 1) as nat,
    ) by {
        if key == COMPACTION_METADATA_KEY@ {
            assert(after[key] == Json::Object(state.stored()));
        } else {
            lemma_plain_member(session.metadata, deep, key);
        }
    }
}

/// Writes a session as it is stored. Read again, id, profile, instants and turns come back to the
/// microsecond, whatever the metadata holds; and the metadata comes back wherever it is plain.
pub fn write_session(session: &Session) -> (r: SessionRecord)
    requires
        has_instants(session.deep_view()),
    ensures
        r.deep_view() == session_record(session.deep_view()),
        forall|fallback: Timestamp| #[trigger]
            session_read(r.deep_view(), fallback) == (SessionView {
                metadata: metadata_read(r.deep_view().metadata),
                ..to_the_microsecond(session.deep_view())
            }),
        is_plain_metadata(session.deep_view().metadata) ==> metadata_read(r.deep_view().metadata)
            == session.deep_view().metadata,
        is_storable(session.deep_view()) ==> forall|fallback: Timestamp| #[trigger]
            session_read(r.deep_view(), fallback) == to_the_microsecond(session.deep_view()),
{
    let ghost view = session.deep_view();
    let ghost all = session_record(view).turns;
    let mut turns: Vec<TurnRecord> = lists::no_items();
    let mut i: usize = 0;
    assert(turns.deep_view() =~= all.take(0));
    while i < session.turns.len()
        invariant
            i <= session.turns@.len(),
            view == session.deep_view(),
            has_instants(view),
            all == session_record(view).turns,
            turns.deep_view() == all.take(i as int),
            forall|k: int, fallback: Timestamp|
                0 <= k < i ==> (#[trigger] turn_read(all[k], fallback)) == (TurnView {
                    timestamp: view.turns[k].timestamp.to_the_microsecond(),
                    ..view.turns[k]
                }),
        decreases session.turns@.len() - i,
    {
        let turn = &session.turns[i];
        assert(turn.deep_view() == view.turns[i as int]);
        let timestamp = clock::format_stamp(&turn.timestamp);
        let record = TurnRecord {
            role: turn.role.clone(),
            content: turn.content.clone(),
            timestamp,
        };
        assert(record.deep_view() == all[i as int]);
        assert forall|fallback: Timestamp| (#[trigger] turn_read(all[i as int], fallback)) == (
        TurnView {
            timestamp: view.turns[i as int].timestamp.to_the_microsecond(),
            ..view.turns[i as int]
        }) by {
            assert(stamp_read(timestamp@, fallback)
                == view.turns[i as int].timestamp.to_the_microsecond());
        }
        lists::push_item(&mut turns, record);
        i += 1;
        assert(turns.deep_view() =~= all.take(i as int));
    }
    assert(all.take(i as int) =~= all);
    let r = SessionRecord {
        id: session.id.clone(),
        profile_name: session.profile_name.clone(),
        created_at: clock::format_stamp(&session.created_at),
        updated_at: clock::format_stamp(&session.updated_at),
        metadata: write_metadata(&session.metadata),
        turns,
    };
    proof {
        assert forall|fallback: Timestamp| #[trigger]
            session_read(r.deep_view(), fallback) == (SessionView {
                metadata: metadata_read(r.deep_view().metadata),
                ..to_the_microsecond(view)
            }) by {
            assert(stamp_read(r.created_at@, fallback) == view.created_at.to_the_microsecond());
            assert(stamp_read(r.updated_at@, fallback) == view.updated_at.to_the_microsecond());
            let again = session_read(r.deep_view(), fallback);
            assert forall|k: int| 0 <= k < view.turns.len() implies #[trigger] again.turns[k]
                == to_the_microsecond(view).turns[k] by {
                assert(again.turns[k] == turn_read(all[k], fallback));
            }
            assert(again.turns =~= to_the_microsecond(view).turns);
        }
    }
    r
}

/// Writes metadata as the text of a JSON object.
pub fn write_metadata(metadata: &serde_json::Map<String, Value>) -> (r: String)
    ensures
        r@ == compact_text(Json::Object(object_view(*metadata))),
        is_plain_metadata(object_view(*metadata)) ==> metadata_read(r@) == object_view(*metadata),
{
    json::compact(&json::from_object(metadata.clone()))
}

/// Reads metadata from the text of a JSON object.
pub fn read_metadata(t: &str) -> (r: serde_json::Map<String, Value>)
    ensures
        object_view(r) == metadata_read(t@),
{
    match json::parse(t) {
        Ok(value) => json::members_of(&value),
        Err(_) => serde_json::Map::new(),
    }
}

/// Reads a stored instant. One that cannot be read becomes the current time.
pub fn parse_ts(t: &str) -> (r: Timestamp)
    ensures
        exists|now: Timestamp| now.is_instant() && r == #[trigger] stamp_read(t@, now),
        r.is_instant(),
{
    let now = clock::now();
    clock::parse_stamp(t, now)
}

/// Reads a stored session. An instant that cannot be read becomes the current time.
pub fn read_session(record: &SessionRecord) -> (r: Session)
    ensures
        exists|now: Timestamp|
            now.is_instant() && r.deep_view() == #[trigger] session_read(record.deep_view(), now),
{
    let now = clock::now();
    let r = read_session_at(record, now);
    assert(r.deep_view() == session_read(record.deep_view(), now));
    r
}

/// Reads a stored session. An instant that cannot be read becomes `fallback`.
pub fn read_session_at(record: &SessionRecord, fallback: Timestamp) -> (r: Session)
    ensures
        r.deep_view() == session_read(record.deep_view(), fallback),
        fallback.is_instant() ==> has_instants(r.deep_view()),
{
    let ghost view = record.deep_view();
    let ghost all = session_read(view, fallback).turns;
    let mut turns: Vec<Turn> = lists::no_items();
    let mut i: usize = 0;
    assert(turns.deep_view() =~= all.take(0));
    while i < record.turns.len()
        invariant
            i <= record.turns@.len(),
            view == record.deep_view(),
            all == session_read(view, fallback).turns,
            turns.deep_view() == all.take(i as int),
            fallback.is_instant() ==> forall|k: int|
                0 <= k < i ==> (#[trigger] all[k]).timestamp.is_instant(),
        decreases record.turns@.len() - i,
    {
        let turn = &record.turns[i];
        assert(turn.deep_view() == view.turns[i as int]);
        let read = Turn {
            role: turn.role.clone(),
            content: turn.content.clone(),
            timestamp: clock::parse_stamp(turn.timestamp.as_str(), fallback),
        };
        assert(read.deep_view() == all[i as int]);
        lists::push_item(&mut turns, read);
        i += 1;
        assert(turns.deep_view() =~= all.take(i as int));
    }
    assert(all.take(i as int) =~= all);
    Session {
        id: record.id.clone(),
        profile_name: record.profile_name.clone(),
        created_at: clock::parse_stamp(record.created_at.as_str(), fallback),
        updated_at: clock::parse_stamp(record.updated_at.as_str(), fallback),
        turns,
        metadata: read_metadata(record.metadata.as_str()),
    }
}

} // verus!
