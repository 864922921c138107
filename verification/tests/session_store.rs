//! Sessions, the store in memory, and what is stored of a session.

use priest::clock::{format_stamp, parse_stamp, Timestamp, FIRST_SECOND, LAST_SECOND};
use priest::session::in_memory::InMemorySessionStore;
use priest::session::model::{Session, COMPACTION_METADATA_KEY};
use priest::session::records::{
    parse_ts, read_metadata, read_session, read_session_at, write_metadata, write_session,
    SessionRecord,
};
use serde_json::Value;
use std::collections::BTreeMap;

fn json(text: &str) -> Value {
    serde_json::from_str(text).unwrap()
}

fn at(seconds: i64, nanos: u32) -> Timestamp {
    Timestamp { seconds, nanos }
}

// ---- The store in memory ----

#[test]
fn in_memory_create_and_get() {
    let mut store = InMemorySessionStore::new();
    let sess = store.create("default", Some("s1"));
    assert_eq!(sess.id, "s1");
    let found = store.get("s1");
    assert!(found.is_some());
}

#[test]
fn in_memory_get_returns_none_for_missing() {
    let store = InMemorySessionStore::new();
    let found = store.get("ghost");
    assert!(found.is_none());
}

#[test]
fn in_memory_save_persists_turns() {
    let mut store = InMemorySessionStore::new();
    let mut sess = store.create("default", Some("s2"));
    sess.append_turn("user", "Hello");
    sess.append_turn("assistant", "Hi");
    store.save(&sess);

    let loaded = store.get("s2").unwrap();
    assert_eq!(loaded.turns.len(), 2);
    assert_eq!(loaded.turns[0].content, "Hello");
}

#[test]
fn in_memory_create_with_no_id_generates_uuid() {
    let mut store = InMemorySessionStore::default();
    let sess = store.create("default", None);
    assert!(!sess.id.is_empty());
    assert_eq!(sess.id.len(), 36); // UUID v4 format
    assert_ne!(store.create("default", None).id, sess.id);
}

#[test]
fn in_memory_keeps_sessions_apart() {
    let mut store = InMemorySessionStore::new();
    let mut a = store.create("p", Some("a"));
    store.create("q", Some("b"));
    a.append_turn("user", "x");
    store.save(&a);
    assert_eq!(store.get("a").unwrap().turns.len(), 1);
    assert_eq!(store.get("b").unwrap().turns.len(), 0);
    assert_eq!(store.get("b").unwrap().profile_name, "q");
    // Creating a session again starts it anew.
    store.create("p", Some("a"));
    assert_eq!(store.get("a").unwrap().turns.len(), 0);
}

// ---- What is stored: rows by id, as a database keeps them ----

type Rows = BTreeMap<String, SessionRecord>;

fn create(rows: &mut Rows, profile_name: &str, id: &str) -> Session {
    let session = Session::new(id, profile_name);
    rows.insert(session.id.clone(), write_session(&session));
    session
}

fn save(rows: &mut Rows, session: &Session) {
    rows.insert(session.id.clone(), write_session(session));
}

fn get(rows: &Rows, id: &str) -> Option<Session> {
    rows.get(id).map(read_session)
}

#[test]
fn sqlite_create_and_get() {
    let mut rows = Rows::new();
    let sess = create(&mut rows, "default", "s1");
    assert_eq!(sess.id, "s1");

    let found = get(&rows, "s1").unwrap();
    assert_eq!(found.id, "s1");
    assert_eq!(found.profile_name, "default");
}

#[test]
fn sqlite_get_returns_none_for_missing() {
    let rows = Rows::new();
    assert!(get(&rows, "ghost").is_none());
}

#[test]
fn sqlite_save_and_reload_turns() {
    let mut rows = Rows::new();
    let mut sess = create(&mut rows, "default", "s2");
    sess.append_turn("user", "Hi");
    sess.append_turn("assistant", "Hello");
    save(&mut rows, &sess);

    let loaded = get(&rows, "s2").unwrap();
    assert_eq!(loaded.turns.len(), 2);
    assert_eq!(loaded.turns[0].role, "user");
    assert_eq!(loaded.turns[1].role, "assistant");
}

#[test]
fn sqlite_save_replaces_turns_on_second_save() {
    let mut rows = Rows::new();
    let mut sess = create(&mut rows, "default", "s3");
    sess.append_turn("user", "first");
    save(&mut rows, &sess);

    sess.append_turn("assistant", "reply");
    save(&mut rows, &sess);

    let loaded = get(&rows, "s3").unwrap();
    assert_eq!(loaded.turns.len(), 2);
}

#[test]
fn sqlite_persists_across_reopen() {
    let stored: SessionRecord = {
        let mut rows = Rows::new();
        let mut sess = create(&mut rows, "default", "persistent");
        sess.append_turn("user", "remembered");
        save(&mut rows, &sess);
        rows.remove("persistent").unwrap()
    };

    let sess = read_session(&stored);
    assert_eq!(sess.turns[0].content, "remembered");
}

#[test]
fn a_stored_session_is_exact() {
    let mut session = Session::new_at("s", "p", at(1_700_000_000, 123_456_789));
    session.append_turn_at("user", "hi", at(1_700_000_001, 0), at(1_700_000_002, 5_000));
    session.metadata.insert("k".into(), json("[1, null]"));
    let record = write_session(&session);
    assert_eq!(record.id, "s");
    assert_eq!(record.profile_name, "p");
    assert_eq!(record.created_at, "2023-11-14T22:13:20.123456+00:00");
    assert_eq!(record.updated_at, "2023-11-14T22:13:22.000005+00:00");
    assert_eq!(record.metadata, "{\"k\":[1,null]}");
    assert_eq!(record.turns.len(), 1);
    assert_eq!(record.turns[0].role, "user");
    assert_eq!(record.turns[0].content, "hi");
    assert_eq!(record.turns[0].timestamp, "2023-11-14T22:13:21.000000+00:00");

    // It comes back to the microsecond.
    let back = read_session_at(&record, at(0, 0));
    assert_eq!((back.created_at.seconds, back.created_at.nanos), (1_700_000_000, 123_456_000));
    assert_eq!((back.updated_at.seconds, back.updated_at.nanos), (1_700_000_002, 5_000));
    assert_eq!(back.turns[0].timestamp.seconds, 1_700_000_001);
    assert_eq!(back.metadata["k"], json("[1, null]"));
}

#[test]
fn integers_in_metadata_come_back() {
    let mut session = Session::new_at("s", "p", at(1_700_000_000, 0));
    let numbers = json("[0, -1, 18446744073709551615, -9223372036854775808]");
    session.metadata.insert("numbers".into(), numbers.clone());
    let back = read_session(&write_session(&session));
    assert_eq!(back.metadata["numbers"], numbers);
}

#[test]
fn turns_come_back_whatever_the_metadata_holds() {
    let mut session = Session::new_at("s", "p", at(1_700_000_000, 0));
    session.append_turn_at("user", "hi", at(1_700_000_001, 7_000), at(1_700_000_002, 0));
    let mut deep = json("1.5e-300");
    for _ in 0..200 {
        deep = Value::Array(vec![deep]);
    }
    session.metadata.insert("deep".into(), deep);
    let back = read_session_at(&write_session(&session), at(0, 0));
    assert_eq!((back.id.as_str(), back.profile_name.as_str()), ("s", "p"));
    assert_eq!(back.updated_at.seconds, 1_700_000_002);
    assert_eq!(back.turns[0].content, "hi");
    assert_eq!((back.turns[0].timestamp.seconds, back.turns[0].timestamp.nanos), (1_700_000_001, 7_000));
    assert!(back.metadata.is_empty());
}

#[test]
fn sessions_are_created_under_a_given_or_a_fresh_id() {
    assert_eq!(Session::create("p", Some("s")).id, "s");
    let fresh = Session::create("p", None);
    assert_eq!((fresh.id.len(), fresh.profile_name.as_str()), (36, "p"));
}

#[test]
fn metadata_that_cannot_be_read_is_empty() {
    assert!(read_metadata("not json").is_empty());
    assert!(read_metadata("[1]").is_empty());
    let map = read_metadata("{\"b\": 2, \"a\": 1}");
    assert_eq!(map.len(), 2);
    assert_eq!(read_metadata(&write_metadata(&map)), map);
}

// ---- Instants ----

#[test]
fn instants_are_read_leniently() {
    let second = (1_700_000_000, 0);
    for text in [
        "2023-11-14T22:13:20",
        "2023-11-14T22:13:20Z",
        "2023-11-14T22:13:20+00:00",
        "2023-11-14T22:13:20.000000+00:00",
        "2023-11-14T22:13:20.000000",
    ] {
        let read = parse_ts(text);
        assert_eq!((read.seconds, read.nanos), second, "{text}");
    }
    let read = parse_stamp("2023-11-14T22:13:20.250000Z", at(0, 0));
    assert_eq!((read.seconds, read.nanos), (1_700_000_000, 250_000_000));
    let read = parse_stamp("yesterday", at(7, 8));
    assert_eq!((read.seconds, read.nanos), (7, 8));
    // Without a fallback of its own, what names no instant is now.
    assert!(parse_ts("yesterday").seconds > 1_700_000_000);
}

#[test]
fn every_instant_comes_back() {
    for (seconds, nanos) in [
        (FIRST_SECOND, 0),
        (FIRST_SECOND, 999_999_000),
        (LAST_SECOND, 999_999_000),
        (LAST_SECOND, 1_500_000_000),
        (-62_167_219_201, 1_000),
        (-62_167_219_200, 0),
        (-1, 1_000_000_000),
        (253_402_300_799, 1_999_999_000),
        (253_402_300_800, 0),
        (1_700_000_000, 1_000),
    ] {
        let text = format_stamp(&at(seconds, nanos));
        let bare = text.strip_suffix("+00:00").unwrap();
        let mut forms = vec![text.clone(), bare.to_string(), format!("{bare}Z")];
        if nanos % 1_000_000_000 == 0 {
            let whole = bare.strip_suffix(".000000").unwrap();
            forms.push(whole.to_string());
            forms.push(format!("{whole}Z"));
            forms.push(format!("{whole}+00:00"));
        }
        for form in forms {
            let read = parse_stamp(&form, at(7, 8));
            assert_eq!((read.seconds, read.nanos), (seconds, nanos), "{form}");
        }
    }
}

#[test]
fn instants_are_written_to_the_microsecond() {
    assert_eq!(format_stamp(&at(0, 0)), "1970-01-01T00:00:00.000000+00:00");
    assert_eq!(Session::format_timestamp(&at(-1, 999_999_999)), "1969-12-31T23:59:59.999999+00:00");
}

// ---- Compaction state ----

#[test]
fn compaction_state_is_written_in_camel_case() {
    let mut session = Session::new_at("s", "p", at(1, 0));
    assert_eq!(session.get_compaction().summarized_through, 0);
    session.record_input_tokens_at(None, at(2, 0));
    assert!(session.metadata.is_empty());
    assert_eq!(session.updated_at.seconds, 1);

    session.record_input_tokens_at(Some(7), at(3, 0));
    assert_eq!(
        session.metadata[COMPACTION_METADATA_KEY],
        json("{\"summarizedThrough\": 0, \"lastInputTokens\": 7}")
    );
    assert_eq!(session.updated_at.seconds, 3);

    session.apply_compaction_at("sum".into(), 4, at(1_700_000_000, 0), at(5, 0));
    assert_eq!(
        session.metadata[COMPACTION_METADATA_KEY],
        json(
            "{\"summarizedThrough\": 4, \"summary\": \"sum\", \"lastInputTokens\": 7, \
             \"updatedAt\": \"2023-11-14T22:13:20.000000+00:00\"}"
        )
    );
    let state = session.get_compaction();
    assert_eq!(state.summary.as_deref(), Some("sum"));
    assert_eq!(state.summarized_through, 4);
    assert_eq!(state.last_input_tokens, Some(7));
    assert_eq!(state.updated_at.as_deref(), Some("2023-11-14T22:13:20.000000+00:00"));
}

#[test]
fn compaction_state_of_another_shape_is_empty() {
    let mut session = Session::new("s", "p");
    session.metadata.insert(COMPACTION_METADATA_KEY.into(), json("\"text\""));
    assert!(session.get_compaction().summary.is_none());
    session.metadata.insert(
        COMPACTION_METADATA_KEY.into(),
        json("{\"summary\": 1, \"summarizedThrough\": -1, \"lastInputTokens\": \"x\"}"),
    );
    let state = session.get_compaction();
    assert!(state.summary.is_none());
    assert_eq!(state.summarized_through, 0);
    assert!(state.last_input_tokens.is_none());
}

#[test]
fn appending_keeps_earlier_turns() {
    let mut session = Session::new("s", "p");
    session.append_turn("user", "a");
    session.append_turn("assistant", "b");
    session.apply_compaction("x".into(), 1);
    session.record_input_tokens(Some(3));
    let contents: Vec<&str> = session.turns.iter().map(|t| t.content.as_str()).collect();
    assert_eq!(contents, vec!["a", "b"]);
    assert!(session.turns[0].timestamp.seconds > 1_700_000_000);
}
