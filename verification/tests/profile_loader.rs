//! Loading profiles: what is read, in which order, and what the cache keeps.

use priest::profile::filesystem_loader::{
    compute_cache_key, counts_as_memory, memory_order, LoadDecision, MemoryFile, ProfileCache,
    ProfileContents, ProfileFiles,
};
use priest::profile::model::Profile;
use priest::PriestError;

/// A profile's directory: its files with contents and modification times.
struct Directory {
    identity: Option<(String, u64)>,
    rules: Option<(String, u64)>,
    custom: Option<(String, u64)>,
    memories: Vec<(String, String, u64)>,
}

fn directory(identity: &str, modified: u64) -> Directory {
    Directory {
        identity: Some((identity.into(), modified)),
        rules: None,
        custom: None,
        memories: vec![],
    }
}

fn no_directory() -> Directory {
    Directory { identity: None, rules: None, custom: None, memories: vec![] }
}

fn memory(name: &str, modified: u64) -> MemoryFile {
    MemoryFile {
        name: name.as_bytes().to_vec(),
        extension: name.rsplit_once('.').map(|(_, extension)| extension.to_string()),
        modified: Some(modified),
    }
}

fn files(dir: &Directory) -> Option<ProfileFiles> {
    dir.identity.as_ref()?;
    Some(ProfileFiles {
        own: [&dir.identity, &dir.rules, &dir.custom]
            .into_iter()
            .flatten()
            .map(|file| Some(file.1))
            .collect(),
        memories: dir.memories.iter().map(|(name, _, modified)| memory(name, *modified)).collect(),
    })
}

fn load(cache: &mut ProfileCache, name: &str, dir: &Directory) -> Result<Profile, PriestError> {
    match cache.find(name, files(dir).as_ref()) {
        LoadDecision::Return(outcome) => outcome,
        LoadDecision::Read { memories, key } => {
            let contents = ProfileContents {
                identity: dir.identity.as_ref().unwrap().0.clone(),
                rules: dir.rules.as_ref().map(|file| file.0.clone()),
                custom: dir.custom.as_ref().map(|file| file.0.clone()),
                memories: memories.iter().map(|i| dir.memories[*i].1.clone()).collect(),
            };
            cache.loaded(name, key, Ok(contents))
        }
    }
}

#[test]
fn loads_profile_from_directory() {
    let profile = load(&mut ProfileCache::new(), "bot", &directory("I am a bot.", 1)).unwrap();
    assert_eq!(profile.name, "bot");
    assert_eq!(profile.identity, "I am a bot.");
}

#[test]
fn falls_back_to_default_when_name_is_default() {
    let profile = load(&mut ProfileCache::new(), "default", &no_directory()).unwrap();
    assert_eq!(profile.name, "default");
    assert!(!profile.identity.is_empty());
}

#[test]
fn throws_when_profile_not_found_and_not_default() {
    let outcome = load(&mut ProfileCache::new(), "missing", &no_directory());
    assert!(outcome.is_err());
    assert!(matches!(outcome, Err(PriestError::ProfileNotFound { profile }) if profile == "missing"));
}

#[test]
fn loads_rules_and_custom() {
    let mut dir = directory("ID.", 1);
    dir.rules = Some(("Be concise.".into(), 1));
    dir.custom = Some(("Custom text.".into(), 1));
    let profile = load(&mut ProfileCache::new(), "bot", &dir).unwrap();
    assert_eq!(profile.rules, "Be concise.");
    assert_eq!(profile.custom, "Custom text.");
}

#[test]
fn loads_profile_memories_by_default() {
    let mut dir = directory("ID.", 1);
    dir.memories.push(("01-facts.md".into(), "Remember me.".into(), 1));
    let profile = load(&mut ProfileCache::new(), "bot", &dir).unwrap();
    assert_eq!(profile.memories, vec!["Remember me."]);
}

#[test]
fn can_disable_profile_memory_loading() {
    let mut dir = directory("ID.", 1);
    dir.memories.push(("01-facts.md".into(), "Remember me.".into(), 1));
    let mut cache = ProfileCache::with_include_memories(false);
    let profile = load(&mut cache, "bot", &dir).unwrap();
    assert!(profile.memories.is_empty());
}

#[test]
fn cache_hit_serves_stale_content_when_mtime_unchanged() {
    let pinned = 1_700_000_000_000_000_000;
    let mut cache = ProfileCache::new();
    let first = load(&mut cache, "bot", &directory("v1.", pinned)).unwrap();
    assert_eq!(first.identity, "v1.");

    // Other contents under the same time.
    let second = load(&mut cache, "bot", &directory("v2.", pinned)).unwrap();
    assert_eq!(
        second.identity, "v1.",
        "cache should serve stale entry when mtime unchanged"
    );
}

#[test]
fn cache_invalidation_reloads_after_file_modified() {
    let mut cache = ProfileCache::new();
    let first = load(&mut cache, "bot", &directory("Bot v1.", 1)).unwrap();
    assert_eq!(first.identity, "Bot v1.");

    let second = load(&mut cache, "bot", &directory("Bot v2.", 3)).unwrap();
    assert_eq!(second.identity, "Bot v2.");
}

#[test]
fn cache_invalidation_reloads_when_file_added() {
    let mut cache = ProfileCache::new();
    let mut dir = directory("Bot.", 1);
    let first = load(&mut cache, "bot", &dir).unwrap();
    assert!(first.rules.is_empty());

    dir.rules = Some(("Be concise.".into(), 3));
    let second = load(&mut cache, "bot", &dir).unwrap();
    assert_eq!(second.rules, "Be concise.");
}

#[test]
fn cache_key_ignores_memory_files_when_disabled() {
    let mut cache = ProfileCache::with_include_memories(false);
    let mut dir = directory("Bot.", 1);
    let first = load(&mut cache, "bot", &dir).unwrap();

    dir.memories.push(("01-facts.md".into(), "New memory.".into(), 3));
    assert!(matches!(cache.find("bot", files(&dir).as_ref()), LoadDecision::Return(Ok(_))));
    let second = load(&mut cache, "bot", &dir).unwrap();
    assert_eq!(second.identity, first.identity);
    assert!(second.memories.is_empty());
}

#[test]
fn profiles_are_kept_apart_and_failures_are_not_kept() {
    let mut cache = ProfileCache::new();
    load(&mut cache, "a", &directory("A.", 1)).unwrap();
    load(&mut cache, "b", &directory("B.", 1)).unwrap();
    assert_eq!(load(&mut cache, "a", &directory("?", 1)).unwrap().identity, "A.");
    assert_eq!(load(&mut cache, "b", &directory("?", 1)).unwrap().identity, "B.");

    let changed = directory("C.", 2);
    match cache.find("a", files(&changed).as_ref()) {
        LoadDecision::Read { key, .. } => {
            let outcome = cache.loaded("a", key, Err("denied".into()));
            assert!(matches!(
                outcome,
                Err(PriestError::ProfileInvalid { profile, reason })
                    if profile == "a" && reason == "denied"
            ));
        }
        _ => panic!("expected to read"),
    }
    assert_eq!(load(&mut cache, "a", &directory("?", 1)).unwrap().identity, "A.");
}

#[test]
fn the_key_is_the_latest_time_and_the_number_of_files() {
    let all = ProfileFiles {
        own: vec![Some(5), None, Some(9)],
        memories: vec![memory("a.md", 20), memory("b.rs", 30), memory("c.txt", 7)],
    };
    let key = compute_cache_key(&all, true);
    assert_eq!((key.max_mtime, key.file_count), (20, 5));
    let key = compute_cache_key(&all, false);
    assert_eq!((key.max_mtime, key.file_count), (9, 3));
    let key = compute_cache_key(&ProfileFiles { own: vec![], memories: vec![] }, true);
    assert_eq!((key.max_mtime, key.file_count), (0, 0));
}

#[test]
fn memories_are_read_in_the_order_of_their_names() {
    let memories = vec![
        memory("b.md", 1),
        memory("skip.json", 1),
        memory("a.txt", 1),
        memory("B.md", 1),
        memory("a.md", 1),
    ];
    assert_eq!(memory_order(&memories), vec![3, 4, 2, 0]);
    assert!(counts_as_memory(&memories[0]));
    assert!(!counts_as_memory(&memories[1]));
    assert!(!counts_as_memory(&memory("md", 1)));
    assert!(memory_order(&vec![]).is_empty());
}
