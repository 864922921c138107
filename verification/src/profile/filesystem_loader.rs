//! Profiles out of files: what is read, in what order, and when what was read before is still good.

use super::default_profile::{built_in_default, default_profile_view};
use super::model::{Profile, ProfileView};
use crate::errors::{result_view, PriestError, PriestErrorView};
use crate::lists;
use crate::named;
use crate::named::by_name;
use crate::text;
use vstd::prelude::*;

verus! {

// ---- Files ----

/// A file among a profile's memories.
#[derive(Debug)]
pub struct MemoryFile {
    /// The file's name as the bytes that the file system has it in.
    pub name: Vec<u8>,
    /// The extension, where it is text.
    pub extension: Option<String>,
    /// When the file was last changed, in nanoseconds since 1970, where that is known.
    pub modified: Option<u64>,
}

/// What a `MemoryFile` holds.
pub struct MemoryFileView {
    pub name: Seq<u8>,
    pub extension: Option<Seq<char>>,
    pub modified: Option<u64>,
}

impl DeepView for MemoryFile {
    type V = MemoryFileView;

    open spec fn deep_view(&self) -> MemoryFileView {
        MemoryFileView {
            name: self.name@,
            extension: self.extension.deep_view(),
            modified: self.modified,
        }
    }
}

/// What a profile's directory holds.
#[derive(Debug)]
pub struct ProfileFiles {
    /// For each of the profile's own files that is there, when it was last changed.
    pub own: Vec<Option<u64>>,
    /// The files among the memories.
    pub memories: Vec<MemoryFile>,
}

/// What a `ProfileFiles` holds.
pub struct ProfileFilesView {
    pub own: Seq<Option<u64>>,
    pub memories: Seq<MemoryFileView>,
}

impl DeepView for ProfileFiles {
    type V = ProfileFilesView;

    open spec fn deep_view(&self) -> ProfileFilesView {
        ProfileFilesView { own: self.own@, memories: self.memories.deep_view() }
    }
}

/// Whether a file counts as a memory: by its extension.
pub open spec fn is_memory(file: MemoryFileView) -> bool {
    file.extension == Some("md"@) || file.extension == Some("txt"@)
}

/// Whether a file counts as a memory.
pub fn counts_as_memory(file: &MemoryFile) -> (r: bool)
    ensures
        r == is_memory(file.deep_view()),
{
    match &file.extension {
        Some(extension) => text::same(extension.as_str(), "md") || text::same(
            extension.as_str(),
            "txt",
        ),
        None => false,
    }
}

// ---- What has changed ----

/// By what a profile is known to be unchanged: the time of the last change to any of its files, and
/// how many there are.
#[derive(Clone, Copy, Debug, PartialEq, Eq, Structural)]
pub struct CacheKey {
    pub max_mtime: u64,
    pub file_count: usize,
}

impl DeepView for CacheKey {
    type V = CacheKey;

    open spec fn deep_view(&self) -> CacheKey {
        *self
    }
}

/// The later of two times, where a time that is not known is no time at all.
pub open spec fn later(a: u64, b: Option<u64>) -> u64 {
    match b {
        Some(t) if t > a => t,
        _ => a,
    }
}

/// The last of times, 0 where none is known.
pub open spec fn last_of(times: Seq<Option<u64>>) -> u64
    decreases times.len(),
{
    if times.len() == 0 {
        0
    } else {
        later(last_of(times.drop_last()), times.last())
    }
}

/// When the files that count as memories were last changed.
pub open spec fn memory_times(files: Seq<MemoryFileView>) -> Seq<Option<u64>>
    decreases files.len(),
{
    if files.len() == 0 {
        Seq::empty()
    } else if is_memory(files.last()) {
        memory_times(files.drop_last()).push(files.last().modified)
    } else {
        memory_times(files.drop_last())
    }
}

/// When the files that a profile is made of were last changed. Memories are left out where they are
/// not wanted.
pub open spec fn tracked_times(files: ProfileFilesView, include_memories: bool) -> Seq<
    Option<u64>,
> {
    if include_memories {
        files.own + memory_times(files.memories)
    } else {
        files.own
    }
}

/// By what a profile is known to be unchanged.
pub open spec fn key_of(files: ProfileFilesView, include_memories: bool) -> CacheKey {
    let times = tracked_times(files, include_memories);
    CacheKey { max_mtime: last_of(times), file_count: times.len() as usize }
}

/// By what a profile is known to be unchanged.
pub fn compute_cache_key(files: &ProfileFiles, include_memories: bool) -> (r: CacheKey)
    ensures
        r == key_of(files.deep_view(), include_memories),
{
    let ghost view = files.deep_view();
    let mut times: Vec<Option<u64>> = Vec::new();
    let mut max_mtime: u64 = 0;
    let mut i: usize = 0;
    while i < files.own.len()
        invariant
            i <= files.own@.len(),
            view == files.deep_view(),
            times@ == view.own.take(i as int),
            max_mtime == last_of(times@),
        decreases files.own@.len() - i,
    {
        let ghost before = times@;
        let t = files.own[i];
        times.push(t);
        assert(times@.drop_last() =~= before);
        if let Some(time) = t {
            if time > max_mtime {
                max_mtime = time;
            }
        }
        i += 1;
        assert(times@ =~= view.own.take(i as int));
    }
    assert(times@ =~= view.own);
    if include_memories {
        let mut k: usize = 0;
        assert(times@ =~= view.own + memory_times(view.memories.take(0)));
        while k < files.memories.len()
            invariant
                k <= files.memories@.len(),
                view == files.deep_view(),
                times@ == view.own + memory_times(view.memories.take(k as int)),
                max_mtime == last_of(times@),
            decreases files.memories@.len() - k,
        {
            proof {
                assert(view.memories.take(k + 1).drop_last() == view.memories.take(k as int));
                assert(view.memories.take(k + 1).last() == files.memories@[k as int].deep_view());
            }
            let file = &files.memories[k];
            let ghost before = times@;
            if counts_as_memory(file) {
                times.push(file.modified);
                assert(times@.drop_last() =~= before);
                if let Some(time) = file.modified {
                    if time > max_mtime {
                        max_mtime = time;
                    }
                }
            }
            k += 1;
            assert(times@ =~= view.own + memory_times(view.memories.take(k as int)));
        }
        assert(view.memories.take(k as int) =~= view.memories);
    }
    CacheKey { max_mtime, file_count: times.len() }
}

// ---- The order of memories ----

/// Whether a name comes before another: byte by byte, a beginning before what goes on.
pub open spec fn name_less(a: Seq<u8>, b: Seq<u8>) -> bool
    decreases a.len(),
{
    if b.len() == 0 {
        false
    } else if a.len() == 0 {
        true
    } else if a[0] != b[0] {
        a[0] < b[0]
    } else {
        name_less(a.drop_first(), b.drop_first())
    }
}

proof fn lemma_name_less_total(a: Seq<u8>, b: Seq<u8>)
    ensures
        name_less(a, b) || name_less(b, a) || a == b,
        !(name_less(a, b) && name_less(b, a)),
        a == b ==> !name_less(a, b),
    decreases a.len(),
{
    if a.len() > 0 && b.len() > 0 {
        lemma_name_less_total(a.drop_first(), b.drop_first());
        if a[0] == b[0] && a.drop_first() == b.drop_first() {
            assert(a =~= seq![a[0]] + a.drop_first());
            assert(b =~= seq![b[0]] + b.drop_first());
        }
    } else if a.len() == 0 && b.len() == 0 {
        assert(a =~= b);
    }
}

proof fn lemma_name_less_transitive(a: Seq<u8>, b: Seq<u8>, c: Seq<u8>)
    requires
        name_less(a, b),
        name_less(b, c),
    ensures
        name_less(a, c),
    decreases a.len(),
{
    if a.len() > 0 && b.len() > 0 && c.len() > 0 && a[0] == b[0] && b[0] == c[0] {
        lemma_name_less_transitive(a.drop_first(), b.drop_first(), c.drop_first());
    }
}

fn comes_before(a: &Vec<u8>, b: &Vec<u8>) -> (r: bool)
    ensures
        r == name_less(a@, b@),
{
    let mut i: usize = 0;
    assert(a@.skip(0) =~= a@ && b@.skip(0) =~= b@);
    while i < a.len() && i < b.len() && a[i] == b[i]
        invariant
            i <= a@.len(),
            i <= b@.len(),
            name_less(a@, b@) == name_less(a@.skip(i as int), b@.skip(i as int)),
        decreases a@.len() - i,
    {
        assert(a@.skip(i as int).drop_first() =~= a@.skip(i + 1));
        assert(b@.skip(i as int).drop_first() =~= b@.skip(i + 1));
        i += 1;
    }
    if i == b.len() {
        false
    } else if i == a.len() {
        true
    } else {
        a[i] < b[i]
    }
}

/// Whether the file at one position comes before that at another: by name, and where names are the
/// same by position.
pub open spec fn ahead(files: Seq<MemoryFileView>, a: int, b: int) -> bool {
    name_less(files[a].name, files[b].name) || (files[a].name == files[b].name && a < b)
}

/// Whether positions are those of the files that count as memories, each once, in the order of
/// their names.
pub open spec fn is_memory_order(files: Seq<MemoryFileView>, order: Seq<usize>) -> bool {
    &&& forall|k: int|
        0 <= k < order.len() ==> (#[trigger] order[k]) < files.len() && is_memory(
            files[order[k] as int],
        )
    &&& forall|j: int, k: int|
        0 <= j < k < order.len() ==> ahead(
            files,
            #[trigger] order[j] as int,
            #[trigger] order[k] as int,
        )
    &&& forall|i: usize|
        i < files.len() && is_memory(files[i as int]) ==> #[trigger] order.contains(i)
}

/// Whether positions are those among the first `n` files.
spec fn is_partial_order(files: Seq<MemoryFileView>, order: Seq<usize>, n: int) -> bool {
    &&& forall|k: int|
        0 <= k < order.len() ==> (#[trigger] order[k]) < n && is_memory(files[order[k] as int])
    &&& forall|j: int, k: int|
        0 <= j < k < order.len() ==> ahead(
            files,
            #[trigger] order[j] as int,
            #[trigger] order[k] as int,
        )
    &&& forall|i: usize| i < n && is_memory(files[i as int]) ==> #[trigger] order.contains(i)
}

proof fn lemma_insert(
    files: Seq<MemoryFileView>,
    order: Seq<usize>,
    n: usize,
    at: int,
)
    requires
        n < files.len(),
        is_memory(files[n as int]),
        is_partial_order(files, order, n as int),
        0 <= at <= order.len(),
        forall|k: int|
            at <= k < order.len() ==> name_less(
                files[n as int].name,
                files[#[trigger] order[k] as int].name,
            ),
        at > 0 ==> !name_less(files[n as int].name, files[order[at - 1] as int].name),
    ensures
        is_partial_order(files, order.insert(at, n), n + 1),
{
    let after = order.insert(at, n);
    assert forall|k: int| 0 <= k < at implies ahead(files, #[trigger] order[k] as int, n as int) by {
        lemma_name_less_total(files[n as int].name, files[order[at - 1] as int].name);
        assert(order[k] < n);
        assert(order[at - 1] < n);
        if k < at - 1 {
            assert(ahead(files, order[k] as int, order[at - 1] as int));
            if name_less(files[order[k] as int].name, files[order[at - 1] as int].name)
                && name_less(files[order[at - 1] as int].name, files[n as int].name) {
                lemma_name_less_transitive(
                    files[order[k] as int].name,
                    files[order[at - 1] as int].name,
                    files[n as int].name,
                );
            }
        }
    }
    assert forall|k: int| 0 <= k < after.len() implies (#[trigger] after[k]) < n + 1 && is_memory(
        files[after[k] as int],
    ) by {
        if k < at {
            assert(after[k] == order[k]);
        } else if k > at {
            assert(after[k] == order[k - 1]);
        }
    }
    assert forall|j: int, k: int| 0 <= j < k < after.len() implies ahead(
        files,
        #[trigger] after[j] as int,
        #[trigger] after[k] as int,
    ) by {
        if j < at {
            assert(after[j] == order[j]);
        } else if j > at {
            assert(after[j] == order[j - 1]);
        }
        if k < at {
            assert(after[k] == order[k]);
        } else if k > at {
            assert(after[k] == order[k - 1]);
        }
    }
    assert forall|i: usize| i < n + 1 && is_memory(files[i as int]) implies #[trigger] after.contains(
        i,
    ) by {
        if i == n {
            assert(after[at] == n);
        } else {
            assert(order.contains(i));
            let k = choose|k: int| 0 <= k < order.len() && order[k] == i;
            assert(after[if k < at {
                k
            } else {
                k + 1
            }] == i);
        }
    }
}

/// The positions of the files that count as memories, in the order of their names.
pub fn memory_order(files: &Vec<MemoryFile>) -> (r: Vec<usize>)
    ensures
        is_memory_order(files.deep_view(), r@),
{
    let ghost all = files.deep_view();
    let mut order: Vec<usize> = Vec::new();
    let mut i: usize = 0;
    while i < files.len()
        invariant
            i <= files@.len(),
            all == files.deep_view(),
            is_partial_order(all, order@, i as int),
        decreases files@.len() - i,
    {
        assert(all[i as int] == files@[i as int].deep_view());
        if counts_as_memory(&files[i]) {
            let mut at: usize = order.len();
            while at > 0 && comes_before(&files[i].name, &files[order[at - 1]].name)
                invariant
                    i < files@.len(),
                    at <= order@.len(),
                    all == files.deep_view(),
                    is_partial_order(all, order@, i as int),
                    forall|k: int|
                        at <= k < order@.len() ==> name_less(
                            all[i as int].name,
                            all[#[trigger] order@[k] as int].name,
                        ),
                decreases at,
            {
                assert(all[order@[at - 1] as int] == files@[order@[at - 1] as int].deep_view());
                at -= 1;
            }
            proof {
                if at > 0 {
                    assert(all[order@[at - 1] as int]
                        == files@[order@[at - 1] as int].deep_view());
                }
                lemma_insert(all, order@, i, at as int);
            }
            order.insert(at, i);
        }
        i += 1;
    }
    order
}

/// There is one order of the memories, and no more.
pub proof fn law_memory_order_is_unique(
    files: Seq<MemoryFileView>,
    a: Seq<usize>,
    b: Seq<usize>,
)
    requires
        is_memory_order(files, a),
        is_memory_order(files, b),
    ensures
        a == b,
{
    lemma_orders_agree(files, a, b, 0);
    lemma_no_longer(files, a, b);
    lemma_no_longer(files, b, a);
    assert(a =~= b);
}

proof fn lemma_ahead_is_strict(files: Seq<MemoryFileView>, a: int, b: int)
    ensures
        !(ahead(files, a, b) && ahead(files, b, a)),
        !ahead(files, a, a),
{
    lemma_name_less_total(files[a].name, files[b].name);
    lemma_name_less_total(files[a].name, files[a].name);
}

proof fn lemma_orders_agree(files: Seq<MemoryFileView>, a: Seq<usize>, b: Seq<usize>, from: int)
    requires
        is_memory_order(files, a),
        is_memory_order(files, b),
        0 <= from <= a.len(),
        from <= b.len(),
        forall|k: int| 0 <= k < from ==> a[k] == b[k],
    ensures
        forall|k: int| 0 <= k < a.len() && k < b.len() ==> a[k] == b[k],
    decreases a.len() - from,
{
    if from < a.len() && from < b.len() {
        assert(b.contains(a[from]));
        assert(a.contains(b[from]));
        let j = choose|j: int| 0 <= j < b.len() && b[j] == a[from];
        let k = choose|k: int| 0 <= k < a.len() && a[k] == b[from];
        if j < from {
            assert(a[j] == a[from]);
            lemma_ahead_is_strict(files, a[j] as int, a[from] as int);
            assert(ahead(files, a[j] as int, a[from] as int));
        }
        if k < from {
            assert(b[k] == b[from]);
            lemma_ahead_is_strict(files, b[k] as int, b[from] as int);
            assert(ahead(files, b[k] as int, b[from] as int));
        }
        if j > from && k > from {
            assert(ahead(files, b[from] as int, b[j] as int));
            assert(ahead(files, a[from] as int, a[k] as int));
            lemma_ahead_is_strict(files, a[from] as int, b[from] as int);
        }
        assert(a[from] == b[from]);
        lemma_orders_agree(files, a, b, from + 1);
    }
}

proof fn lemma_no_longer(files: Seq<MemoryFileView>, a: Seq<usize>, b: Seq<usize>)
    requires
        is_memory_order(files, a),
        is_memory_order(files, b),
        forall|k: int| 0 <= k < a.len() && k < b.len() ==> a[k] == b[k],
    ensures
        a.len() <= b.len(),
{
    if b.len() < a.len() {
        let n = b.len() as int;
        assert(b.contains(a[n]));
        let k = choose|k: int| 0 <= k < b.len() && b[k] == a[n];
        assert(a[k] == a[n]);
        assert(ahead(files, a[k] as int, a[n] as int));
        lemma_ahead_is_strict(files, a[k] as int, a[n] as int);
    }
}

// ---- Loading ----

/// What was read of a profile.
#[derive(Debug)]
pub struct ProfileContents {
    pub identity: String,
    pub rules: Option<String>,
    pub custom: Option<String>,
    /// The memories in the order of their files' names.
    pub memories: Vec<String>,
}

/// What a `ProfileContents` holds.
pub struct ProfileContentsView {
    pub identity: Seq<char>,
    pub rules: Option<Seq<char>>,
    pub custom: Option<Seq<char>>,
    pub memories: Seq<Seq<char>>,
}

impl DeepView for ProfileContents {
    type V = ProfileContentsView;

    open spec fn deep_view(&self) -> ProfileContentsView {
        ProfileContentsView {
            identity: self.identity@,
            rules: self.rules.deep_view(),
            custom: self.custom.deep_view(),
            memories: self.memories.deep_view(),
        }
    }
}

/// A profile that was loaded before.
#[derive(Debug)]
pub struct CacheEntry {
    pub key: CacheKey,
    pub profile: Profile,
}

impl DeepView for CacheEntry {
    type V = (CacheKey, ProfileView);

    open spec fn deep_view(&self) -> (CacheKey, ProfileView) {
        (self.key, self.profile.deep_view())
    }
}

/// The profiles that were loaded before.
#[derive(Debug)]
pub struct ProfileCache {
    include_memories: bool,
    entries: Vec<(String, CacheEntry)>,
}

/// What is to be done for a profile.
#[derive(Debug)]
pub enum LoadDecision {
    /// Read the files, the memories at the given positions in the given order, and hand what was
    /// read to `loaded` under the key.
    Read { memories: Vec<usize>, key: CacheKey },
    Return(Result<Profile, PriestError>),
}

/// What a profile without files is: the built-in one for the default name, else nothing.
pub open spec fn without_files(name: Seq<char>) -> Result<ProfileView, PriestErrorView> {
    if name == "default"@ {
        Ok(default_profile_view())
    } else {
        Err(PriestErrorView::ProfileNotFound { profile: name })
    }
}

/// The profile that was read. Files that are not there are empty.
pub open spec fn profile_read(name: Seq<char>, contents: ProfileContentsView) -> ProfileView {
    ProfileView {
        name,
        identity: contents.identity,
        rules: match contents.rules {
            Some(rules) => rules,
            None => ""@,
        },
        custom: match contents.custom {
            Some(custom) => custom,
            None => ""@,
        },
        memories: contents.memories,
        meta: Map::empty(),
    }
}

impl View for ProfileCache {
    type V = Map<Seq<char>, (CacheKey, ProfileView)>;

    closed spec fn view(&self) -> Map<Seq<char>, (CacheKey, ProfileView)> {
        by_name(self.entries.deep_view())
    }
}

/// Whether what was loaded of a profile is still good: nothing has changed by which that is known.
pub open spec fn is_current(
    cache: Map<Seq<char>, (CacheKey, ProfileView)>,
    name: Seq<char>,
    files: ProfileFilesView,
    include_memories: bool,
) -> bool {
    cache.contains_key(name) && cache[name].0 == key_of(files, include_memories)
}

impl ProfileCache {
    /// Whether profiles are loaded with their memories.
    pub closed spec fn includes_memories(&self) -> bool {
        self.include_memories
    }

    /// No profiles yet.
    pub fn new() -> (r: Self)
        ensures
            r@ == Map::<Seq<char>, (CacheKey, ProfileView)>::empty(),
            r.includes_memories(),
    {
        ProfileCache::with_include_memories(true)
    }

    /// No profiles yet, to be loaded with or without their memories.
    pub fn with_include_memories(include_memories: bool) -> (r: Self)
        ensures
            r@ == Map::<Seq<char>, (CacheKey, ProfileView)>::empty(),
            r.includes_memories() == include_memories,
    {
        let r = ProfileCache { include_memories, entries: lists::no_items() };
        assert(r@ =~= Map::empty());
        r
    }

    /// What is to be done for a profile, given its files, if it has any. What was loaded before is
    /// good as long as the key is the same.
    pub fn find(&self, name: &str, files: Option<&ProfileFiles>) -> (r: LoadDecision)
        ensures
            match files {
                None => r matches LoadDecision::Return(outcome) && result_view(outcome)
                    == without_files(name@),
                Some(f) => {
                    if is_current(self@, name@, f.deep_view(), self.includes_memories()) {
                        r matches LoadDecision::Return(Ok(profile)) && profile.deep_view()
                            == self@[name@].1
                    } else {
                        r matches LoadDecision::Read { memories, key } && key == key_of(
                            f.deep_view(),
                            self.includes_memories(),
                        ) && (if self.includes_memories() {
                            is_memory_order(f.deep_view().memories, memories@)
                        } else {
                            memories@.len() == 0
                        })
                    }
                },
            },
    {
        let present = match files {
            None => {
                if text::same(name, "default") {
                    return LoadDecision::Return(Ok(built_in_default()));
                }
                return LoadDecision::Return(
                    Err(PriestError::ProfileNotFound { profile: name.to_owned() }),
                );
            },
            Some(present) => present,
        };
        let key = compute_cache_key(present, self.include_memories);
        if let Some(i) = named::find(&self.entries, name) {
            let entry = &self.entries[i].1;
            if entry.key == key {
                return LoadDecision::Return(Ok(entry.profile.clone()));
            }
        }
        let memories = if self.include_memories {
            memory_order(&present.memories)
        } else {
            Vec::new()
        };
        LoadDecision::Read { memories, key }
    }

    /// Takes in what was read of a profile, or why it could not be read, and keeps the profile.
    pub fn loaded(
        &mut self,
        name: &str,
        key: CacheKey,
        contents: Result<ProfileContents, String>,
    ) -> (r: Result<Profile, PriestError>)
        ensures
            final(self).includes_memories() == old(self).includes_memories(),
            match contents {
                Ok(c) => {
                    let profile = profile_read(name@, c.deep_view());
                    &&& r matches Ok(p) && p.deep_view() == profile
                    &&& final(self)@ == old(self)@.insert(name@, (key, profile))
                },
                Err(reason) => {
                    &&& r matches Err(e) && e.deep_view() == (PriestErrorView::ProfileInvalid {
                        profile: name@,
                        reason: reason@,
                    })
                    &&& final(self)@ == old(self)@
                },
            },
    {
        let read = match contents {
            Ok(read) => read,
            Err(reason) => {
                return Err(PriestError::ProfileInvalid { profile: name.to_owned(), reason });
            },
        };
        let rules = match read.rules {
            Some(rules) => rules,
            None => "".to_owned(),
        };
        let custom = match read.custom {
            Some(custom) => custom,
            None => "".to_owned(),
        };
        let profile = Profile::new(
            name,
            read.identity.as_str(),
            rules.as_str(),
            custom.as_str(),
            read.memories,
            serde_json::Map::new(),
        );
        named::put(&mut self.entries, name, CacheEntry { key, profile: profile.clone() });
        Ok(profile)
    }
}

// ---- Laws ----

/// What was loaded under the key of its files is served as long as they are the same, and other
/// profiles are served or read as before.
pub proof fn law_loaded_profiles_are_served(
    cache: Map<Seq<char>, (CacheKey, ProfileView)>,
    name: Seq<char>,
    files: ProfileFilesView,
    include_memories: bool,
    profile: ProfileView,
)
    ensures
        ({
            let after = cache.insert(name, (key_of(files, include_memories), profile));
            &&& is_current(after, name, files, include_memories)
            &&& after[name].1 == profile
            &&& forall|other: Seq<char>, theirs: ProfileFilesView|
                other != name ==> #[trigger] is_current(after, other, theirs, include_memories)
                    == is_current(cache, other, theirs, include_memories)
        }),
{
}

proof fn lemma_last_is_latest(times: Seq<Option<u64>>, i: int)
    requires
        0 <= i < times.len(),
        times[i] is Some,
    ensures
        last_of(times) >= times[i]->0,
    decreases times.len(),
{
    if i < times.len() - 1 {
        lemma_last_is_latest(times.drop_last(), i);
    }
}

/// A profile is read again once it has more or fewer files than when it was loaded, and once one of
/// its files was changed later than all files before.
pub proof fn law_changes_are_noticed(
    cache: Map<Seq<char>, (CacheKey, ProfileView)>,
    name: Seq<char>,
    before: ProfileFilesView,
    after: ProfileFilesView,
    include_memories: bool,
    i: int,
)
    requires
        is_current(cache, name, before, include_memories),
        tracked_times(before, include_memories).len() <= usize::MAX,
        tracked_times(after, include_memories).len() <= usize::MAX,
        ({
            ||| tracked_times(after, include_memories).len() != tracked_times(
                before,
                include_memories,
            ).len()
            ||| {
                &&& 0 <= i < tracked_times(after, include_memories).len()
                &&& tracked_times(after, include_memories)[i] is Some
                &&& tracked_times(after, include_memories)[i]->0 > last_of(
                    tracked_times(before, include_memories),
                )
            }
        }),
    ensures
        !is_current(cache, name, after, include_memories),
{
    let times = tracked_times(after, include_memories);
    if 0 <= i < times.len() && times[i] is Some {
        lemma_last_is_latest(times, i);
    }
}

} // verus!
