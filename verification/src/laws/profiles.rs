//! Laws on profiles.

use crate::errors::PriestErrorView;
use crate::profile::filesystem_loader::{
    ahead, is_memory, is_memory_order, key_of, last_of, memory_times, name_less,
    profile_read, without_files, MemoryFileView, ProfileContentsView, ProfileFilesView,
};
use vstd::prelude::*;

verus! {

/// A profile that was read has its name and what its files hold, word for word, with the memories
/// in the order in which they were read; a file that is not there holds nothing.
pub proof fn law_profiles_hold_their_files(name: Seq<char>, contents: ProfileContentsView)
    ensures
        ({
            let profile = profile_read(name, contents);
            &&& profile.name == name
            &&& profile.identity == contents.identity
            &&& contents.rules matches Some(rules) ==> profile.rules == rules
            &&& contents.rules is None ==> profile.rules.len() == 0
            &&& contents.custom matches Some(custom) ==> profile.custom == custom
            &&& contents.custom is None ==> profile.custom.len() == 0
            &&& profile.memories == contents.memories
        }),
{
    reveal_strlit("");
}

/// Without files there is one profile, the built-in one, which has no memories and no custom
/// instructions; any other name is not found, and the error says the name.
pub proof fn law_profiles_without_files(name: Seq<char>)
    ensures
        match without_files(name) {
            Ok(profile) => name == "default"@ && profile.name == name && profile.memories.len() == 0
                && profile.custom.len() == 0 && profile.identity.len() > 0 && profile.rules.len()
                > 0,
            Err(e) => name != "default"@ && e == (PriestErrorView::ProfileNotFound {
                profile: name,
            }),
        },
{
    reveal_strlit("");
    reveal_strlit("You are a helpful, thoughtful assistant.\n");
    reveal_strlit(
        "Be honest. Do not make things up.\nBe concise unless the user asks for depth.\n",
    );
}

/// One name comes before another where it is how the other begins, or where it has the lesser byte
/// at the first place at which they differ.
pub proof fn law_order_of_names(a: Seq<u8>, b: Seq<u8>)
    ensures
        name_less(a, b) <==> exists|k: int|
            #![trigger a.take(k)]
            0 <= k <= a.len() && k < b.len() && a.take(k) == b.take(k) && (k == a.len() || a[k]
                < b[k]),
    decreases a.len(),
{
    if b.len() == 0 {
    } else if a.len() == 0 {
        assert(a.take(0) =~= b.take(0));
    } else if a[0] != b[0] {
        if a[0] < b[0] {
            assert(a.take(0) =~= b.take(0));
        }
        assert forall|k: int|
            0 <= k <= a.len() && k < b.len() && #[trigger] a.take(k) == b.take(k) && (k == a.len()
                || a[k] < b[k]) implies a[0] < b[0] by {
            if k > 0 {
                assert(a.take(k)[0] == b.take(k)[0]);
            }
        }
    } else {
        let c = a.drop_first();
        let d = b.drop_first();
        law_order_of_names(c, d);
        if name_less(a, b) {
            let k = choose|k: int|
                #![trigger c.take(k)]
                0 <= k <= c.len() && k < d.len() && c.take(k) == d.take(k) && (k == c.len() || c[k]
                    < d[k]);
            assert(a.take(k + 1) =~= seq![a[0]] + c.take(k));
            assert(b.take(k + 1) =~= seq![b[0]] + d.take(k));
        }
        assert forall|k: int|
            0 <= k <= a.len() && k < b.len() && #[trigger] a.take(k) == b.take(k) && (k == a.len()
                || a[k] < b[k]) implies name_less(a, b) by {
            assert(k > 0);
            assert(c.take(k - 1) =~= a.take(k).drop_first());
            assert(d.take(k - 1) =~= b.take(k).drop_first());
        }
    }
}

/// A file is a memory where its extension is one of the two for texts, and its time counts, where
/// memories are loaded, behind those of the files before it; any other file does not count.
pub proof fn law_which_files_count(files: Seq<MemoryFileView>, file: MemoryFileView)
    ensures
        is_memory(file) <==> file.extension == Some("md"@) || file.extension == Some("txt"@),
        memory_times(Seq::empty()).len() == 0,
        memory_times(files.push(file)) == memory_times(files) + if file.extension == Some("md"@)
            || file.extension == Some("txt"@) {
            seq![file.modified]
        } else {
            Seq::empty()
        },
{
    assert(files.push(file).drop_last() =~= files);
    assert(memory_times(files).push(file.modified) =~= memory_times(files) + seq![file.modified]);
    assert(memory_times(files) + Seq::<Option<u64>>::empty() =~= memory_times(files));
}

/// The order in which memories are read: each file that is a memory once, and no other; by name,
/// and those of one name in the order in which they are listed.
pub proof fn law_memories_are_read_by_name(
    files: Seq<MemoryFileView>,
    order: Seq<usize>,
    j: int,
    k: int,
)
    requires
        is_memory_order(files, order),
        files.len() <= usize::MAX,
    ensures
        forall|i: usize| #[trigger]
            order.contains(i) <==> i < files.len() && (files[i as int].extension == Some("md"@)
                || files[i as int].extension == Some("txt"@)),
        0 <= j < k < order.len() ==> {
            let a = files[order[j] as int];
            let b = files[order[k] as int];
            &&& order[j] != order[k]
            &&& a.name == b.name ==> order[j] < order[k]
            &&& a.name != b.name ==> name_less(a.name, b.name)
        },
{
    assert forall|i: usize| #[trigger] order.contains(i) implies i < files.len() && is_memory(
        files[i as int],
    ) by {
        let k = choose|k: int| 0 <= k < order.len() && order[k] == i;
        assert(order[k] < files.len());
    }
    if 0 <= j < k < order.len() {
        let a = files[order[j] as int].name;
        let b = files[order[k] as int].name;
        assert(ahead(files, order[j] as int, order[k] as int));
        if a == b {
            lemma_not_less_than_itself(a);
        }
    }
}

proof fn lemma_not_less_than_itself(name: Seq<u8>)
    ensures
        !name_less(name, name),
    decreases name.len(),
{
    if name.len() > 0 {
        lemma_not_less_than_itself(name.drop_first());
    }
}

proof fn lemma_latest(times: Seq<Option<u64>>)
    ensures
        forall|i: int|
            0 <= i < times.len() ==> (#[trigger] times[i] matches Some(t) ==> t <= last_of(times)),
        last_of(times) == 0 || times.contains(Some(last_of(times))),
    decreases times.len(),
{
    if times.len() > 0 {
        let rest = times.drop_last();
        lemma_latest(rest);
        assert forall|i: int| 0 <= i < times.len() implies (#[trigger] times[i] matches Some(t)
            ==> t <= last_of(times)) by {
            if i < rest.len() {
                assert(rest[i] == times[i]);
            }
        }
        if last_of(times) == last_of(rest) {
            if last_of(times) != 0 {
                let i = choose|i: int| 0 <= i < rest.len() && rest[i] == Some(last_of(rest));
                assert(times[i] == Some(last_of(times)));
            }
        } else {
            assert(times[times.len() - 1] == Some(last_of(times)));
        }
    }
}

/// A profile is known by how many files it has, its own and, where memories are loaded, its memories,
/// and by the latest time at which one of them was changed.
pub proof fn law_what_a_profile_is_known_by(files: ProfileFilesView)
    requires
        files.own.len() + memory_times(files.memories).len() <= usize::MAX,
    ensures
        ({
            let key = key_of(files, true);
            let times = files.own + memory_times(files.memories);
            &&& key.file_count == files.own.len() + memory_times(files.memories).len()
            &&& forall|i: int|
                0 <= i < times.len() ==> (#[trigger] times[i] matches Some(t) ==> t
                    <= key.max_mtime)
            &&& key.max_mtime == 0 || times.contains(Some(key.max_mtime))
        }),
        ({
            let key = key_of(files, false);
            &&& key.file_count == files.own.len()
            &&& forall|i: int|
                0 <= i < files.own.len() ==> (#[trigger] files.own[i] matches Some(t) ==> t
                    <= key.max_mtime)
            &&& key.max_mtime == 0 || files.own.contains(Some(key.max_mtime))
        }),
{
    lemma_latest(files.own + memory_times(files.memories));
    lemma_latest(files.own);
}

/// Where memories are not loaded, they make no difference to what a profile is known by.
pub proof fn law_memories_left_out_make_no_difference(
    files: ProfileFilesView,
    memories: Seq<MemoryFileView>,
)
    ensures
        key_of(files, false) == key_of(ProfileFilesView { memories, ..files }, false),
        files.own.len() <= usize::MAX ==> key_of(files, false).file_count == files.own.len(),
{
}

} // verus!
