//! An in-memory directory: the paths and file contents that the compress
//! operation reads and writes, modelled as a map from path to bytes.

use vstd::prelude::*;

use crate::codec::{codec_accepts, compress_bytes, decodes_to, CompressError};
use crate::compression::{dest_path, dest_path_spec, CompressionType};

verus! {

/// A directory of files, keyed by path.
pub struct FileStore {
    entries: Vec<(String, Vec<u8>)>,
}

/// Paths occur at most once in the entry sequence.
pub open spec fn distinct_keys(entries: Seq<(String, Vec<u8>)>) -> bool {
    forall|i: int, j: int|
        0 <= i < j < entries.len() ==> (#[trigger] entries[i]).0@ != (#[trigger] entries[j]).0@
}

/// The map that a sequence of (path, content) entries denotes; a later entry
/// for the same path wins.
pub closed spec fn map_of(entries: Seq<(String, Vec<u8>)>) -> Map<Seq<char>, Seq<u8>>
    decreases entries.len(),
{
    if entries.len() == 0 {
        Map::empty()
    } else {
        map_of(entries.drop_last()).insert(entries.last().0@, entries.last().1@)
    }
}

/// A key that no entry carries is not in the denoted map.
proof fn lemma_map_of_absent(entries: Seq<(String, Vec<u8>)>, k: Seq<char>)
    requires
        forall|j: int| 0 <= j < entries.len() ==> (#[trigger] entries[j]).0@ != k,
    ensures
        !map_of(entries).contains_key(k),
    decreases entries.len(),
{
    if entries.len() > 0 {
        assert(forall|j: int|
            0 <= j < entries.drop_last().len() ==> (#[trigger] entries.drop_last()[j]).0@ != k);
        lemma_map_of_absent(entries.drop_last(), k);
    }
}

/// Under distinct keys, the entry at index `i` gives the denoted map's value
/// at its path.
proof fn lemma_map_of_index(entries: Seq<(String, Vec<u8>)>, i: int)
    requires
        distinct_keys(entries),
        0 <= i < entries.len(),
    ensures
        map_of(entries).contains_key(entries[i].0@),
        map_of(entries)[entries[i].0@] == entries[i].1@,
    decreases entries.len(),
{
    if i < entries.len() - 1 {
        assert(distinct_keys(entries.drop_last()));
        assert(entries.drop_last()[i] == entries[i]);
        lemma_map_of_index(entries.drop_last(), i);
        assert(entries.last().0@ != entries[i].0@);
    }
}

/// Under distinct keys, removing the entry at index `i` removes exactly its
/// path from the denoted map.
proof fn lemma_map_of_remove(entries: Seq<(String, Vec<u8>)>, i: int)
    requires
        distinct_keys(entries),
        0 <= i < entries.len(),
    ensures
        distinct_keys(entries.remove(i)),
        map_of(entries.remove(i)) == map_of(entries).remove(entries[i].0@),
        forall|j: int|
            0 <= j < entries.remove(i).len() ==> (#[trigger] entries.remove(i)[j]).0@
                != entries[i].0@,
    decreases entries.len(),
{
    let k = entries[i].0@;
    let shorter = entries.remove(i);
    assert forall|j: int| 0 <= j < shorter.len() implies (#[trigger] shorter[j]).0@ != k by {
        assert(shorter[j] == if j < i {
            entries[j]
        } else {
            entries[j + 1]
        });
    }
    assert forall|a: int, b: int| 0 <= a < b < shorter.len() implies (#[trigger] shorter[a]).0@
        != (#[trigger] shorter[b]).0@ by {
        assert(shorter[a] == if a < i {
            entries[a]
        } else {
            entries[a + 1]
        });
        assert(shorter[b] == if b < i {
            entries[b]
        } else {
            entries[b + 1]
        });
    }
    if i == entries.len() - 1 {
        assert(shorter =~= entries.drop_last());
        assert(forall|j: int|
            0 <= j < entries.drop_last().len() ==> (#[trigger] entries.drop_last()[j]).0@ != k);
        lemma_map_of_absent(entries.drop_last(), k);
        assert(map_of(entries).remove(k) =~= map_of(entries.drop_last()));
    } else {
        let prefix = entries.drop_last();
        assert(distinct_keys(prefix));
        assert(prefix[i] == entries[i]);
        lemma_map_of_remove(prefix, i);
        assert(shorter.drop_last() =~= prefix.remove(i));
        assert(shorter.last() == entries.last());
        assert(entries.last().0@ != k);
        assert(map_of(prefix).remove(k).insert(entries.last().0@, entries.last().1@) =~= map_of(
            prefix,
        ).insert(entries.last().0@, entries.last().1@).remove(k));
    }
}

impl FileStore {
    /// The directory as a map from path to file content.
    pub closed spec fn view(&self) -> Map<Seq<char>, Seq<u8>> {
        map_of(self.entries@)
    }

    /// Paths are stored at most once.
    pub closed spec fn inv(&self) -> bool {
        distinct_keys(self.entries@)
    }

    /// An empty directory.
    pub fn new() -> (r: Self)
        ensures
            r.inv(),
            r@ == Map::<Seq<char>, Seq<u8>>::empty(),
    {
        FileStore { entries: Vec::new() }
    }

    /// The index of the entry that carries `path`, if one does.
    fn find(&self, path: &String) -> (r: Option<usize>)
        ensures
            r matches Some(i) ==> i < self.entries@.len() && self.entries@[i as int].0@ == path@,
            r is None ==> forall|j: int|
                0 <= j < self.entries@.len() ==> (#[trigger] self.entries@[j]).0@ != path@,
    {
        let mut i: usize = 0;
        while i < self.entries.len()
            invariant
                i <= self.entries@.len(),
                forall|j: int| 0 <= j < i ==> (#[trigger] self.entries@[j]).0@ != path@,
            decreases self.entries@.len() - i,
        {
            if self.entries[i].0 == *path {
                return Some(i);
            }
            i += 1;
        }
        None
    }

    /// The content of the file at `path`, if the directory holds one.
    pub fn read(&self, path: &String) -> (r: Option<&Vec<u8>>)
        requires
            self.inv(),
        ensures
            r is Some <==> self@.contains_key(path@),
            r matches Some(c) ==> c@ == self@[path@],
    {
        match self.find(path) {
            Some(i) => {
                proof {
                    lemma_map_of_index(self.entries@, i as int);
                }
                Some(&self.entries[i].1)
            },
            None => {
                proof {
                    lemma_map_of_absent(self.entries@, path@);
                }
                None
            },
        }
    }

    /// Stores `content` at `path`, replacing any file already there.
    pub fn write(&mut self, path: &String, content: Vec<u8>)
        requires
            old(self).inv(),
        ensures
            final(self).inv(),
            final(self)@ == old(self)@.insert(path@, content@),
    {
        match self.find(path) {
            Some(i) => {
                proof {
                    lemma_map_of_remove(self.entries@, i as int);
                }
                self.entries.remove(i);
            },
            None => {},
        }
        proof {
            assert(forall|j: int|
                0 <= j < self.entries@.len() ==> (#[trigger] self.entries@[j]).0@ != path@);
        }
        let ghost before = self.entries@;
        self.entries.push((path.clone(), content));
        proof {
            assert(self.entries@.drop_last() =~= before);
            assert(distinct_keys(self.entries@));
            assert(map_of(before).insert(path@, content@) =~= old(self)@.insert(path@, content@));
        }
    }

    /// Removes the file at `path`, if the directory holds one.
    pub fn remove(&mut self, path: &String)
        requires
            old(self).inv(),
        ensures
            final(self).inv(),
            final(self)@ == old(self)@.remove(path@),
    {
        match self.find(path) {
            Some(i) => {
                proof {
                    lemma_map_of_remove(self.entries@, i as int);
                }
                self.entries.remove(i);
            },
            None => {
                proof {
                    lemma_map_of_absent(self.entries@, path@);
                    assert(map_of(self.entries@).remove(path@) =~= map_of(self.entries@));
                }
            },
        }
    }

    /// Whether the directory holds a file at `path`.
    pub fn contains(&self, path: &String) -> (r: bool)
        requires
            self.inv(),
        ensures
            r == self@.contains_key(path@),
    {
        match self.read(path) {
            Some(_) => true,
            None => false,
        }
    }
}

/// One compress transition on a directory: the source file was replaced by a
/// non-empty compressed copy, standing at the destination path, that decodes
/// back to the source's content.
pub open spec fn compress_transition(
    pre: Map<Seq<char>, Seq<u8>>,
    post: Map<Seq<char>, Seq<u8>>,
    path: Seq<char>,
    codec: CompressionType,
) -> bool {
    &&& pre.contains_key(path)
    &&& exists|out: Seq<u8>|
        {
            &&& #[trigger] decodes_to(codec, out, pre[path])
            &&& out.len() > 0
            &&& post == pre.remove(path).insert(dest_path_spec(path, codec), out)
        }
}

/// Compresses the file at `path` inside the directory.
///
/// Success is owed whenever the source is present and the codec accepts its
/// length; the result is then the destination path — the source path plus
/// the codec's suffix — where the compressed copy now stands, and the source
/// is gone. On any failure the directory is left exactly as it was: a
/// missing source is reported as such, and a source too large for the zstd
/// encoder's size hint is rejected before any byte is encoded.
pub fn compress(store: &mut FileStore, path: &String, codec: &CompressionType) -> (r: Result<
    String,
    CompressError,
>)
    requires
        old(store).inv(),
        codec.level_ok(),
    ensures
        final(store).inv(),
        old(store)@.contains_key(path@) && codec_accepts(*codec, old(store)@[path@].len())
            ==> r is Ok,
        r matches Ok(dest) ==> dest@ == dest_path_spec(path@, *codec) && compress_transition(
            old(store)@,
            final(store)@,
            path@,
            *codec,
        ),
        r is Err ==> final(store)@ == old(store)@,
        r == Err::<String, CompressError>(CompressError::SourceNotFound) <==> !old(
            store,
        )@.contains_key(path@),
        r == Err::<String, CompressError>(CompressError::SourceTooLarge) <==> (old(
            store,
        )@.contains_key(path@) && (codec matches CompressionType::Zstd(_)) && old(
            store,
        )@[path@].len() > u32::MAX),
{
    let content = match store.read(path) {
        Some(c) => c,
        None => {
            return Err(CompressError::SourceNotFound);
        },
    };
    let out = match compress_bytes(content, codec) {
        Ok(c) => c,
        Err(e) => {
            return Err(e);
        },
    };
    let ghost w = out@;
    let dest = dest_path(path, codec);
    store.remove(path);
    store.write(&dest, out);
    proof {
        assert(decodes_to(*codec, w, old(store)@[path@]));
        assert(store@ == old(store)@.remove(path@).insert(dest_path_spec(path@, *codec), w));
        assert(compress_transition(old(store)@, store@, path@, *codec));
    }
    Ok(dest)
}

/// Deletion on success, and only on success: after a compress transition the
/// source path is gone, the destination path holds a non-empty compressed
/// copy that decodes back to the source's content, and every other path is
/// untouched.
pub proof fn lemma_deletion_on_success(
    pre: Map<Seq<char>, Seq<u8>>,
    post: Map<Seq<char>, Seq<u8>>,
    path: Seq<char>,
    codec: CompressionType,
)
    requires
        compress_transition(pre, post, path, codec),
    ensures
        !post.contains_key(path),
        post.contains_key(dest_path_spec(path, codec)),
        post[dest_path_spec(path, codec)].len() > 0,
        decodes_to(codec, post[dest_path_spec(path, codec)], pre[path]),
        forall|p: Seq<char>|
            p != path && p != dest_path_spec(path, codec) ==> (#[trigger] post.contains_key(p)
                <==> pre.contains_key(p)) && (post.contains_key(p) ==> post[p] == pre[p]),
{
    lemma_dest_path_differs(path, codec);
}

/// Once a compress of `path` has succeeded, the source path is gone from the
/// directory; by `compress`'s own contract, a second compress of the same
/// path then reports a missing source rather than silently doing nothing.
pub proof fn lemma_compress_consumes_source(
    pre: Map<Seq<char>, Seq<u8>>,
    post: Map<Seq<char>, Seq<u8>>,
    path: Seq<char>,
    codec: CompressionType,
)
    requires
        compress_transition(pre, post, path, codec),
    ensures
        !post.contains_key(path),
{
    lemma_dest_path_differs(path, codec);
}

/// The destination path is strictly longer than the source path, so the two
/// never coincide.
pub proof fn lemma_dest_path_differs(path: Seq<char>, codec: CompressionType)
    ensures
        dest_path_spec(path, codec) != path,
        dest_path_spec(path, codec).len() > path.len(),
{
    reveal_strlit(".");
    assert(dest_path_spec(path, codec).len() == path.len() + 1 + codec.suffix_spec().len());
}

} // verus!
