//! Content-addressed cache of precompiled module blobs with an LRU-style
//! purge bounded by a size budget in MiB.
//!
//! The cache state is modelled as a sequence of entries ordered by
//! modification time; blobs are held zstd-compressed, exactly as the cache
//! directory stores them on disk.

use vstd::prelude::*;

use crate::model::compare_str;

verus! {

/// A cache error: the underlying compression call failed, or the logical
/// clock that orders entries cannot advance any further.
#[derive(Debug, Clone, Copy, PartialEq, Eq)]
pub enum CacheError {
    Compression,
    ClockExhausted,
}

/// Canonicalisation of one character of an image reference: path and tag
/// separators become dashes.
pub open spec fn canonical_char(c: char) -> char {
    if c == '/' || c == ':' {
        '-'
    } else {
        c
    }
}

/// The cache key for an image reference: every `/` and `:` replaced by `-`.
pub open spec fn spec_canonical_name(s: Seq<char>) -> Seq<char> {
    s.map_values(|c: char| canonical_char(c))
}

/// Canonicalisation is idempotent.
pub proof fn lemma_canonical_idempotent(s: Seq<char>)
    ensures
        spec_canonical_name(spec_canonical_name(s)) == spec_canonical_name(s),
{
    assert(spec_canonical_name(spec_canonical_name(s)) =~= spec_canonical_name(s));
}

/// No slash or colon appears in a canonical cache file name.
pub proof fn lemma_canonical_no_separators(s: Seq<char>)
    ensures
        forall|i: int|
            0 <= i < spec_canonical_name(s).len() ==> spec_canonical_name(s)[i] != '/'
                && spec_canonical_name(s)[i] != ':',
{
}

/// The result of compressing a byte sequence into the zstd frame format.
pub uninterp spec fn zstd_frame_of(data: Seq<u8>) -> Seq<u8>;

/// Relies on zstd::stream::encode_all: the compressed frame is a function of
/// the input bytes and the (fixed, default) compression level, and encoding
/// succeeds — the reader is an in-memory slice, which cannot fail, leaving
/// only allocation exhaustion, which this contract sets aside.
#[verifier::external_body]
fn zstd_compress(data: &[u8]) -> (r: Result<Vec<u8>, CacheError>)
    ensures
        r is Ok,
        r matches Ok(c) ==> c@ == zstd_frame_of(data@),
{
    zstd::stream::encode_all(data, 0).map(|c| c).map_err(|_| CacheError::Compression)
}

/// Relies on zstd::stream::decode_all: decoding is lossless, so a frame
/// produced by encode_all decodes to exactly the bytes that were encoded.
#[verifier::external_body]
fn zstd_decompress(data: &[u8]) -> (r: Result<Vec<u8>, CacheError>)
    ensures
        r matches Err(_) ==> forall|orig: Seq<u8>| data@ != #[trigger] zstd_frame_of(orig),
        r matches Ok(d) ==> forall|orig: Seq<u8>| data@ == #[trigger] zstd_frame_of(orig) ==> d@
            == orig,
{
    zstd::stream::decode_all(data).map(|d| d).map_err(|_| CacheError::Compression)
}

/// One cached module: the canonical image name, the compressed blob as it
/// sits on disk, and the modification time that orders purging. The
/// uncompressed bytes are carried as a ghost field tying the blob to what
/// `put` stored.
pub struct CacheEntry {
    pub name: String,
    pub blob: Vec<u8>,
    pub mtime: u64,
    pub data: Ghost<Seq<u8>>,
}

impl CacheEntry {
    /// The entry's on-disk size in whole MiB.
    pub open spec fn size_mib(&self) -> int {
        self.blob@.len() as int / 0x100000
    }

    pub open spec fn wf(&self) -> bool {
        self.blob@ == zstd_frame_of(self.data@)
    }
}

/// Total size in whole MiB of a run of cache entries.
pub open spec fn total_mib(entries: Seq<CacheEntry>) -> int
    decreases entries.len(),
{
    if entries.len() == 0 {
        0
    } else {
        total_mib(entries.drop_last()) + entries.last().size_mib()
    }
}

proof fn lemma_total_mib_nonneg(entries: Seq<CacheEntry>)
    ensures
        total_mib(entries) >= 0,
    decreases entries.len(),
{
    if entries.len() > 0 {
        lemma_total_mib_nonneg(entries.drop_last());
    }
}

proof fn lemma_total_mib_skip(entries: Seq<CacheEntry>, k: int)
    requires
        0 <= k < entries.len(),
    ensures
        total_mib(entries.skip(k)) == entries[k].size_mib() + total_mib(entries.skip(k + 1)),
    decreases entries.len(),
{
    if k + 1 == entries.len() {
        assert(entries.skip(k) =~= seq![entries[k]]);
        assert(entries.skip(k + 1) =~= Seq::<CacheEntry>::empty());
        assert(entries.skip(k).drop_last() =~= Seq::<CacheEntry>::empty());
    } else {
        lemma_total_mib_skip(entries.drop_last(), k);
        assert(entries.skip(k).drop_last() =~= entries.drop_last().skip(k));
        assert(entries.skip(k + 1).drop_last() =~= entries.drop_last().skip(k + 1));
    }
}

/// What a cache holds: uncompressed blobs keyed by canonical image name.
pub open spec fn contents_of(entries: Seq<CacheEntry>) -> Map<Seq<char>, Seq<u8>>
    decreases entries.len(),
{
    if entries.len() == 0 {
        Map::empty()
    } else {
        contents_of(entries.drop_last()).insert(entries.last().name@, entries.last().data@)
    }
}

/// A cache of precompiled module blobs.
///
/// `contents()` names the association from canonical image names to the
/// stored (uncompressed) blobs; `retains()` says whether `put` keeps what it
/// is given; `total_size_mib()` is the on-disk footprint bounded by `purge`.
pub trait ModuleCache: Sized {
    spec fn wf(&self) -> bool;

    spec fn contents(&self) -> Map<Seq<char>, Seq<u8>>;

    spec fn retains(&self) -> bool;

    spec fn total_size_mib(&self) -> int;

    /// Whether the cache can still accept a store; only a cache whose
    /// logical clock is spent refuses one.
    spec fn can_store(&self) -> bool;

    /// The cached entries, oldest first.
    spec fn entries_view(&self) -> Seq<CacheEntry>;

    /// Looks up an image; a hit returns exactly the blob that was stored.
    fn get(&self, image: &str) -> (r: Result<Option<Vec<u8>>, CacheError>)
        requires
            self.wf(),
        ensures
            r matches Ok(o) && (match o {
                Some(b) => self.contents().contains_key(spec_canonical_name(image@))
                    && b@ == self.contents()[spec_canonical_name(image@)],
                None => !self.contents().contains_key(spec_canonical_name(image@)),
            }),
    ;

    /// Stores a blob under the image's canonical name, overwriting any
    /// previous entry.
    fn put(&mut self, image: &str, data: &[u8]) -> (r: Result<(), CacheError>)
        requires
            old(self).wf(),
        ensures
            final(self).wf(),
            final(self).retains() == old(self).retains(),
            old(self).can_store() ==> r matches Ok(()),
            r matches Ok(()) ==> final(self).contents() == (if old(self).retains() {
                old(self).contents().insert(spec_canonical_name(image@), data@)
            } else {
                old(self).contents()
            }),
            r matches Err(_) ==> final(self).contents() == old(self).contents(),
    ;

    /// Deletes entries, oldest first, until the total size in MiB is within
    /// the budget: what remains is the longest suffix (the newest entries)
    /// that fits, so nothing newer is deleted than the budget forces.
    fn purge(&mut self, max_size_mib: u64) -> (r: Result<(), CacheError>)
        requires
            old(self).wf(),
        ensures
            final(self).wf(),
            final(self).retains() == old(self).retains(),
            final(self).can_store() == old(self).can_store(),
            final(self).total_size_mib() <= max_size_mib as int,
            exists|k: int|
                0 <= k <= old(self).entries_view().len() && final(self).entries_view() == (
                #[trigger] old(self).entries_view().skip(k)) && (k > 0 ==> total_mib(
                    old(self).entries_view().skip(k - 1),
                ) > max_size_mib as int),
            forall|k: Seq<char>| final(self).contents().contains_key(k) ==> old(
                self,
            ).contents().contains_key(k) && final(self).contents()[k] == old(self).contents()[k],
    ;
}

/// The on-disk cache: entries ordered oldest-first by modification time.
pub struct FSCache {
    pub base_dir: String,
    pub entries: Vec<CacheEntry>,
    pub clock: u64,
}

impl FSCache {
    pub open spec fn entries_wf(&self) -> bool {
        &&& forall|i: int| 0 <= i < self.entries@.len() ==> (#[trigger] self.entries@[i]).wf()
        &&& forall|i: int, j: int|
            0 <= i < j < self.entries@.len() ==> self.entries@[i].mtime < self.entries@[j].mtime
        &&& forall|i: int| 0 <= i < self.entries@.len() ==> (#[trigger] self.entries@[i]).mtime
            < self.clock
        &&& forall|i: int, j: int|
            0 <= i < j < self.entries@.len() ==> self.entries@[i].name@ != self.entries@[j].name@
    }
}

/// Creates a cache rooted at the given directory.
pub fn new_fs_cache(base_dir: String) -> (r: FSCache)
    ensures
        r.wf(),
        r.contents() == Map::<Seq<char>, Seq<u8>>::empty(),
        r.retains(),
{
    FSCache { base_dir, entries: Vec::new(), clock: 0 }
}

impl FSCache {
    /// The cache file name for an image reference: `/` and `:` become `-`.
    pub fn canonical_name(image: &str) -> (r: String)
        ensures
            r@ == spec_canonical_name(image@),
    {
        let n = image.unicode_len();
        let mut out = String::new();
        let mut i: usize = 0;
        while i < n
            invariant
                i <= n,
                n == image@.len(),
                out@ =~= spec_canonical_name(image@.take(i as int)),
            decreases n - i,
        {
            let c = image.get_char(i);
            let mapped = if c == '/' || c == ':' {
                '-'
            } else {
                c
            };
            crate::json::push_char(&mut out, mapped);
            i = i + 1;
            proof {
                assert(image@.take(i as int).map_values(|c: char| canonical_char(c)) =~= image@.take(
                    i - 1,
                ).map_values(|c: char| canonical_char(c)).push(canonical_char(image@[i - 1])));
            }
        }
        proof {
            assert(image@.take(n as int) =~= image@);
        }
        out
    }

    fn find_entry(&self, name: &str) -> (r: Option<usize>)
        ensures
            match r {
                Some(i) => i < self.entries@.len() && self.entries@[i as int].name@ == name@,
                None => forall|i: int| 0 <= i < self.entries@.len() ==> self.entries@[i].name@
                    != name@,
            },
    {
        let mut i: usize = 0;
        while i < self.entries.len()
            invariant
                i <= self.entries@.len(),
                forall|j: int| 0 <= j < i ==> self.entries@[j].name@ != name@,
            decreases self.entries@.len() - i,
        {
            if compare_str(self.entries[i].name.as_str(), name) {
                return Some(i);
            }
            i = i + 1;
        }
        None
    }
}

/// The uncompressed blob held under `name`, if any: the rightmost entry with
/// that name decides.
proof fn lemma_contents_lookup(entries: Seq<CacheEntry>, i: int)
    requires
        0 <= i < entries.len(),
        forall|a: int, b: int| 0 <= a < b < entries.len() ==> entries[a].name@ != entries[b].name@,
    ensures
        contents_of(entries).contains_key(entries[i].name@),
        contents_of(entries)[entries[i].name@] == entries[i].data@,
    decreases entries.len(),
{
    if i + 1 < entries.len() {
        lemma_contents_lookup(entries.drop_last(), i);
    }
}

proof fn lemma_contents_missing(entries: Seq<CacheEntry>, name: Seq<char>)
    requires
        forall|i: int| 0 <= i < entries.len() ==> entries[i].name@ != name,
    ensures
        !contents_of(entries).contains_key(name),
    decreases entries.len(),
{
    if entries.len() > 0 {
        lemma_contents_missing(entries.drop_last(), name);
    }
}

proof fn lemma_contents_skip(entries: Seq<CacheEntry>, k: int)
    requires
        0 <= k <= entries.len(),
        forall|a: int, b: int| 0 <= a < b < entries.len() ==> entries[a].name@ != entries[b].name@,
    ensures
        forall|n: Seq<char>| #[trigger] contents_of(entries.skip(k)).contains_key(n)
            ==> contents_of(entries).contains_key(n) && contents_of(entries.skip(k))[n]
            == contents_of(entries)[n],
{
    assert forall|n: Seq<char>| #[trigger] contents_of(entries.skip(k)).contains_key(
        n,
    ) implies contents_of(entries).contains_key(n) && contents_of(entries.skip(k))[n]
        == contents_of(entries)[n] by {
        let tail = entries.skip(k);
        lemma_contents_members(tail, n);
        let i = choose|i: int|
            0 <= i < tail.len() && tail[i].name@ == n && tail[i].data@ == contents_of(tail)[n];
        assert(tail[i] == entries[k + i]);
        lemma_contents_lookup(entries, k + i);
    }
}

/// Every key in the contents map is the name of some entry holding its value.
proof fn lemma_contents_members(entries: Seq<CacheEntry>, n: Seq<char>)
    requires
        contents_of(entries).contains_key(n),
    ensures
        exists|i: int|
            0 <= i < entries.len() && entries[i].name@ == n && entries[i].data@ == contents_of(
                entries,
            )[n],
    decreases entries.len(),
{
    if entries.len() > 0 {
        if entries.last().name@ == n {
            assert(entries[entries.len() - 1].name@ == n && entries[entries.len() - 1].data@
                == contents_of(entries)[n]);
        } else {
            lemma_contents_members(entries.drop_last(), n);
            let i = choose|i: int|
                0 <= i < entries.drop_last().len() && entries.drop_last()[i].name@ == n
                    && entries.drop_last()[i].data@ == contents_of(entries.drop_last())[n];
            assert(entries[i].name@ == n && entries[i].data@ == contents_of(entries)[n]);
        }
    }
}

impl ModuleCache for FSCache {
    open spec fn wf(&self) -> bool {
        self.entries_wf()
    }

    open spec fn contents(&self) -> Map<Seq<char>, Seq<u8>> {
        contents_of(self.entries@)
    }

    open spec fn retains(&self) -> bool {
        true
    }

    open spec fn total_size_mib(&self) -> int {
        total_mib(self.entries@)
    }

    open spec fn can_store(&self) -> bool {
        self.clock < u64::MAX
    }

    open spec fn entries_view(&self) -> Seq<CacheEntry> {
        self.entries@
    }

    fn get(&self, image: &str) -> (r: Result<Option<Vec<u8>>, CacheError>) {
        let name = FSCache::canonical_name(image);
        match self.find_entry(name.as_str()) {
            Some(i) => {
                proof {
                    lemma_contents_lookup(self.entries@, i as int);
                }
                let blob = zstd_decompress(self.entries[i].blob.as_slice());
                match blob {
                    Ok(data) => Ok(Some(data)),
                    Err(_) => {
                        // a well-formed entry always decompresses
                        proof {
                            assert(self.entries@[i as int].blob@ == zstd_frame_of(
                                self.entries@[i as int].data@,
                            ));
                            assert(false);
                        }
                        Ok(None)
                    },
                }
            },
            None => {
                proof {
                    lemma_contents_missing(self.entries@, name@);
                }
                Ok(None)
            },
        }
    }

    fn put(&mut self, image: &str, data: &[u8]) -> (r: Result<(), CacheError>) {
        if self.clock == u64::MAX {
            return Err(CacheError::ClockExhausted);
        }
        let name = FSCache::canonical_name(image);
        let compressed = match zstd_compress(data) {
            Ok(c) => c,
            Err(_) => {
                // encoding from a slice always succeeds
                proof {
                    assert(false);
                }
                return Err(CacheError::Compression);
            },
        };
        let ghost entries0 = self.entries@;
        // an overwrite drops the old entry so that the new one can take the
        // newest place in mtime order
        match self.find_entry(name.as_str()) {
            Some(i) => {
                proof {
                    lemma_contents_remove(self.entries@, i as int);
                    self.entries@.remove_ensures(i as int);
                }
                let _ = self.entries.remove(i);
            },
            None => {
                proof {
                    lemma_contents_missing(self.entries@, name@);
                }
            },
        }
        let ghost kept = self.entries@;
        let entry = CacheEntry { name, blob: compressed, mtime: self.clock, data: Ghost(data@) };
        self.entries.push(entry);
        self.clock = self.clock + 1;
        proof {
            assert(self.entries@.drop_last() =~= kept);
            assert(contents_of(self.entries@) =~= contents_of(entries0).insert(
                spec_canonical_name(image@),
                data@,
            ));
        }
        Ok(())
    }

    fn purge(&mut self, max_size_mib: u64) -> (r: Result<(), CacheError>) {
        // find the shortest suffix of entries (the newest ones) whose total
        // size fits the budget; everything older is deleted
        let mut k: usize = self.entries.len();
        let mut kept_mib: u64 = 0;
        proof {
            assert(self.entries@.skip(k as int) =~= Seq::<CacheEntry>::empty());
        }
        while k > 0
            invariant_except_break
                k <= self.entries@.len(),
                kept_mib == total_mib(self.entries@.skip(k as int)),
                kept_mib <= max_size_mib,
            ensures
                k <= self.entries@.len(),
                kept_mib == total_mib(self.entries@.skip(k as int)),
                kept_mib <= max_size_mib,
                k > 0 ==> total_mib(self.entries@.skip(k - 1)) > max_size_mib,
            decreases k,
        {
            let size_bytes = self.entries[k - 1].blob.len();
            let size: u64 = (size_bytes / 0x100000) as u64;
            proof {
                lemma_total_mib_skip(self.entries@, k - 1);
            }
            if size <= max_size_mib - kept_mib {
                kept_mib = kept_mib + size;
                k = k - 1;
            } else {
                break;
            }
        }
        if k == 0 {
            proof {
                assert(self.entries@.skip(0) =~= self.entries@);
                assert(final(self).entries_view() == old(self).entries_view().skip(0));
            }
            return Ok(());
        }
        // delete the k oldest entries
        let ghost entries0 = self.entries@;
        let mut j: usize = 0;
        while j < k
            invariant
                j <= k,
                k <= entries0.len(),
                self.entries@ =~= entries0.skip(j as int),
                self.clock == old(self).clock,
                entries0 == old(self).entries@,
                old(self).wf(),
            decreases k - j,
        {
            proof {
                assert(entries0.skip(j as int).remove(0) =~= entries0.skip(j + 1));
            }
            let _ = self.entries.remove(0);
            j = j + 1;
        }
        proof {
            assert(self.entries@ =~= entries0.skip(k as int));
            assert(final(self).entries_view() == old(self).entries_view().skip(k as int));
            lemma_contents_skip(entries0, k as int);
        }
        Ok(())
    }
}

/// Removing one entry removes exactly its binding from the contents map,
/// provided entry names are unique.
proof fn lemma_contents_remove(entries: Seq<CacheEntry>, i: int)
    requires
        0 <= i < entries.len(),
        forall|a: int, b: int| 0 <= a < b < entries.len() ==> entries[a].name@ != entries[b].name@,
    ensures
        contents_of(entries.remove(i)) =~= contents_of(entries).remove(entries[i].name@),
    decreases entries.len(),
{
    entries.remove_ensures(i);
    if i + 1 == entries.len() {
        assert(entries.remove(i) =~= entries.drop_last());
        lemma_contents_missing(entries.drop_last(), entries[i].name@);
        assert(contents_of(entries.drop_last()) =~= contents_of(entries).remove(
            entries[i].name@,
        ));
    } else {
        lemma_contents_remove(entries.drop_last(), i);
        assert(entries.remove(i).drop_last() =~= entries.drop_last().remove(i));
        assert(entries.remove(i).last() == entries.last());
        assert(contents_of(entries.remove(i)) == contents_of(entries.drop_last().remove(i)).insert(
            entries.last().name@,
            entries.last().data@,
        ));
    }
}

/// A cache that stores nothing: used when no cache directory is configured.
pub struct NopCache {}

/// Creates the always-miss, accept-and-drop cache.
pub fn new_nop_cache() -> (r: NopCache)
    ensures
        r.wf(),
        r.contents() == Map::<Seq<char>, Seq<u8>>::empty(),
        !r.retains(),
{
    NopCache {  }
}

impl ModuleCache for NopCache {
    open spec fn wf(&self) -> bool {
        true
    }

    open spec fn contents(&self) -> Map<Seq<char>, Seq<u8>> {
        Map::empty()
    }

    open spec fn retains(&self) -> bool {
        false
    }

    open spec fn total_size_mib(&self) -> int {
        0
    }

    open spec fn can_store(&self) -> bool {
        true
    }

    open spec fn entries_view(&self) -> Seq<CacheEntry> {
        Seq::empty()
    }

    fn get(&self, image: &str) -> (r: Result<Option<Vec<u8>>, CacheError>) {
        Ok(None)
    }

    fn put(&mut self, image: &str, data: &[u8]) -> (r: Result<(), CacheError>) {
        Ok(())
    }

    fn purge(&mut self, max_size_mib: u64) -> (r: Result<(), CacheError>) {
        proof {
            assert(final(self).entries_view() =~= old(self).entries_view().skip(0));
        }
        Ok(())
    }
}

/// Storing a blob and reading it back under the same image yields exactly
/// that blob, and leaves every other image unaffected.
pub proof fn lemma_cache_put_get(
    before: Map<Seq<char>, Seq<u8>>,
    image: Seq<char>,
    data: Seq<u8>,
    other: Seq<char>,
)
    ensures
        before.insert(spec_canonical_name(image), data)[spec_canonical_name(image)] == data,
        spec_canonical_name(other) != spec_canonical_name(image) ==> !before.contains_key(
            spec_canonical_name(other),
        ) ==> !before.insert(spec_canonical_name(image), data).contains_key(
            spec_canonical_name(other),
        ),
{
}

} // verus!
