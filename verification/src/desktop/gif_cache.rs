//! Cache of decoded GIFs, from which those go first that were not used for longest.
use vstd::prelude::*;

use super::gif_decode::{self, DecodeView, GifDecodeResult};
use crate::text_map::TextMap;
use std::sync::Arc;

verus! {

/// A second handle on a shared value, by `Arc::clone` of std: it points to the same value.
#[verifier::external_body]
pub(crate) fn share<T>(value: &Arc<T>) -> (handle: Arc<T>)
    ensures
        handle == *value,
{
    Arc::clone(value)
}

struct CachedDecodeEntry {
    decoded: Arc<GifDecodeResult>,
    last_access: u64,
}

/// A decoded GIF and when it was last used.
#[verifier::ext_equal]
pub struct EntryView {
    pub decoded: DecodeView,
    pub last_access: u64,
}

impl View for CachedDecodeEntry {
    type V = EntryView;

    closed spec fn view(&self) -> EntryView {
        EntryView { decoded: (*self.decoded)@, last_access: self.last_access }
    }
}

/// Decoded GIFs by their path.
pub struct DecodedGifCache {
    capacity: usize,
    access_clock: u64,
    entries: TextMap<CachedDecodeEntry>,
}

/// What a [`DecodedGifCache`] holds.
#[verifier::ext_equal]
pub struct CacheView {
    /// Number of entries that it keeps.
    pub capacity: nat,
    /// Number of uses so far.
    pub clock: u64,
    /// Decoded GIFs.
    pub entries: Map<Seq<char>, EntryView>,
}

impl View for DecodedGifCache {
    type V = CacheView;

    closed spec fn view(&self) -> CacheView {
        CacheView {
            capacity: self.capacity as nat,
            clock: self.access_clock,
            entries: self.entries@.map_values(|entry: CachedDecodeEntry| entry@),
        }
    }
}

/// The next reading of the clock.
pub open spec fn next_clock(clock: u64) -> u64 {
    if clock == u64::MAX { clock } else { (clock + 1) as u64 }
}

/// A cache after one of its entries was used.
pub open spec fn touched(cache: CacheView, key: Seq<char>) -> CacheView {
    CacheView {
        clock: next_clock(cache.clock),
        entries: cache.entries.insert(
            key,
            EntryView { last_access: next_clock(cache.clock), ..cache.entries[key] },
        ),
        ..cache
    }
}

/// Whether entries are what is left of others when the capacity is kept to: as many as fit, and
/// none that was used before one that went.
pub open spec fn evicted(
    before: Map<Seq<char>, EntryView>,
    after: Map<Seq<char>, EntryView>,
    capacity: nat,
) -> bool {
    &&& after.dom().finite()
    &&& after.dom().len() == if before.dom().len() <= capacity {
        before.dom().len()
    } else {
        capacity
    }
    &&& forall|key: Seq<char>| #[trigger]
        after.dom().contains(key) ==> before.dom().contains(key) && after[key] == before[key]
    &&& forall|kept: Seq<char>, gone: Seq<char>|
        #![trigger after.dom().contains(kept), before.dom().contains(gone)]
        after.dom().contains(kept) && before.dom().contains(gone) && !after.dom().contains(gone)
            ==> before[gone].last_access <= before[kept].last_access
}

/// Entries with a newly decoded GIF, before any goes.
pub open spec fn with_entry(cache: CacheView, key: Seq<char>, decoded: DecodeView) -> Map<
    Seq<char>,
    EntryView,
> {
    cache.entries.insert(key, EntryView { decoded, last_access: next_clock(cache.clock) })
}

/// Whether a cache is another after a GIF was asked for: it is used where it is there, and
/// otherwise decoded and kept.
pub open spec fn loaded(
    before: CacheView,
    after: CacheView,
    key: Seq<char>,
    decoded: DecodeView,
) -> bool {
    if before.entries.dom().contains(key) {
        after == touched(before, key)
    } else {
        &&& after.capacity == before.capacity
        &&& after.clock == next_clock(before.clock)
        &&& evicted(with_entry(before, key, decoded), after.entries, before.capacity)
    }
}

/// What the bytes of a file decode to, where it could be read.
pub open spec fn decoded_file(bytes: Option<Seq<u8>>) -> DecodeView {
    match bytes {
        Some(bytes) => gif_decode::decoded(bytes),
        None => DecodeView::NotGif,
    }
}

impl DecodedGifCache {
    #[verifier::type_invariant]
    spec fn is_well_formed(self) -> bool {
        &&& 1 <= self.capacity
        &&& self@.is_valid()
    }

    /// An empty cache.
    pub fn new(capacity: usize) -> (cache: Self)
        ensures
            cache@ == (CacheView {
                capacity: if capacity == 0 { 1 } else { capacity as nat },
                clock: 0,
                entries: Map::empty(),
            }),
    {
        let entries: TextMap<CachedDecodeEntry> = TextMap::new();
        proof {
            assert(entries@.map_values(|entry: CachedDecodeEntry| entry@) =~= Map::<
                Seq<char>,
                EntryView,
            >::empty());
        }
        DecodedGifCache {
            capacity: if capacity == 0 { 1 } else { capacity },
            access_clock: 0,
            entries,
        }
    }

    /// The decoded GIF of a path; this is no use.
    pub fn peek(&self, key: &str) -> (decoded: Option<&Arc<GifDecodeResult>>)
        ensures
            match decoded {
                Some(decoded) => self@.entries.dom().contains(key@) && (**decoded)@
                    == self@.entries[key@].decoded,
                None => !self@.entries.dom().contains(key@),
            },
    {
        match self.entries.get(key) {
            Some(entry) => Some(&entry.decoded),
            None => None,
        }
    }

    /// The decoded GIF of a path, which is a use.
    pub fn get(&mut self, key: &str) -> (decoded: Option<Arc<GifDecodeResult>>)
        ensures
            match decoded {
                Some(decoded) => {
                    &&& old(self)@.entries.dom().contains(key@)
                    &&& (*decoded)@ == old(self)@.entries[key@].decoded
                    &&& final(self)@ == touched(old(self)@, key@)
                },
                None => !old(self)@.entries.dom().contains(key@) && final(self)@ == old(self)@,
            },
    {
        proof {
            use_type_invariant(&*self);
        }
        let decoded = match self.entries.get(key) {
            Some(entry) => share(&entry.decoded),
            None => return None,
        };
        let ghost before = self@;
        let mut taken: DecodedGifCache = DecodedGifCache::new(1);
        std::mem::swap(self, &mut taken);
        let DecodedGifCache { capacity, access_clock, mut entries } = taken;
        let last_access: u64 = access_clock.saturating_add(1);
        entries.insert(key.to_owned(), CachedDecodeEntry { decoded: share(&decoded), last_access });
        proof {
            let views = entries@.map_values(|entry: CachedDecodeEntry| entry@);
            assert(views =~= touched(before, key@).entries);
            assert(views.dom() =~= before.entries.dom());
        }
        *self = DecodedGifCache { capacity, access_clock: last_access, entries };
        Some(decoded)
    }

    /// The decoded GIF of a path, which is a use; where it is not there, `bytes` are what its
    /// file holds.
    pub fn get_or_load(&mut self, key: &str, bytes: Option<&[u8]>) -> (decoded: Arc<
        GifDecodeResult,
    >)
        ensures
            (*decoded)@ == if old(self)@.entries.dom().contains(key@) {
                old(self)@.entries[key@].decoded
            } else {
                decoded_file(opt_bytes(bytes))
            },
            loaded(old(self)@, final(self)@, key@, decoded_file(opt_bytes(bytes))),
            final(self)@.is_valid(),
    {
        match self.get(key) {
            Some(decoded) => {
                proof {
                    use_type_invariant(&*self);
                }
                return decoded;
            },
            None => {},
        }
        proof {
            use_type_invariant(&*self);
        }
        let ghost before = self@;
        let decoded = Arc::new(
            match bytes {
                Some(bytes) => gif_decode::decode_gif_bytes(bytes),
                None => GifDecodeResult::NotGif,
            },
        );
        let mut taken: DecodedGifCache = DecodedGifCache::new(1);
        std::mem::swap(self, &mut taken);
        let DecodedGifCache { capacity, access_clock, mut entries } = taken;
        let last_access: u64 = access_clock.saturating_add(1);
        entries.insert(key.to_owned(), CachedDecodeEntry { decoded: share(&decoded), last_access });
        proof {
            let views = entries@.map_values(|entry: CachedDecodeEntry| entry@);
            assert(views =~= with_entry(before, key@, (*decoded)@));
        }
        evict_if_needed(&mut entries, capacity);
        *self = DecodedGifCache { capacity, access_clock: last_access, entries };
        decoded
    }
}

/// What bytes are, where there are any.
pub open spec fn opt_bytes(bytes: Option<&[u8]>) -> Option<Seq<u8>> {
    match bytes {
        Some(bytes) => Some(bytes@),
        None => None,
    }
}

spec fn entry_views(entries: Map<Seq<char>, CachedDecodeEntry>) -> Map<Seq<char>, EntryView> {
    entries.map_values(|entry: CachedDecodeEntry| entry@)
}

fn evict_if_needed(entries: &mut TextMap<CachedDecodeEntry>, capacity: usize)
    ensures
        evicted(entry_views(old(entries)@), entry_views(final(entries)@), capacity as nat),
{
    let ghost before = entry_views(entries@);
    let mut count: usize = entries.len();
    proof {
        assert(before.dom() =~= entries@.dom());
    }
    while count > capacity
        invariant
            count == entries@.dom().len(),
            entries@.dom().finite(),
            before.dom().finite(),
            before.dom().len() >= capacity || count == before.dom().len(),
            count <= before.dom().len(),
            count >= capacity || count == before.dom().len(),
            forall|key: Seq<char>| #[trigger]
                entries@.dom().contains(key) ==> before.dom().contains(key) && entries@[key]@
                    == before[key],
            forall|kept: Seq<char>, gone: Seq<char>|
                #![trigger entries@.dom().contains(kept), before.dom().contains(gone)]
                entries@.dom().contains(kept) && before.dom().contains(gone)
                    && !entries@.dom().contains(gone) ==> before[gone].last_access
                    <= before[kept].last_access,
        decreases count,
    {
        let oldest = oldest_key(entries);
        let ghost earlier = entries@;
        let _entry = entries.remove(oldest.as_str());
        proof {
            assert(entries@.dom() =~= earlier.dom().remove(oldest@));
        }
        count = entries.len();
    }
    proof {
        let after = entry_views(entries@);
        assert(after.dom() =~= entries@.dom());
    }
}

fn oldest_key(entries: &TextMap<CachedDecodeEntry>) -> (oldest: String)
    requires
        entries@.dom().len() > 0,
        entries@.dom().finite(),
    ensures
        entries@.dom().contains(oldest@),
        forall|key: Seq<char>| #[trigger]
            entries@.dom().contains(key) ==> entries@[oldest@].last_access
                <= entries@[key].last_access,
{
    let keys = entries.keys();
    let count: usize = entries.len();
    let mut found: usize = 0;
    let mut at: usize = 1;
    while at < count
        invariant
            1 <= at <= count,
            found < at,
            count == entries.spec_keys().len(),
            forall|i: int|
                0 <= i < at ==> entries@[entries.spec_keys()[found as int]].last_access
                    <= #[trigger] entries@[entries.spec_keys()[i]].last_access,
        decreases count - at,
    {
        if entries.value_at(at).last_access < entries.value_at(found).last_access {
            found = at;
        }
        at += 1;
    }
    proof {
        assert forall|key: Seq<char>| #[trigger]
            entries@.dom().contains(key) implies entries@[entries.spec_keys()[found as int]].last_access
            <= entries@[key].last_access by {
            assert(entries.spec_keys().contains(key));
            let i = choose|i: int|
                0 <= i < entries.spec_keys().len() && entries.spec_keys()[i] == key;
            assert(entries@[entries.spec_keys()[i]].last_access == entries@[key].last_access);
        }
    }
    entries.key_at(found).clone()
}

impl CacheView {
    /// No more entries than the capacity, and none used after now.
    pub open spec fn is_valid(self) -> bool {
        &&& self.entries.dom().finite()
        &&& self.entries.dom().len() <= self.capacity
        &&& forall|key: Seq<char>| #[trigger]
            self.entries.dom().contains(key) ==> self.entries[key].last_access <= self.clock
    }
}

/// What was asked for last is never what goes, as long as uses can be told apart.
pub proof fn lemma_newest_is_kept(
    before: CacheView,
    after: CacheView,
    key: Seq<char>,
    decoded: DecodeView,
)
    requires
        before.is_valid(),
        before.capacity >= 1,
        before.clock < u64::MAX,
        loaded(before, after, key, decoded),
    ensures
        after.entries.dom().contains(key),
        after.entries[key].last_access == after.clock,
{
    if !before.entries.dom().contains(key) {
        let all = with_entry(before, key, decoded);
        assert(all.dom() =~= before.entries.dom().insert(key));
        assert(after.entries.dom().len() >= 1);
        let kept = after.entries.dom().choose();
        assert(after.entries.dom().contains(kept));
        if !after.entries.dom().contains(key) {
            assert(all.dom().contains(key));
            assert(before.entries.dom().contains(kept));
            assert(all[kept] == before.entries[kept]);
        }
    }
}

} // verus!
