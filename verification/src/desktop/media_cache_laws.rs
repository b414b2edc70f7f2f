//! What a media cache keeps, entry by entry, and how its files are named.
use vstd::prelude::*;

use super::media_cache::{
    self, AnswerView, CacheAnswer, CacheEntry, CacheView, EntryView, InsertPlan, MediaCache,
};
use crate::paths;
use crate::text;

verus! {

/// The size of all files is the sum of their sizes: one file more adds its own.
pub proof fn lemma_sizes_add_up(entries: Seq<EntryView>, entry: EntryView)
    ensures
        media_cache::total_size(Seq::empty()) == 0,
        media_cache::total_size(seq![entry]) == entry.size,
        media_cache::total_size(entries.push(entry)) == media_cache::total_size(entries)
            + entry.size,
{
    assert(entries.push(entry).drop_last() =~= entries);
    assert(seq![entry].drop_last() =~= Seq::<EntryView>::empty());
}

/// A file that goes takes its size with it.
pub proof fn lemma_removal_frees_its_size(entries: Seq<EntryView>, at: int)
    requires
        0 <= at < entries.len(),
    ensures
        media_cache::total_size(entries.remove(at)) + entries[at].size
            == media_cache::total_size(entries),
    decreases entries.len(),
{
    let left = entries.remove(at);
    if at == entries.len() - 1 {
        assert(left =~= entries.drop_last());
    } else {
        lemma_removal_frees_its_size(entries.drop_last(), at);
        assert(left.drop_last() =~= entries.drop_last().remove(at));
        assert(left.last() == entries.last());
    }
}

/// Files that fit stay, every one of them; and where they do not fit, one that is not protected
/// goes if there is any.
pub proof fn lemma_files_go_only_when_too_large(
    entries: Seq<EntryView>,
    capacity: nat,
    protected: Option<Seq<char>>,
)
    ensures
        media_cache::total_size(entries) <= capacity ==> media_cache::to_evict(
            entries,
            capacity,
            protected,
        ) is None,
        media_cache::total_size(entries) <= capacity ==> media_cache::after_evictions(
            entries,
            capacity,
            protected,
        ) == entries,
        media_cache::total_size(entries) > capacity && (exists|i: int|
            0 <= i < entries.len() && protected != Some((#[trigger] entries[i]).key))
            ==> media_cache::to_evict(entries, capacity, protected) is Some,
{
    media_cache::lemma_least_used(entries, protected);
}

/// The file that goes is the one that was not used for longest, the earliest of these in the
/// index, and never the protected one.
pub proof fn lemma_least_used_file_goes(
    entries: Seq<EntryView>,
    capacity: nat,
    protected: Option<Seq<char>>,
    other: int,
)
    requires
        media_cache::to_evict(entries, capacity, protected) is Some,
        0 <= other < entries.len(),
        protected != Some(entries[other].key),
    ensures
        ({
            let at = media_cache::to_evict(entries, capacity, protected)->0;
            &&& 0 <= at < entries.len()
            &&& protected != Some(entries[at].key)
            &&& entries[at].last_access_ms <= entries[other].last_access_ms
            &&& other < at ==> entries[at].last_access_ms < entries[other].last_access_ms
        }),
{
    media_cache::lemma_least_used(entries, protected);
    lemma_least_used_is_first(entries, protected, other);
}

proof fn lemma_least_used_is_first(
    entries: Seq<EntryView>,
    protected: Option<Seq<char>>,
    other: int,
)
    requires
        0 <= other < entries.len(),
        protected != Some(entries[other].key),
    ensures
        media_cache::least_used(entries, protected) matches Some(at) && 0 <= at < entries.len()
            && protected != Some(entries[at].key) && entries[at].last_access_ms
            <= entries[other].last_access_ms && (other < at ==> entries[at].last_access_ms
            < entries[other].last_access_ms),
    decreases entries.len(),
{
    let front = entries.drop_last();
    media_cache::lemma_least_used(entries, protected);
    media_cache::lemma_least_used(front, protected);
    if other < front.len() {
        assert(front[other] == entries[other]);
        lemma_least_used_is_first(front, protected, other);
        let before = media_cache::least_used(front, protected)->0;
        assert(front[before] == entries[before]);
    }
}

/// A key without an entry is missed, and so is one whose file is gone; a file that is there is
/// handed out under the cache's directory, but a `.bin` file is stale.
pub proof fn lemma_answers_follow_the_index(
    cache: CacheView,
    key: Seq<char>,
    at: int,
    exists_on_disk: bool,
    now_ms: u64,
)
    requires
        0 <= at < cache.entries.len(),
        cache.entries[at].key == key,
        media_cache::has_distinct_keys(cache.entries),
    ensures
        ({
            let path = paths::joined(cache.root, cache.entries[at].path);
            let answer = media_cache::answer_for(cache, key, exists_on_disk);
            let after = media_cache::after_answer(cache, key, exists_on_disk, now_ms);
            &&& !exists_on_disk ==> answer == AnswerView::Miss && after == cache.entries
            &&& exists_on_disk && media_cache::is_binary(path) ==> {
                &&& answer == (AnswerView::Stale { path })
                &&& after == cache.entries.remove(at)
            }
            &&& exists_on_disk && !media_cache::is_binary(path) ==> {
                &&& answer == (AnswerView::Hit { path })
                &&& after.len() == cache.entries.len()
                &&& after[at].last_access_ms == now_ms
                &&& after[at].key == key
                &&& after[at].path == cache.entries[at].path
                &&& after[at].size == cache.entries[at].size
                &&& forall|i: int|
                    0 <= i < after.len() && i != at ==> #[trigger] after[i] == cache.entries[i]
            }
        }),
{
    media_cache::lemma_position(cache.entries, key);
    let found = media_cache::position(cache.entries, key);
    assert(found is Some);
    if found->0 < at {
        assert(cache.entries[found->0].key != cache.entries[at].key);
    }
}

/// A key that the index does not have is missed, and nothing changes.
pub proof fn lemma_unknown_key_is_missed(
    cache: CacheView,
    key: Seq<char>,
    exists_on_disk: bool,
    now_ms: u64,
)
    requires
        forall|i: int| 0 <= i < cache.entries.len() ==> (#[trigger] cache.entries[i]).key != key,
    ensures
        media_cache::answer_for(cache, key, exists_on_disk) == AnswerView::Miss,
        media_cache::after_answer(cache, key, exists_on_disk, now_ms) == cache.entries,
{
    media_cache::lemma_position(cache.entries, key);
}

/// Noting a file puts it in the place of the one for the same key, or behind the others; the
/// other entries stay.
pub proof fn lemma_noted_file_has_its_entry(entries: Seq<EntryView>, entry: EntryView)
    requires
        media_cache::has_distinct_keys(entries),
    ensures
        ({
            let after = media_cache::with_entry(entries, entry);
            &&& (forall|i: int| 0 <= i < entries.len() ==> (#[trigger] entries[i]).key != entry.key)
                ==> after == entries.push(entry)
            &&& forall|at: int|
                0 <= at < entries.len() && (#[trigger] entries[at]).key == entry.key ==> after
                    == entries.update(at, entry)
        }),
{
    media_cache::lemma_position(entries, entry.key);
    assert forall|at: int|
        0 <= at < entries.len() && (#[trigger] entries[at]).key == entry.key implies
        media_cache::with_entry(entries, entry) == entries.update(at, entry) by {
        let found = media_cache::position(entries, entry.key)->0;
        if found < at {
            assert(entries[found].key != entries[at].key);
        }
    }
}

/// Number of the first `upto` entries whose files are there.
pub open spec fn present_before(present: Seq<bool>, upto: nat) -> nat
    decreases upto,
{
    if upto == 0 {
        0
    } else {
        present_before(present, (upto - 1) as nat) + if present[upto - 1] { 1nat } else { 0nat }
    }
}

/// Entries whose files are there stay, in their order, and the others go.
pub proof fn lemma_entries_of_missing_files_go(
    entries: Seq<EntryView>,
    present: Seq<bool>,
    at: int,
)
    requires
        present.len() >= entries.len(),
        0 <= at < entries.len(),
    ensures
        media_cache::kept(entries, present).len() == present_before(present, entries.len()),
        present[at] ==> {
            &&& present_before(present, at as nat) < media_cache::kept(entries, present).len()
            &&& media_cache::kept(entries, present)[present_before(present, at as nat) as int]
                == entries[at]
        },
    decreases entries.len(),
{
    let front = entries.drop_last();
    if front.len() == 0 {
        assert(media_cache::kept(front, present) =~= Seq::<EntryView>::empty());
    } else if at < front.len() {
        lemma_entries_of_missing_files_go(front, present, at);
        assert(front[at] == entries[at]);
    } else {
        lemma_entries_of_missing_files_go(front, present, 0);
    }
}

/// Each image type has an extension of its own, in whatever case its name is written.
pub proof fn lemma_image_types_have_extensions(content_type: Seq<char>)
    ensures
        text::lowered(content_type) == "image/png"@ ==> media_cache::type_extension(content_type)
            == Some("png"@),
        text::lowered(content_type) == "image/gif"@ ==> media_cache::type_extension(content_type)
            == Some("gif"@),
        text::lowered(content_type) == "image/webp"@ ==> media_cache::type_extension(
            content_type,
        ) == Some("webp"@),
        text::lowered(content_type) == "image/jpeg"@ || text::lowered(content_type)
            == "image/jpg"@ ==> media_cache::type_extension(content_type) == Some("jpg"@),
        media_cache::type_extension(content_type) is Some ==> text::occurs_at(
            text::lowered(content_type),
            "image/"@,
            0,
        ),
{
    reveal_strlit("image/png");
    reveal_strlit("image/gif");
    reveal_strlit("image/webp");
    reveal_strlit("image/jpeg");
    reveal_strlit("image/jpg");
    reveal_strlit("image/");
    assert("image/png"@.len() == 9 && "image/gif"@.len() == 9 && "image/webp"@.len() == 10
        && "image/jpeg"@.len() == 10 && "image/jpg"@.len() == 9);
    assert("image/png"@[6] == 'p' && "image/gif"@[6] == 'g' && "image/webp"@[6] == 'w'
        && "image/jpeg"@[6] == 'j' && "image/jpg"@[6] == 'j');
    assert("image/png"@.subrange(0, 6) =~= "image/"@);
    assert("image/gif"@.subrange(0, 6) =~= "image/"@);
    assert("image/webp"@.subrange(0, 6) =~= "image/"@);
    assert("image/jpeg"@.subrange(0, 6) =~= "image/"@);
    assert("image/jpg"@.subrange(0, 6) =~= "image/"@);
}

/// Images are told apart by their first bytes; a content type that is known counts first.
pub proof fn lemma_images_are_told_by_first_bytes(
    rest: Seq<u8>,
    size: Seq<u8>,
    content_type: Seq<char>,
)
    ensures
        media_cache::bytes_extension(
            seq![137u8, 80u8, 78u8, 71u8, 13u8, 10u8, 26u8, 10u8] + rest,
        ) == Some("png"@),
        media_cache::bytes_extension(seq![255u8, 216u8, 255u8] + rest) == Some("jpg"@),
        media_cache::bytes_extension(seq![71u8, 73u8, 70u8, 56u8, 57u8, 97u8] + rest) == Some(
            "gif"@,
        ),
        media_cache::bytes_extension(seq![71u8, 73u8, 70u8, 56u8, 55u8, 97u8] + rest) == Some(
            "gif"@,
        ),
        size.len() == 4 ==> media_cache::bytes_extension(
            seq![82u8, 73u8, 70u8, 70u8] + size + seq![87u8, 69u8, 66u8, 80u8] + rest,
        ) == Some("webp"@),
        media_cache::bytes_extension(Seq::empty()) is None,
        rest.len() > 0 && rest[0] != 137 && rest[0] != 255 && rest[0] != 71 && rest[0] != 82
            ==> media_cache::bytes_extension(rest) is None,
        media_cache::type_extension(content_type) is Some ==> media_cache::image_extension(
            Some(content_type),
            rest,
        ) == media_cache::type_extension(content_type),
        media_cache::type_extension(content_type) is None ==> media_cache::image_extension(
            Some(content_type),
            rest,
        ) == media_cache::bytes_extension(rest),
        media_cache::image_extension(None, rest) == media_cache::bytes_extension(rest),
{
    let png = seq![137u8, 80u8, 78u8, 71u8, 13u8, 10u8, 26u8, 10u8];
    let jpeg = seq![255u8, 216u8, 255u8];
    let newer = seq![71u8, 73u8, 70u8, 56u8, 57u8, 97u8];
    let older = seq![71u8, 73u8, 70u8, 56u8, 55u8, 97u8];
    let riff = seq![82u8, 73u8, 70u8, 70u8];
    let webp = seq![87u8, 69u8, 66u8, 80u8];
    lemma_first_byte_counts(png + rest);
    lemma_first_byte_counts(jpeg + rest);
    lemma_first_byte_counts(newer + rest);
    lemma_first_byte_counts(older + rest);
    lemma_first_byte_counts(rest);
    assert((png + rest).subrange(0, 8) =~= png);
    assert((jpeg + rest).subrange(0, 3) =~= jpeg);
    assert((newer + rest).subrange(0, 6) =~= newer);
    assert((older + rest).subrange(0, 6) =~= older);
    if size.len() == 4 {
        let whole = riff + size + webp + rest;
        lemma_first_byte_counts(whole);
        assert(whole.subrange(0, 4) =~= riff);
        assert(whole.subrange(8, 12) =~= webp);
    }
}

proof fn lemma_first_byte_counts(bytes: Seq<u8>)
    ensures
        forall|part: Seq<u8>|
            part.len() > 0 && #[trigger] media_cache::holds_at(bytes, 0, part) ==> bytes.len() > 0
                && bytes[0] == part[0],
{
    assert forall|part: Seq<u8>|
        part.len() > 0 && #[trigger] media_cache::holds_at(bytes, 0, part) implies bytes.len() > 0
        && bytes[0] == part[0] by {
        assert(bytes.subrange(0, part.len() as int)[0] == bytes[0]);
    }
}

/// File names are made of lower-case hexadecimal digits, the last one for the last four bits.
pub proof fn lemma_hex_is_written_by_digits(number: nat, digits: nat, digit: nat)
    requires
        digit < 16,
    ensures
        media_cache::hex(number, digits).len() == digits,
        media_cache::hex(number * 16 + digit, digits + 1) == media_cache::hex(number, digits).push(
            media_cache::hex_digit(digit as int),
        ),
        digit < 10 ==> media_cache::hex_digit(digit as int) as int == '0' as int + digit,
        digit >= 10 ==> media_cache::hex_digit(digit as int) as int == 'a' as int + digit - 10,
    decreases digits,
{
    assert((number * 16 + digit) / 16 == number);
    assert((number * 16 + digit) % 16 == digit);
    if digits > 0 {
        lemma_hex_is_written_by_digits(number / 16, (digits - 1) as nat, digit);
    }
}

/// A file is written below the cache's directory, under a name of sixteen digits, a dot and its
/// extension. Files of the same stem with another extension are stale, and no others: neither
/// the file itself nor the index.
pub proof fn lemma_file_is_planned(
    plan: InsertPlan,
    root: Seq<char>,
    hash: u64,
    extension: Seq<char>,
    other: Seq<char>,
    name: Seq<char>,
)
    requires
        media_cache::plans(plan, root, hash, extension),
    ensures
        plan.stem@.len() == 16,
        plan.relative_path@ == plan.stem@ + "."@ + extension,
        plan.absolute_path@ == paths::joined(root, plan.relative_path@),
        other != extension ==> media_cache::is_stale(plan.stem@ + "."@ + other, plan),
        !media_cache::is_stale(plan.relative_path@, plan),
        !media_cache::is_stale("index.json"@, plan),
        name.len() >= 16 && name.take(16) != plan.stem@ ==> !media_cache::is_stale(name, plan),
        name.len() < 17 ==> !media_cache::is_stale(name, plan),
{
    lemma_hex_is_written_by_digits(hash as nat, 16, 0);
    reveal_strlit(".");
    reveal_strlit("index.json");
    let sibling = plan.stem@ + "."@ + other;
    assert(sibling.take(16) =~= plan.stem@);
    assert(sibling[16] == '.');
    if sibling == plan.relative_path@ {
        assert(other =~= sibling.skip(17));
        assert(extension =~= plan.relative_path@.skip(17));
    }
}

/// A new cache lies in a directory of its own below the data directory, keeps at least a byte,
/// and takes over the entries of its index: for distinct keys all of them, in their order.
pub proof fn lemma_new_cache_takes_over_its_index(
    data_dir: &str,
    capacity_bytes: u64,
    entries: Vec<CacheEntry>,
    cache: MediaCache,
)
    requires
        call_ensures(MediaCache::with_capacity, (data_dir, capacity_bytes, entries), cache),
    ensures
        cache@.root == paths::joined(data_dir@, "media-cache"@),
        cache@.index_path == paths::joined(cache@.root, "index.json"@),
        cache@.capacity >= 1,
        capacity_bytes > 0 ==> cache@.capacity == capacity_bytes,
        media_cache::has_distinct_keys(media_cache::entry_views(entries@)) ==> cache@.entries
            == media_cache::entry_views(entries@),
{
    if media_cache::has_distinct_keys(media_cache::entry_views(entries@)) {
        media_cache::lemma_distinct_entries_are_all_kept(media_cache::entry_views(entries@));
    }
}

/// The path of a key is that of its entry, below the cache's directory.
pub proof fn lemma_path_of_key_is_its_file(
    cache: MediaCache,
    key: &str,
    path: Option<String>,
    at: int,
)
    requires
        call_ensures(MediaCache::path_of, (&cache, key), path),
        0 <= at < cache@.entries.len(),
        cache@.entries[at].key == key@,
        media_cache::has_distinct_keys(cache@.entries),
    ensures
        path matches Some(path) && path@ == paths::joined(cache@.root, cache@.entries[at].path),
{
    media_cache::lemma_position(cache@.entries, key@);
    let found = media_cache::position(cache@.entries, key@);
    if found->0 < at {
        assert(cache@.entries[found->0].key != cache@.entries[at].key);
    }
}

/// Bytes that are no image, without a content type that says otherwise, get no plan.
pub proof fn lemma_only_images_are_planned(
    cache: MediaCache,
    key: &str,
    bytes: &[u8],
    plan: Result<InsertPlan, String>,
)
    requires
        call_ensures(MediaCache::plan_insert, (&cache, key, bytes, None::<&str>), plan),
    ensures
        bytes@.len() == 0 ==> plan is Err,
        plan is Err <==> media_cache::bytes_extension(bytes@) is None,
        plan matches Ok(plan) ==> media_cache::plans(
            plan,
            cache@.root,
            media_cache::key_hash(key@),
            media_cache::bytes_extension(bytes@)->0,
        ),
{
    lemma_images_are_told_by_first_bytes(bytes@, Seq::empty(), Seq::empty());
    if bytes@.len() == 0 {
        assert(bytes@ =~= Seq::<u8>::empty());
    }
}

/// A cache answers, notes, evicts and prunes as its index has it, and keeps its directory and
/// its capacity.
pub proof fn lemma_cache_follows_its_index()
    ensures
        forall|
            cache: &mut MediaCache,
            key: &str,
            exists_on_disk: bool,
            now_ms: u64,
            answer: CacheAnswer,
        |
            #[trigger] call_ensures(
                MediaCache::get,
                (cache, key, exists_on_disk, now_ms),
                answer,
            ) ==> {
                &&& answer@ == media_cache::answer_for((*cache)@, key@, exists_on_disk)
                &&& final(cache)@.entries == media_cache::after_answer(
                    (*cache)@,
                    key@,
                    exists_on_disk,
                    now_ms,
                )
                &&& final(cache)@.root == (*cache)@.root
                &&& final(cache)@.capacity == (*cache)@.capacity
                &&& !exists_on_disk ==> answer@ is Miss
            },
        forall|cache: &mut MediaCache, key: &str, path: &str, size: u64, now_ms: u64|
            #[trigger] call_ensures(MediaCache::insert, (cache, key, path, size, now_ms), ())
                ==> {
                &&& final(cache)@.entries == media_cache::with_entry(
                    (*cache)@.entries,
                    EntryView {
                        key: key@,
                        path: path@,
                        size: size as nat,
                        last_access_ms: now_ms,
                    },
                )
                &&& final(cache)@.root == (*cache)@.root
                &&& final(cache)@.capacity == (*cache)@.capacity
            },
        forall|cache: &mut MediaCache, protected: Option<&str>, path: Option<String>|
            #[trigger] call_ensures(MediaCache::next_eviction, (cache, protected), path) ==> {
                let before = (*cache)@;
                let at = media_cache::to_evict(
                    before.entries,
                    before.capacity,
                    media_cache::opt_text(protected),
                );
                &&& path is Some <==> at is Some
                &&& media_cache::total_size(before.entries) <= before.capacity ==> path is None
                &&& path is None ==> final(cache)@ == before
                &&& path is Some ==> path->0@ == paths::joined(
                    before.root,
                    before.entries[at->0].path,
                )
                &&& path is Some ==> final(cache)@.entries == before.entries.remove(at->0)
            },
        forall|cache: &mut MediaCache, present: &[bool]|
            #[trigger] call_ensures(MediaCache::prune_missing_files, (cache, present), ())
                ==> final(cache)@.entries == media_cache::kept((*cache)@.entries, present@),
        forall|cache: &MediaCache, size: u128|
            #[trigger] call_ensures(MediaCache::total_size_bytes, (cache,), size) ==> size
                == media_cache::total_size(cache@.entries),
{
}

} // verus!
