//! Index of a disk-backed media cache, from which the files go first that were not used for
//! longest. The host reads, writes and removes the files.
use vstd::prelude::*;

use crate::paths;
use crate::text;
use std::hash::{Hash, Hasher};

verus! {

/// Name of the cache's directory.
pub const MEDIA_CACHE_DIR: &'static str = "media-cache";

/// Name of the file that keeps the index.
pub const INDEX_FILE: &'static str = "index.json";

/// Number of bytes that a cache keeps, unless told otherwise.
pub const DEFAULT_CAPACITY_BYTES: u64 = 1_073_741_824;

/// A file of the cache.
#[derive(Debug, Clone, PartialEq, Eq)]
pub struct CacheEntry {
    /// What the file is cached for.
    pub key: String,
    /// Path below the cache's directory.
    pub path: String,
    /// Number of bytes.
    pub size: u64,
    /// When the file was last used.
    pub last_access_ms: u64,
}

/// What a [`CacheEntry`] says.
#[verifier::ext_equal]
pub struct EntryView {
    pub key: Seq<char>,
    pub path: Seq<char>,
    pub size: nat,
    pub last_access_ms: u64,
}

impl View for CacheEntry {
    type V = EntryView;

    open spec fn view(&self) -> EntryView {
        EntryView {
            key: self.key@,
            path: self.path@,
            size: self.size as nat,
            last_access_ms: self.last_access_ms,
        }
    }
}

/// What entries say.
pub open spec fn entry_views(entries: Seq<CacheEntry>) -> Seq<EntryView> {
    entries.map_values(|entry: CacheEntry| entry@)
}

/// Number of bytes of all files.
pub open spec fn total_size(entries: Seq<EntryView>) -> nat
    decreases entries.len(),
{
    if entries.len() == 0 {
        0
    } else {
        total_size(entries.drop_last()) + entries.last().size
    }
}

/// Position of the first entry for a key.
pub open spec fn position(entries: Seq<EntryView>, key: Seq<char>) -> Option<int>
    decreases entries.len(),
{
    if entries.len() == 0 {
        None
    } else {
        match position(entries.drop_last(), key) {
            Some(at) => Some(at),
            None => if entries.last().key == key {
                Some(entries.len() - 1)
            } else {
                None
            },
        }
    }
}

/// Position of the first of the entries that were not used for longest, among those whose key
/// is not protected.
pub open spec fn least_used(entries: Seq<EntryView>, protected: Option<Seq<char>>) -> Option<int>
    decreases entries.len(),
{
    if entries.len() == 0 {
        None
    } else {
        let before = least_used(entries.drop_last(), protected);
        if protected == Some(entries.last().key) {
            before
        } else {
            match before {
                Some(at) => if entries.last().last_access_ms < entries[at].last_access_ms {
                    Some(entries.len() - 1)
                } else {
                    before
                },
                None => Some(entries.len() - 1),
            }
        }
    }
}

/// Position of the entry that is to go next, where one is.
pub open spec fn to_evict(
    entries: Seq<EntryView>,
    capacity: nat,
    protected: Option<Seq<char>>,
) -> Option<int> {
    if total_size(entries) > capacity {
        least_used(entries, protected)
    } else {
        None
    }
}

/// What is left once every entry is gone that is to go.
pub open spec fn after_evictions(
    entries: Seq<EntryView>,
    capacity: nat,
    protected: Option<Seq<char>>,
) -> Seq<EntryView>
    decreases entries.len(),
{
    match to_evict(entries, capacity, protected) {
        Some(at) => if 0 <= at < entries.len() {
            after_evictions(entries.remove(at), capacity, protected)
        } else {
            entries
        },
        None => entries,
    }
}

/// The file extension for a content type.
pub open spec fn type_extension(content_type: Seq<char>) -> Option<Seq<char>> {
    let lower = text::lowered(content_type);
    if lower == "image/jpeg"@ || lower == "image/jpg"@ {
        Some("jpg"@)
    } else if lower == "image/png"@ {
        Some("png"@)
    } else if lower == "image/gif"@ {
        Some("gif"@)
    } else if lower == "image/webp"@ {
        Some("webp"@)
    } else {
        None
    }
}

/// Whether `bytes` hold `part` at a position.
pub open spec fn holds_at(bytes: Seq<u8>, at: int, part: Seq<u8>) -> bool {
    at + part.len() <= bytes.len() && bytes.subrange(at, at + part.len()) == part
}

/// The file extension for the bytes of an image.
pub open spec fn bytes_extension(bytes: Seq<u8>) -> Option<Seq<char>> {
    if holds_at(bytes, 0, seq![137u8, 80u8, 78u8, 71u8, 13u8, 10u8, 26u8, 10u8]) {
        Some("png"@)
    } else if holds_at(bytes, 0, seq![255u8, 216u8, 255u8]) {
        Some("jpg"@)
    } else if holds_at(bytes, 0, seq![71u8, 73u8, 70u8, 56u8, 55u8, 97u8]) || holds_at(
        bytes,
        0,
        seq![71u8, 73u8, 70u8, 56u8, 57u8, 97u8],
    ) {
        Some("gif"@)
    } else if holds_at(bytes, 0, seq![82u8, 73u8, 70u8, 70u8]) && holds_at(
        bytes,
        8,
        seq![87u8, 69u8, 66u8, 80u8],
    ) {
        Some("webp"@)
    } else {
        None
    }
}

/// The file extension of an image: that of its content type, or that of its bytes.
pub open spec fn image_extension(content_type: Option<Seq<char>>, bytes: Seq<u8>) -> Option<
    Seq<char>,
> {
    let by_type = match content_type {
        Some(content_type) => type_extension(content_type),
        None => None,
    };
    match by_type {
        Some(extension) => Some(extension),
        None => bytes_extension(bytes),
    }
}

fn starts_at(bytes: &[u8], at: usize, part: &[u8]) -> (yes: bool)
    requires
        at + part@.len() <= usize::MAX,
    ensures
        yes == holds_at(bytes@, at as int, part@),
{
    let length: usize = part.len();
    let available: usize = bytes.len();
    if available < at + length {
        return false;
    }
    let mut done: usize = 0;
    while done < length
        invariant
            done <= length,
            length == part@.len(),
            at + length <= available,
            available == bytes@.len(),
            forall|i: int| 0 <= i < done ==> bytes@[at + i] == part@[i],
        decreases length - done,
    {
        if bytes[at + done] != part[done] {
            proof {
                assert(bytes@.subrange(at as int, at + length)[done as int] == bytes@[at + done]);
            }
            return false;
        }
        done += 1;
    }
    proof {
        assert(bytes@.subrange(at as int, at + length) =~= part@);
    }
    true
}

/// The file extension for a content type.
pub fn extension_from_content_type(content_type: Option<&str>) -> (extension: Option<&'static str>)
    ensures
        match extension {
            Some(extension) => content_type matches Some(content_type) && type_extension(
                content_type@,
            ) == Some(extension@),
            None => content_type matches Some(content_type) ==> type_extension(
                content_type@,
            ) is None,
        },
{
    match content_type {
        Some(content_type) => {
            let chars = text::lower_chars(content_type);
            let lower = text::string_from(&chars, 0, chars.len());
            proof {
                assert(chars@.subrange(0, chars@.len() as int) =~= chars@);
            }
            if *lower.as_str() == *"image/jpeg" || *lower.as_str() == *"image/jpg" {
                Some("jpg")
            } else if *lower.as_str() == *"image/png" {
                Some("png")
            } else if *lower.as_str() == *"image/gif" {
                Some("gif")
            } else if *lower.as_str() == *"image/webp" {
                Some("webp")
            } else {
                None
            }
        },
        None => None,
    }
}

/// The file extension for the bytes of an image.
pub fn extension_from_bytes(bytes: &[u8]) -> (extension: Option<&'static str>)
    ensures
        match extension {
            Some(extension) => bytes_extension(bytes@) == Some(extension@),
            None => bytes_extension(bytes@) is None,
        },
{
    let png: [u8; 8] = [137, 80, 78, 71, 13, 10, 26, 10];
    let jpeg: [u8; 3] = [255, 216, 255];
    let older_gif: [u8; 6] = [71, 73, 70, 56, 55, 97];
    let newer_gif: [u8; 6] = [71, 73, 70, 56, 57, 97];
    let riff: [u8; 4] = [82, 73, 70, 70];
    let webp: [u8; 4] = [87, 69, 66, 80];
    proof {
        assert(png@ =~= seq![137u8, 80u8, 78u8, 71u8, 13u8, 10u8, 26u8, 10u8]);
        assert(jpeg@ =~= seq![255u8, 216u8, 255u8]);
        assert(older_gif@ =~= seq![71u8, 73u8, 70u8, 56u8, 55u8, 97u8]);
        assert(newer_gif@ =~= seq![71u8, 73u8, 70u8, 56u8, 57u8, 97u8]);
        assert(riff@ =~= seq![82u8, 73u8, 70u8, 70u8]);
        assert(webp@ =~= seq![87u8, 69u8, 66u8, 80u8]);
    }
    if starts_at(bytes, 0, &png) {
        Some("png")
    } else if starts_at(bytes, 0, &jpeg) {
        Some("jpg")
    } else if starts_at(bytes, 0, &older_gif) || starts_at(bytes, 0, &newer_gif) {
        Some("gif")
    } else if starts_at(bytes, 0, &riff) && starts_at(bytes, 8, &webp) {
        Some("webp")
    } else {
        None
    }
}

/// A hexadecimal digit.
pub open spec fn hex_digit(digit: int) -> char {
    if digit < 10 { (48 + digit) as char } else { (87 + digit) as char }
}

/// The last `digits` hexadecimal digits of a number.
pub open spec fn hex(number: nat, digits: nat) -> Seq<char>
    decreases digits,
{
    if digits == 0 {
        Seq::empty()
    } else {
        hex(number / 16, (digits - 1) as nat).push(hex_digit((number % 16) as int))
    }
}

fn hex_string(number: u64, digits: u8) -> (string: String)
    ensures
        string@ == hex(number as nat, digits as nat),
    decreases digits,
{
    if digits == 0 {
        String::new()
    } else {
        let mut string: String = hex_string(number / 16, digits - 1);
        let digit: u8 = (number % 16) as u8;
        let c: char = if digit < 10 {
            (48u8 + digit) as char
        } else {
            (87u8 + digit) as char
        };
        string.push(c);
        string
    }
}

/// Hash of a key.
pub uninterp spec fn key_hash(key: Seq<char>) -> u64;

/// Hashes a key with `Hash::hash` of `str` and a hasher made by `DefaultHasher::new` of std,
/// which is the same as every other hasher made so: the hash depends on the key alone. std
/// leaves the algorithm open, so nothing more is said of the number.
#[verifier::external_body]
fn stable_hash(key: &str) -> (hash: u64)
    ensures
        hash == key_hash(key@),
{
    let mut hasher = std::collections::hash_map::DefaultHasher::new();
    key.hash(&mut hasher);
    hasher.finish()
}

/// File name without its extension, for the hash of a key.
pub open spec fn stem_for(hash: u64) -> Seq<char> {
    hex(hash as nat, 16)
}

/// Where a file is to be written.
#[derive(Debug, PartialEq, Eq)]
pub struct InsertPlan {
    /// File name without its extension.
    pub stem: String,
    /// Path below the cache's directory.
    pub relative_path: String,
    /// Path of the file.
    pub absolute_path: String,
}

/// Whether a plan is to write the file for a hash, with an extension.
pub open spec fn plans(
    plan: InsertPlan,
    root: Seq<char>,
    hash: u64,
    extension: Seq<char>,
) -> bool {
    &&& plan.stem@ == stem_for(hash)
    &&& plan.relative_path@ == stem_for(hash) + "."@ + extension
    &&& plan.absolute_path@ == paths::joined(root, plan.relative_path@)
}

/// Where the file for a hash is to be written, with an extension.
pub fn plan_for(root: &str, hash: u64, extension: &str) -> (plan: InsertPlan)
    ensures
        plans(plan, root@, hash, extension@),
{
    let stem = hex_string(hash, 16);
    let mut relative_path: String = stem.clone();
    relative_path.append(".");
    relative_path.append(extension);
    let absolute_path = paths::join(root, relative_path.as_str());
    InsertPlan { stem, relative_path, absolute_path }
}

/// Whether a file is a stale one of the same hash, with another extension.
pub open spec fn is_stale(name: Seq<char>, plan: InsertPlan) -> bool {
    &&& name != plan.relative_path@
    &&& name != INDEX_FILE@
    &&& plan.stem@.len() < name.len()
    &&& name.take(plan.stem@.len() as int) == plan.stem@
    &&& name[plan.stem@.len() as int] == '.'
}

proof fn lemma_hex_length(number: nat, digits: nat)
    ensures
        hex(number, digits).len() == digits,
    decreases digits,
{
    if digits > 0 {
        lemma_hex_length(number / 16, (digits - 1) as nat);
    }
}

/// A key has one file at a time: the file that was written for it before is overwritten, or
/// is a stale one to remove.
pub proof fn lemma_former_file_is_replaced(
    key: Seq<char>,
    root: Seq<char>,
    former: InsertPlan,
    former_extension: Seq<char>,
    plan: InsertPlan,
    extension: Seq<char>,
)
    requires
        plans(former, root, key_hash(key), former_extension),
        plans(plan, root, key_hash(key), extension),
    ensures
        former.relative_path@ == plan.relative_path@ || is_stale(former.relative_path@, plan),
{
    let stem = stem_for(key_hash(key));
    let name = former.relative_path@;
    lemma_hex_length(key_hash(key) as nat, 16);
    reveal_strlit(".");
    reveal_strlit("index.json");
    assert(name.take(stem.len() as int) =~= stem);
    assert(name.len() > INDEX_FILE@.len());
    assert(name[stem.len() as int] == '.');
}

/// Whether a file of the cache's directory is a stale one of the same hash, with another
/// extension.
pub fn is_stale_sibling(name: &str, plan: &InsertPlan) -> (yes: bool)
    ensures
        yes == is_stale(name@, *plan),
{
    if *name == *plan.relative_path.as_str() || *name == *INDEX_FILE {
        return false;
    }
    let chars = text::chars_of(name);
    let stem = text::chars_of(plan.stem.as_str());
    let length: usize = stem.len();
    if chars.len() <= length || chars[length] != '.' {
        return false;
    }
    let start = text::string_from(&chars, 0, length);
    proof {
        assert(chars@.subrange(0, length as int) =~= name@.take(length as int));
    }
    *start.as_str() == *plan.stem.as_str()
}

/// What a cache answers for a key.
#[derive(Debug, PartialEq, Eq)]
pub enum CacheAnswer {
    /// There is no file.
    Miss,
    /// This file is of no use: it is to be removed, and the index written.
    Stale { path: String },
    /// This is the file; the index is to be written.
    Hit { path: String },
}

/// What a [`CacheAnswer`] says.
#[verifier::ext_equal]
pub enum AnswerView {
    Miss,
    Stale { path: Seq<char> },
    Hit { path: Seq<char> },
}

impl View for CacheAnswer {
    type V = AnswerView;

    open spec fn view(&self) -> AnswerView {
        match self {
            CacheAnswer::Miss => AnswerView::Miss,
            CacheAnswer::Stale { path } => AnswerView::Stale { path: path@ },
            CacheAnswer::Hit { path } => AnswerView::Hit { path: path@ },
        }
    }
}

/// Whether a path ends in `.bin`, in whatever case.
pub open spec fn is_binary(path: Seq<char>) -> bool {
    paths::extension(path) matches Some(extension) && text::lowered(extension) == "bin"@
}

/// What a cache answers for a key, where the file of its entry exists or not.
pub open spec fn answer_for(cache: CacheView, key: Seq<char>, exists_on_disk: bool) -> AnswerView {
    match position(cache.entries, key) {
        Some(at) => {
            let path = paths::joined(cache.root, cache.entries[at].path);
            if !exists_on_disk {
                AnswerView::Miss
            } else if is_binary(path) {
                AnswerView::Stale { path }
            } else {
                AnswerView::Hit { path }
            }
        },
        None => AnswerView::Miss,
    }
}

/// Entries after an answer: a stale one is gone, and the one that was asked for is used now.
pub open spec fn after_answer(
    cache: CacheView,
    key: Seq<char>,
    exists_on_disk: bool,
    now_ms: u64,
) -> Seq<EntryView> {
    match position(cache.entries, key) {
        Some(at) => match answer_for(cache, key, exists_on_disk) {
            AnswerView::Miss => cache.entries,
            AnswerView::Stale { .. } => cache.entries.remove(at),
            AnswerView::Hit { .. } => cache.entries.update(
                at,
                EntryView { last_access_ms: now_ms, ..cache.entries[at] },
            ),
        },
        None => cache.entries,
    }
}

/// Entries with one more: in place of that for the same key, or behind the others.
pub open spec fn with_entry(entries: Seq<EntryView>, entry: EntryView) -> Seq<EntryView> {
    match position(entries, entry.key) {
        Some(at) => entries.update(at, entry),
        None => entries.push(entry),
    }
}

/// Whether no two entries are for the same key.
pub open spec fn has_distinct_keys(entries: Seq<EntryView>) -> bool {
    forall|i: int, j: int|
        0 <= i < j < entries.len() ==> (#[trigger] entries[i]).key != (#[trigger] entries[j]).key
}

/// One entry for each key: the last one that a list has for it, where the first one stood.
pub open spec fn one_per_key(entries: Seq<EntryView>) -> Seq<EntryView>
    decreases entries.len(),
{
    if entries.len() == 0 {
        Seq::empty()
    } else {
        with_entry(one_per_key(entries.drop_last()), entries.last())
    }
}

/// Index of a disk-backed media cache, with at most one entry for each key.
#[derive(Debug)]
pub struct MediaCache {
    root: String,
    index_path: String,
    capacity_bytes: u64,
    entries: Vec<CacheEntry>,
}

/// What a [`MediaCache`] holds.
#[verifier::ext_equal]
pub struct CacheView {
    /// The cache's directory.
    pub root: Seq<char>,
    /// Path of the index.
    pub index_path: Seq<char>,
    /// Number of bytes that it keeps.
    pub capacity: nat,
    /// Its files.
    pub entries: Seq<EntryView>,
}

impl View for MediaCache {
    type V = CacheView;

    closed spec fn view(&self) -> CacheView {
        CacheView {
            root: self.root@,
            index_path: self.index_path@,
            capacity: self.capacity_bytes as nat,
            entries: entry_views(self.entries@),
        }
    }
}

/// What a list says that is kept where a flag is set.
pub open spec fn kept(entries: Seq<EntryView>, present: Seq<bool>) -> Seq<EntryView>
    decreases entries.len(),
{
    if entries.len() == 0 {
        Seq::empty()
    } else {
        let before = kept(entries.drop_last(), present);
        if entries.len() <= present.len() && present[entries.len() - 1] {
            before.push(entries.last())
        } else {
            before
        }
    }
}

/// A position is that of the first entry for the key, and a key without one has no entry.
pub proof fn lemma_position(entries: Seq<EntryView>, key: Seq<char>)
    ensures
        match position(entries, key) {
            Some(at) => 0 <= at < entries.len() && entries[at].key == key && forall|i: int|
                0 <= i < at ==> (#[trigger] entries[i]).key != key,
            None => forall|i: int| 0 <= i < entries.len() ==> (#[trigger] entries[i]).key != key,
        },
    decreases entries.len(),
{
    if entries.len() > 0 {
        lemma_position(entries.drop_last(), key);
        assert(forall|i: int|
            0 <= i < entries.len() - 1 ==> entries.drop_last()[i] == #[trigger] entries[i]);
    }
}

/// Noting a file keeps the keys distinct.
pub proof fn lemma_with_entry_keeps_keys_distinct(entries: Seq<EntryView>, entry: EntryView)
    requires
        has_distinct_keys(entries),
    ensures
        has_distinct_keys(with_entry(entries, entry)),
{
    lemma_position(entries, entry.key);
}

/// One entry for each key has distinct keys.
pub proof fn lemma_one_per_key_has_distinct_keys(entries: Seq<EntryView>)
    ensures
        has_distinct_keys(one_per_key(entries)),
    decreases entries.len(),
{
    if entries.len() > 0 {
        lemma_one_per_key_has_distinct_keys(entries.drop_last());
        lemma_with_entry_keeps_keys_distinct(
            one_per_key(entries.drop_last()),
            entries.last(),
        );
    }
}

/// Entries with distinct keys are all kept, in their order.
pub proof fn lemma_distinct_entries_are_all_kept(entries: Seq<EntryView>)
    requires
        has_distinct_keys(entries),
    ensures
        one_per_key(entries) == entries,
    decreases entries.len(),
{
    if entries.len() > 0 {
        let before = entries.drop_last();
        assert(forall|i: int| 0 <= i < before.len() ==> before[i] == #[trigger] entries[i]);
        lemma_distinct_entries_are_all_kept(before);
        lemma_position(before, entries.last().key);
        assert(before.push(entries.last()) =~= entries);
    } else {
        assert(entries =~= Seq::<EntryView>::empty());
    }
}

/// A list of one entry for each key finds for a key what the longer list says of it last.
pub proof fn lemma_last_entry_counts(entries: Seq<EntryView>, at: int)
    requires
        0 <= at < entries.len(),
        forall|i: int| at < i < entries.len() ==> (#[trigger] entries[i]).key != entries[at].key,
    ensures
        position(one_per_key(entries), entries[at].key) matches Some(found) && one_per_key(
            entries,
        )[found] == entries[at],
    decreases entries.len(),
{
    let before = one_per_key(entries.drop_last());
    let last = entries.last();
    let key = entries[at].key;
    lemma_position(before, last.key);
    lemma_position(with_entry(before, last), key);
    lemma_one_per_key_has_distinct_keys(entries);
    if at == entries.len() - 1 {
        match position(before, key) {
            Some(found) => assert(with_entry(before, last)[found] == last),
            None => assert(with_entry(before, last).last() == last),
        }
    } else {
        assert(last.key != key);
        assert(forall|i: int|
            0 <= i < entries.len() - 1 ==> entries.drop_last()[i] == #[trigger] entries[i]);
        lemma_last_entry_counts(entries.drop_last(), at);
        lemma_position(before, key);
        let found = position(before, key)->0;
        assert(with_entry(before, last)[found] == before[found]);
    }
}

/// A key whose entry was taken out has no entry left.
pub proof fn lemma_removed_key_is_gone(entries: Seq<EntryView>, at: int)
    requires
        has_distinct_keys(entries),
        0 <= at < entries.len(),
    ensures
        has_distinct_keys(entries.remove(at)),
        position(entries.remove(at), entries[at].key) is None,
{
    lemma_position(entries.remove(at), entries[at].key);
}

/// Dropping entries keeps the keys distinct, and what is kept was there before.
pub proof fn lemma_kept_keeps_keys_distinct(entries: Seq<EntryView>, present: Seq<bool>)
    requires
        has_distinct_keys(entries),
    ensures
        has_distinct_keys(kept(entries, present)),
        forall|i: int|
            0 <= i < kept(entries, present).len() ==> entries.contains(
                #[trigger] kept(entries, present)[i],
            ),
    decreases entries.len(),
{
    if entries.len() > 0 {
        let before = entries.drop_last();
        let list = kept(entries, present);
        assert(forall|i: int| 0 <= i < before.len() ==> before[i] == #[trigger] entries[i]);
        lemma_kept_keeps_keys_distinct(before, present);
        assert forall|i: int| 0 <= i < list.len() implies entries.contains(#[trigger] list[i]) by {
            if i < kept(before, present).len() {
                assert(list[i] == kept(before, present)[i]);
                let j = choose|j: int| 0 <= j < before.len() && before[j] == list[i];
                assert(entries[j] == list[i]);
            } else {
                assert(entries[entries.len() - 1] == list[i]);
            }
        }
        assert forall|i: int, j: int| 0 <= i < j < list.len() implies (#[trigger] list[i]).key != (
        #[trigger] list[j]).key by {
            let shorter = kept(before, present);
            assert(list[i] == shorter[i]);
            if j < shorter.len() {
                assert(list[j] == shorter[j]);
            } else {
                let k = choose|k: int| 0 <= k < before.len() && before[k] == shorter[i];
                assert(entries[k].key != entries[entries.len() - 1].key);
            }
        }
    }
}

/// The least used entry is not protected, and no other such entry was unused for longer.
pub proof fn lemma_least_used(entries: Seq<EntryView>, protected: Option<Seq<char>>)
    ensures
        match least_used(entries, protected) {
            Some(at) => {
                &&& 0 <= at < entries.len()
                &&& protected != Some(entries[at].key)
                &&& forall|i: int|
                    0 <= i < entries.len() && protected != Some(entries[i].key)
                        ==> entries[at].last_access_ms <= (#[trigger] entries[i]).last_access_ms
            },
            None => forall|i: int|
                0 <= i < entries.len() ==> protected == Some((#[trigger] entries[i]).key),
        },
    decreases entries.len(),
{
    if entries.len() > 0 {
        lemma_least_used(entries.drop_last(), protected);
        assert(forall|i: int|
            0 <= i < entries.len() - 1 ==> entries.drop_last()[i] == #[trigger] entries[i]);
    }
}

fn find_entry(entries: &Vec<CacheEntry>, key: &str) -> (found: Option<usize>)
    ensures
        match found {
            Some(at) => position(entry_views(entries@), key@) == Some(at as int) && at
                < entries@.len(),
            None => position(entry_views(entries@), key@) is None,
        },
{
    let ghost all = entry_views(entries@);
    let mut at: usize = 0;
    proof {
        assert(all.take(0) =~= Seq::<EntryView>::empty());
    }
    while at < entries.len()
        invariant
            at <= entries@.len(),
            all == entry_views(entries@),
            position(all.take(at as int), key@) is None,
        decreases entries@.len() - at,
    {
        proof {
            assert(all.take(at + 1).drop_last() =~= all.take(at as int));
            assert(all.take(at + 1).last() == entries@[at as int]@);
        }
        if *entries[at].key.as_str() == *key {
            proof {
                lemma_position_in_prefix(all, key@, at + 1);
            }
            return Some(at);
        }
        at += 1;
    }
    proof {
        assert(all.take(at as int) =~= all);
    }
    None
}

fn put_entry(entries: &mut Vec<CacheEntry>, entry: CacheEntry)
    ensures
        entry_views(final(entries)@) == with_entry(entry_views(old(entries)@), entry@),
{
    let ghost before = entry_views(entries@);
    let ghost view = entry@;
    match find_entry(entries, entry.key.as_str()) {
        Some(at) => {
            entries.set(at, entry);
            proof {
                assert(entry_views(entries@) =~= before.update(at as int, view));
            }
        },
        None => {
            entries.push(entry);
            proof {
                assert(entry_views(entries@) =~= before.push(view));
            }
        },
    }
}

fn copy_entry(entry: &CacheEntry) -> (copy: CacheEntry)
    ensures
        copy@ == entry@,
{
    CacheEntry {
        key: entry.key.clone(),
        path: entry.path.clone(),
        size: entry.size,
        last_access_ms: entry.last_access_ms,
    }
}

impl Clone for MediaCache {
    fn clone(&self) -> (copy: Self)
        ensures
            copy@ == self@,
    {
        proof {
            use_type_invariant(self);
        }
        let ghost all = self@.entries;
        let mut entries: Vec<CacheEntry> = Vec::new();
        let mut at: usize = 0;
        proof {
            assert(entry_views(entries@) =~= all.take(0));
        }
        while at < self.entries.len()
            invariant
                at <= self.entries@.len(),
                all == entry_views(self.entries@),
                entry_views(entries@) == all.take(at as int),
            decreases self.entries@.len() - at,
        {
            let entry = copy_entry(&self.entries[at]);
            let ghost earlier = entries@;
            let ghost view = entry@;
            entries.push(entry);
            proof {
                assert(entry_views(entries@) =~= entry_views(earlier).push(view));
                assert(all.take(at + 1) =~= all.take(at as int).push(view));
            }
            at += 1;
        }
        proof {
            assert(all.take(at as int) =~= all);
        }
        MediaCache {
            root: self.root.clone(),
            index_path: self.index_path.clone(),
            capacity_bytes: self.capacity_bytes,
            entries,
        }
    }
}

impl MediaCache {
    #[verifier::type_invariant]
    spec fn is_well_formed(self) -> bool {
        has_distinct_keys(entry_views(self.entries@))
    }

    /// A cache below a data directory, with the default capacity and the entries of its index.
    pub fn new(data_dir: &str, entries: Vec<CacheEntry>) -> (cache: Self)
        ensures
            cache@ == (CacheView {
                root: paths::joined(data_dir@, MEDIA_CACHE_DIR@),
                index_path: paths::joined(
                    paths::joined(data_dir@, MEDIA_CACHE_DIR@),
                    INDEX_FILE@,
                ),
                capacity: DEFAULT_CAPACITY_BYTES as nat,
                entries: one_per_key(entry_views(entries@)),
            }),
    {
        MediaCache::with_capacity(data_dir, DEFAULT_CAPACITY_BYTES, entries)
    }

    /// A cache below a data directory, with a capacity of at least one byte and the entries of
    /// its index.
    pub fn with_capacity(data_dir: &str, capacity_bytes: u64, entries: Vec<CacheEntry>) -> (cache:
        Self)
        ensures
            cache@ == (CacheView {
                root: paths::joined(data_dir@, MEDIA_CACHE_DIR@),
                index_path: paths::joined(
                    paths::joined(data_dir@, MEDIA_CACHE_DIR@),
                    INDEX_FILE@,
                ),
                capacity: if capacity_bytes == 0 { 1 } else { capacity_bytes as nat },
                entries: one_per_key(entry_views(entries@)),
            }),
    {
        let ghost all = entry_views(entries@);
        let mut kept: Vec<CacheEntry> = Vec::new();
        let mut at: usize = 0;
        proof {
            assert(all.take(0) =~= Seq::<EntryView>::empty());
            assert(entry_views(kept@) =~= Seq::<EntryView>::empty());
        }
        while at < entries.len()
            invariant
                at <= entries@.len(),
                all == entry_views(entries@),
                entry_views(kept@) == one_per_key(all.take(at as int)),
            decreases entries@.len() - at,
        {
            proof {
                assert(all.take(at + 1).drop_last() =~= all.take(at as int));
                assert(all.take(at + 1).last() == entries@[at as int]@);
            }
            put_entry(&mut kept, copy_entry(&entries[at]));
            at += 1;
        }
        proof {
            assert(all.take(at as int) =~= all);
            lemma_one_per_key_has_distinct_keys(all);
        }
        let root = paths::join(data_dir, MEDIA_CACHE_DIR);
        let index_path = paths::join(root.as_str(), INDEX_FILE);
        MediaCache {
            root,
            index_path,
            capacity_bytes: if capacity_bytes == 0 { 1 } else { capacity_bytes },
            entries: kept,
        }
    }

    /// The cache's directory.
    pub fn root(&self) -> (root: &str)
        ensures
            root@ == self@.root,
    {
        self.root.as_str()
    }

    /// Path of the index.
    pub fn index_path(&self) -> (path: &str)
        ensures
            path@ == self@.index_path,
    {
        self.index_path.as_str()
    }

    /// Entries of the index.
    pub fn entries(&self) -> (entries: &[CacheEntry])
        ensures
            entry_views(entries@) == self@.entries,
            has_distinct_keys(self@.entries),
    {
        proof {
            use_type_invariant(self);
        }
        self.entries.as_slice()
    }

    fn take_entries(&mut self) -> (entries: Vec<CacheEntry>)
        ensures
            entries@ == old(self).entries@,
            has_distinct_keys(entry_views(entries@)),
            final(self)@ == (CacheView { entries: Seq::empty(), ..old(self)@ }),
    {
        proof {
            use_type_invariant(&*self);
        }
        let mut entries: Vec<CacheEntry> = Vec::new();
        proof {
            assert(entry_views(entries@) =~= Seq::<EntryView>::empty());
        }
        std::mem::swap(&mut entries, &mut self.entries);
        entries
    }

    /// Path of the file for a key, for the host to see whether it exists.
    pub fn path_of(&self, key: &str) -> (path: Option<String>)
        ensures
            match path {
                Some(path) => position(self@.entries, key@) matches Some(at) && path@
                    == paths::joined(self@.root, self@.entries[at].path),
                None => position(self@.entries, key@) is None,
            },
    {
        match find_entry(&self.entries, key) {
            Some(at) => Some(paths::join(self.root.as_str(), self.entries[at].path.as_str())),
            None => None,
        }
    }

    /// What to answer for a key, where the file of its entry exists or not.
    pub fn get(&mut self, key: &str, exists_on_disk: bool, now_ms: u64) -> (answer: CacheAnswer)
        ensures
            answer@ == answer_for(old(self)@, key@, exists_on_disk),
            final(self)@ == (CacheView {
                entries: after_answer(old(self)@, key@, exists_on_disk, now_ms),
                ..old(self)@
            }),
    {
        let ghost before = self@;
        let at: usize = match find_entry(&self.entries, key) {
            Some(at) => at,
            None => return CacheAnswer::Miss,
        };
        let path = paths::join(self.root.as_str(), self.entries[at].path.as_str());
        if !exists_on_disk {
            return CacheAnswer::Miss;
        }
        let binary = match paths::extension_of(path.as_str()) {
            Some(extension) => {
                let chars = text::lower_chars(extension.as_str());
                let lower = text::string_from(&chars, 0, chars.len());
                proof {
                    assert(chars@.subrange(0, chars@.len() as int) =~= chars@);
                }
                *lower.as_str() == *"bin"
            },
            None => false,
        };
        if binary {
            let mut entries = self.take_entries();
            let _entry = entries.remove(at);
            proof {
                assert(entry_views(entries@) =~= before.entries.remove(at as int));
            }
            self.entries = entries;
            return CacheAnswer::Stale { path };
        }
        let mut used = copy_entry(&self.entries[at]);
        used.last_access_ms = now_ms;
        let ghost view = used@;
        let mut entries = self.take_entries();
        entries.set(at, used);
        proof {
            assert(entry_views(entries@) =~= before.entries.update(at as int, view));
        }
        self.entries = entries;
        CacheAnswer::Hit { path }
    }

    /// Where the file for a key is to be written.
    pub fn plan_insert(&self, key: &str, bytes: &[u8], content_type: Option<&str>) -> (result:
        Result<InsertPlan, String>)
        ensures
            match image_extension(opt_text(content_type), bytes@) {
                Some(extension) => result matches Ok(plan) && plans(
                    plan,
                    self@.root,
                    key_hash(key@),
                    extension,
                ),
                None => result matches Err(message) && message@
                    == "unsupported image format; expected png/jpeg/gif/webp bytes"@,
            },
    {
        let extension: &'static str = match extension_from_content_type(content_type) {
            Some(extension) => extension,
            None => match extension_from_bytes(bytes) {
                Some(extension) => extension,
                None => return Err(
                    "unsupported image format; expected png/jpeg/gif/webp bytes".to_owned(),
                ),
            },
        };
        let hash: u64 = stable_hash(key);
        let plan = plan_for(self.root.as_str(), hash, extension);
        proof {
            assert(image_extension(opt_text(content_type), bytes@) == Some(extension@));
        }
        Ok(plan)
    }

    /// Note a file that was written.
    pub fn insert(&mut self, key: &str, relative_path: &str, size: u64, now_ms: u64)
        ensures
            final(self)@ == (CacheView {
                entries: with_entry(
                    old(self)@.entries,
                    EntryView {
                        key: key@,
                        path: relative_path@,
                        size: size as nat,
                        last_access_ms: now_ms,
                    },
                ),
                ..old(self)@
            }),
    {
        let entry = CacheEntry {
            key: key.to_owned(),
            path: relative_path.to_owned(),
            size,
            last_access_ms: now_ms,
        };
        let mut entries = self.take_entries();
        proof {
            lemma_with_entry_keeps_keys_distinct(entry_views(entries@), entry@);
        }
        put_entry(&mut entries, entry);
        self.entries = entries;
    }

    /// Number of bytes of all files.
    pub fn total_size_bytes(&self) -> (size: u128)
        ensures
            size == total_size(self@.entries),
    {
        let ghost all = self@.entries;
        let mut size: u128 = 0;
        let mut at: usize = 0;
        proof {
            assert(all.take(0) =~= Seq::<EntryView>::empty());
        }
        while at < self.entries.len()
            invariant
                at <= self.entries@.len(),
                all == entry_views(self.entries@),
                size == total_size(all.take(at as int)),
                size <= at * u64::MAX,
            decreases self.entries@.len() - at,
        {
            proof {
                assert(all.take(at + 1).drop_last() =~= all.take(at as int));
                assert(all.take(at + 1).last() == self.entries@[at as int]@);
                assert(at * u64::MAX + u64::MAX == (at + 1) * u64::MAX) by (nonlinear_arith);
                assert((at + 1) * u64::MAX <= u128::MAX) by (nonlinear_arith)
                    requires
                        at < usize::MAX,
                        usize::MAX <= u64::MAX,
                ;
            }
            size = size + self.entries[at].size as u128;
            at += 1;
        }
        proof {
            assert(all.take(at as int) =~= all);
        }
        size
    }

    fn find_least_used(&self, protected: Option<&str>) -> (found: Option<usize>)
        ensures
            match found {
                Some(at) => least_used(self@.entries, opt_text(protected)) == Some(at as int) && at
                    < self.entries@.len(),
                None => least_used(self@.entries, opt_text(protected)) is None,
            },
    {
        let ghost all = self@.entries;
        let mut found: Option<usize> = None;
        let mut at: usize = 0;
        proof {
            assert(all.take(0) =~= Seq::<EntryView>::empty());
        }
        while at < self.entries.len()
            invariant
                at <= self.entries@.len(),
                all == entry_views(self.entries@),
                match found {
                    Some(index) => index < at && least_used(
                        all.take(at as int),
                        opt_text(protected),
                    ) == Some(index as int),
                    None => least_used(all.take(at as int), opt_text(protected)) is None,
                },
            decreases self.entries@.len() - at,
        {
            proof {
                assert(all.take(at + 1).drop_last() =~= all.take(at as int));
                assert(all.take(at + 1).last() == self.entries@[at as int]@);
            }
            let entry = &self.entries[at];
            let is_protected = match protected {
                Some(protected) => *entry.key.as_str() == *protected,
                None => false,
            };
            if !is_protected {
                match found {
                    Some(index) => {
                        proof {
                            assert(all.take(at + 1)[index as int] == self.entries@[index as int]@);
                        }
                        if entry.last_access_ms < self.entries[index].last_access_ms {
                            found = Some(at);
                        }
                    },
                    None => found = Some(at),
                }
            }
            at += 1;
        }
        proof {
            assert(all.take(at as int) =~= all);
        }
        found
    }

    /// Take the next entry out of the index that is to go, where one is, and say which file is to
    /// be removed; nothing goes that is protected.
    pub fn next_eviction(&mut self, protected: Option<&str>) -> (path: Option<String>)
        ensures
            match to_evict(old(self)@.entries, old(self)@.capacity, opt_text(protected)) {
                Some(at) => {
                    &&& 0 <= at < old(self)@.entries.len()
                    &&& path matches Some(path)
                    &&& path@ == paths::joined(old(self)@.root, old(self)@.entries[at].path)
                    &&& final(self)@ == (CacheView {
                        entries: old(self)@.entries.remove(at),
                        ..old(self)@
                    })
                },
                None => path is None && final(self)@ == old(self)@,
            },
    {
        if self.total_size_bytes() <= self.capacity_bytes as u128 {
            return None;
        }
        let ghost before = self@;
        match self.find_least_used(protected) {
            Some(at) => {
                let mut entries = self.take_entries();
                let entry = entries.remove(at);
                proof {
                    assert(entry_views(entries@) =~= before.entries.remove(at as int));
                }
                self.entries = entries;
                Some(paths::join(self.root.as_str(), entry.path.as_str()))
            },
            None => None,
        }
    }

    /// Drop the entries whose files are missing; `present` says of each whether its file exists.
    pub fn prune_missing_files(&mut self, present: &[bool])
        requires
            present@.len() == old(self)@.entries.len(),
        ensures
            final(self)@ == (CacheView {
                entries: kept(old(self)@.entries, present@),
                ..old(self)@
            }),
    {
        let ghost before = self@;
        let mut entries: Vec<CacheEntry> = Vec::new();
        let mut at: usize = 0;
        proof {
            assert(before.entries.take(0) =~= Seq::<EntryView>::empty());
            assert(entry_views(entries@) =~= Seq::<EntryView>::empty());
        }
        while at < self.entries.len()
            invariant
                at <= self.entries@.len(),
                self@ == before,
                before.entries == entry_views(self.entries@),
                present@.len() == self.entries@.len(),
                entry_views(entries@) == kept(before.entries.take(at as int), present@),
            decreases self.entries@.len() - at,
        {
            proof {
                assert(before.entries.take(at + 1).drop_last() =~= before.entries.take(at as int));
                assert(before.entries.take(at + 1).last() == self.entries@[at as int]@);
            }
            if present[at] {
                let entry = copy_entry(&self.entries[at]);
                let ghost earlier = entries@;
                let ghost view = entry@;
                entries.push(entry);
                proof {
                    assert(entry_views(entries@) =~= entry_views(earlier).push(view));
                }
            }
            at += 1;
        }
        proof {
            assert(before.entries.take(at as int) =~= before.entries);
            use_type_invariant(&*self);
            lemma_kept_keeps_keys_distinct(before.entries, present@);
        }
        self.entries = entries;
    }
}

/// What a text is, where there is one.
pub open spec fn opt_text(text: Option<&str>) -> Option<Seq<char>> {
    match text {
        Some(text) => Some(text@),
        None => None,
    }
}

proof fn lemma_position_in_prefix(entries: Seq<EntryView>, key: Seq<char>, upto: int)
    requires
        0 <= upto <= entries.len(),
        position(entries.take(upto), key) is Some,
    ensures
        position(entries, key) == position(entries.take(upto), key),
    decreases entries.len(),
{
    if upto == entries.len() {
        assert(entries.take(upto) =~= entries);
    } else {
        assert(entries.drop_last().take(upto) =~= entries.take(upto));
        lemma_position_in_prefix(entries.drop_last(), key, upto);
    }
}

/// Once every entry is gone that is to go, the files fit, or nothing is left but what is
/// protected; and what is left was there before.
pub proof fn lemma_evictions_keep_to_capacity(
    entries: Seq<EntryView>,
    capacity: nat,
    protected: Option<Seq<char>>,
)
    ensures
        ({
            let left = after_evictions(entries, capacity, protected);
            &&& to_evict(left, capacity, protected) is None
            &&& total_size(left) <= capacity || forall|i: int|
                0 <= i < left.len() ==> protected == Some((#[trigger] left[i]).key)
        }),
    decreases entries.len(),
{
    lemma_least_used(entries, protected);
    match to_evict(entries, capacity, protected) {
        Some(at) => lemma_evictions_keep_to_capacity(entries.remove(at), capacity, protected),
        None => {},
    }
}

/// What is protected never goes.
pub proof fn lemma_protected_entry_stays(
    entries: Seq<EntryView>,
    capacity: nat,
    protected: Seq<char>,
)
    ensures
        position(entries, protected) is Some ==> position(
            after_evictions(entries, capacity, Some(protected)),
            protected,
        ) is Some,
    decreases entries.len(),
{
    lemma_least_used(entries, Some(protected));
    match to_evict(entries, capacity, Some(protected)) {
        Some(at) => {
            let rest = entries.remove(at);
            lemma_protected_entry_stays(rest, capacity, protected);
            if let Some(index) = position(entries, protected) {
                lemma_position(entries, protected);
                lemma_position(rest, protected);
                let moved = if index < at { index } else { index - 1 };
                assert(rest[moved] == entries[index]);
            }
        },
        None => {},
    }
}

/// No entry goes that was used after one that stays and is not protected.
pub proof fn lemma_least_used_goes_first(
    entries: Seq<EntryView>,
    capacity: nat,
    protected: Option<Seq<char>>,
    other: int,
)
    requires
        to_evict(entries, capacity, protected) is Some,
        0 <= other < entries.len(),
        protected != Some(entries[other].key),
    ensures
        entries[to_evict(entries, capacity, protected)->0].last_access_ms
            <= entries[other].last_access_ms,
{
    lemma_least_used(entries, protected);
}

/// A file that was noted is found again, with its path, as long as it is no `.bin` file.
pub proof fn lemma_inserted_file_is_found(cache: CacheView, entry: EntryView)
    requires
        !is_binary(paths::joined(cache.root, entry.path)),
    ensures
        answer_for(
            CacheView { entries: with_entry(cache.entries, entry), ..cache },
            entry.key,
            true,
        ) == (AnswerView::Hit { path: paths::joined(cache.root, entry.path) }),
{
    let entries = with_entry(cache.entries, entry);
    lemma_position(cache.entries, entry.key);
    lemma_position(entries, entry.key);
    match position(cache.entries, entry.key) {
        Some(at) => {
            assert(entries[at] == entry);
            let found = position(entries, entry.key)->0;
            if found < at {
                assert(entries[found] == cache.entries[found]);
            }
        },
        None => {
            assert(entries.last() == entry);
            let found = position(entries, entry.key)->0;
            if found < cache.entries.len() {
                assert(entries[found] == cache.entries[found]);
            }
        },
    }
}

} // verus!
