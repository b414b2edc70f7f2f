//! Index of the media cache.
use pikachat::desktop::media_cache::{
    CacheAnswer, CacheEntry, InsertPlan, MediaCache, extension_from_bytes,
    extension_from_content_type, is_stale_sibling, plan_for,
};

fn entry(key: &str, path: &str, size: u64, last_access_ms: u64) -> CacheEntry {
    CacheEntry {
        key: key.to_owned(),
        path: path.to_owned(),
        size,
        last_access_ms,
    }
}

fn keys(cache: &MediaCache) -> Vec<&str> {
    cache.entries().iter().map(|e| e.key.as_str()).collect()
}

#[test]
fn cache_lies_below_the_data_directory() {
    let cache = MediaCache::new("/data", vec![]);
    assert_eq!(cache.root(), "/data/media-cache");
    assert_eq!(cache.index_path(), "/data/media-cache/index.json");
    assert!(cache.entries().is_empty());
}

#[test]
fn extensions_come_from_the_type_or_the_bytes() {
    assert_eq!(extension_from_content_type(Some("Image/JPEG")), Some("jpg"));
    assert_eq!(extension_from_content_type(Some("image/jpg")), Some("jpg"));
    assert_eq!(extension_from_content_type(Some("image/png")), Some("png"));
    assert_eq!(extension_from_content_type(Some("image/gif")), Some("gif"));
    assert_eq!(extension_from_content_type(Some("image/webp")), Some("webp"));
    assert_eq!(extension_from_content_type(Some("text/plain")), None);
    assert_eq!(extension_from_content_type(None), None);

    assert_eq!(
        extension_from_bytes(b"\x89PNG\x0D\x0A\x1A\x0Arest"),
        Some("png")
    );
    assert_eq!(extension_from_bytes(b"\xFF\xD8\xFFrest"), Some("jpg"));
    assert_eq!(extension_from_bytes(b"GIF87arest"), Some("gif"));
    assert_eq!(extension_from_bytes(b"GIF89arest"), Some("gif"));
    assert_eq!(extension_from_bytes(b"RIFF1234WEBPrest"), Some("webp"));
    assert_eq!(extension_from_bytes(b"RIFF1234WAVErest"), None);
    assert_eq!(extension_from_bytes(b"\x89PNG"), None);
    assert_eq!(extension_from_bytes(b""), None);
}

#[test]
fn files_are_named_by_the_hash_of_their_key() {
    assert_eq!(
        plan_for("/data/media-cache", 0xAB, "png"),
        InsertPlan {
            stem: "00000000000000ab".to_owned(),
            relative_path: "00000000000000ab.png".to_owned(),
            absolute_path: "/data/media-cache/00000000000000ab.png".to_owned(),
        }
    );

    let cache = MediaCache::new("/data", vec![]);
    let by_type = cache
        .plan_insert("mxc://example.org/a", b"whatever", Some("image/png"))
        .expect("a known type should do");
    let by_bytes = cache
        .plan_insert("mxc://example.org/a", b"GIF89a", Some("text/plain"))
        .expect("known bytes should do");
    let other = cache
        .plan_insert("mxc://example.org/b", b"GIF89a", None)
        .expect("known bytes should do");
    assert_eq!(by_type.stem.len(), 16);
    assert_eq!(by_type.stem, by_bytes.stem);
    assert_ne!(by_type.stem, other.stem);
    assert!(is_stale_sibling(&by_type.relative_path, &by_bytes));
    assert!(!is_stale_sibling(&other.relative_path, &by_bytes));
    assert_eq!(by_bytes.relative_path, format!("{}.gif", by_bytes.stem));
    assert_eq!(
        cache.plan_insert("mxc://example.org/a", b"text", None),
        Err("unsupported image format; expected png/jpeg/gif/webp bytes".to_owned())
    );
}

#[test]
fn stale_siblings_share_the_stem() {
    let plan = plan_for("/data/media-cache", 0xAB, "png");
    assert!(is_stale_sibling("00000000000000ab.jpg", &plan));
    assert!(is_stale_sibling("00000000000000ab.", &plan));
    assert!(!is_stale_sibling("00000000000000ab.png", &plan));
    assert!(!is_stale_sibling("00000000000000ab", &plan));
    assert!(!is_stale_sibling("00000000000000abc.jpg", &plan));
    assert!(!is_stale_sibling("index.json", &plan));
}

#[test]
fn hits_are_used_and_binary_files_are_stale() {
    let mut cache = MediaCache::new(
        "/data",
        vec![entry("a", "a.png", 1, 5), entry("b", "b.BIN", 1, 6)],
    );
    assert_eq!(
        cache.path_of("a").as_deref(),
        Some("/data/media-cache/a.png")
    );
    assert_eq!(cache.path_of("c"), None);

    assert_eq!(cache.get("a", false, 9), CacheAnswer::Miss);
    assert_eq!(cache.entries()[0].last_access_ms, 5);
    assert_eq!(
        cache.get("a", true, 9),
        CacheAnswer::Hit {
            path: "/data/media-cache/a.png".to_owned()
        }
    );
    assert_eq!(cache.entries()[0].last_access_ms, 9);
    assert_eq!(
        cache.get("b", true, 9),
        CacheAnswer::Stale {
            path: "/data/media-cache/b.BIN".to_owned()
        }
    );
    assert_eq!(keys(&cache), vec!["a"]);
    assert_eq!(cache.get("c", true, 9), CacheAnswer::Miss);
}

#[test]
fn inserted_files_are_found_and_replaced() {
    let mut cache = MediaCache::new("/data", vec![]);
    cache.insert("a", "a.png", 10, 1);
    cache.insert("b", "b.png", 20, 2);
    cache.insert("a", "a.gif", 5, 3);
    assert_eq!(keys(&cache), vec!["a", "b"]);
    assert_eq!(cache.total_size_bytes(), 25);
    assert_eq!(
        cache.get("a", true, 4),
        CacheAnswer::Hit {
            path: "/data/media-cache/a.gif".to_owned()
        }
    );
}

#[test]
fn least_recently_used_files_go_until_the_rest_fits() {
    let mut cache = MediaCache::with_capacity(
        "/data",
        25,
        vec![
            entry("a", "a.png", 10, 7),
            entry("b", "b.png", 10, 3),
            entry("c", "c.png", 10, 5),
        ],
    );
    assert_eq!(
        cache.next_eviction(None).as_deref(),
        Some("/data/media-cache/b.png")
    );
    assert_eq!(cache.next_eviction(None), None);
    assert_eq!(keys(&cache), vec!["a", "c"]);
}

#[test]
fn protected_file_stays_even_where_it_does_not_fit() {
    let mut cache = MediaCache::with_capacity(
        "/data",
        0,
        vec![entry("a", "a.png", 10, 1), entry("b", "b.png", 10, 2)],
    );
    assert_eq!(
        cache.next_eviction(Some("a")).as_deref(),
        Some("/data/media-cache/b.png")
    );
    assert_eq!(cache.next_eviction(Some("a")), None);
    assert_eq!(keys(&cache), vec!["a"]);
}

#[test]
fn entries_of_missing_files_are_dropped() {
    let mut cache = MediaCache::new(
        "/data",
        vec![
            entry("a", "a.png", 1, 1),
            entry("b", "b.png", 1, 2),
            entry("c", "c.png", 1, 3),
        ],
    );
    cache.prune_missing_files(&[true, false, true]);
    assert_eq!(keys(&cache), vec!["a", "c"]);
}

#[test]
fn keys_have_one_entry_each() {
    let cache = MediaCache::new(
        "/data",
        vec![
            entry("a", "a.png", 1, 1),
            entry("b", "b.png", 1, 2),
            entry("a", "a.gif", 3, 3),
        ],
    );
    assert_eq!(
        cache.entries(),
        &[entry("a", "a.gif", 3, 3), entry("b", "b.png", 1, 2)]
    );
    let mut copy = cache.clone();
    assert_eq!(copy.entries(), cache.entries());
    assert_eq!(copy.root(), cache.root());
    copy.insert("c", "c.png", 1, 4);
    assert_eq!(keys(&copy), vec!["a", "b", "c"]);
    assert_eq!(keys(&cache), vec!["a", "b"]);
}

#[test]
fn evicted_keys_are_gone() {
    let mut cache = MediaCache::with_capacity(
        "/data",
        1,
        vec![entry("a", "a.png", 10, 1), entry("a", "a.gif", 10, 2)],
    );
    assert_eq!(
        cache.next_eviction(None).as_deref(),
        Some("/data/media-cache/a.gif")
    );
    assert_eq!(cache.path_of("a"), None);
}

#[test]
fn sizes_are_added_without_bound() {
    let cache = MediaCache::new(
        "/data",
        vec![entry("a", "a.png", u64::MAX, 1), entry("b", "b.png", 2, 2)],
    );
    assert_eq!(cache.total_size_bytes(), u128::from(u64::MAX) + 2);
}
