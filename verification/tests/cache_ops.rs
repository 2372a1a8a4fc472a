use geojson_vt::cache::TileCache;
use geojson_vt::to_id;

#[test]
fn new_cache_is_empty() {
    let cache: TileCache<u32> = TileCache::new();
    assert_eq!(cache.total(), 0);
    assert_eq!(cache.stat(0), 0);
    assert!(!cache.contains(0));
    assert!(cache.get(0).is_none());
}

#[test]
fn insert_then_get_back() {
    let mut cache: TileCache<u32> = TileCache::new();
    let id: u64 = to_id(5, 19, 9);
    cache.insert_new(id, 5, 77);
    assert!(cache.contains(id));
    assert_eq!(cache.get(id), Some(&77));
    assert_eq!(cache.total(), 1);
    assert_eq!(cache.stat(5), 1);
    assert_eq!(cache.stat(4), 0);
}

#[test]
fn insert_counts_per_zoom() {
    let mut cache: TileCache<u32> = TileCache::new();
    cache.insert_new(to_id(0, 0, 0), 0, 1);
    cache.insert_new(to_id(1, 0, 0), 1, 2);
    cache.insert_new(to_id(1, 1, 0), 1, 3);
    assert_eq!(cache.total(), 3);
    assert_eq!(cache.stat(0), 1);
    assert_eq!(cache.stat(1), 2);
}

#[test]
fn replace_keeps_counts() {
    let mut cache: TileCache<u32> = TileCache::new();
    let id: u64 = to_id(2, 3, 1);
    cache.insert_new(id, 2, 5);
    cache.replace(id, 9);
    assert_eq!(cache.get(id), Some(&9));
    assert_eq!(cache.total(), 1);
    assert_eq!(cache.stat(2), 1);
}

#[test]
fn miss_leaves_cache_unchanged() {
    let mut cache: TileCache<u32> = TileCache::new();
    cache.insert_new(to_id(0, 0, 0), 0, 1);
    let before: u32 = cache.total();
    assert!(cache.get(to_id(11, 600, 700)).is_none());
    assert_eq!(cache.total(), before);
    assert_eq!(cache.stat(0), 1);
}

#[test]
fn find_parent_on_empty_cache() {
    let cache: TileCache<u32> = TileCache::new();
    assert_eq!(cache.find_parent(5, 19, 9), None);
}

#[test]
fn find_parent_returns_nearest_cached_ancestor() {
    let mut cache: TileCache<u32> = TileCache::new();
    cache.insert_new(to_id(0, 0, 0), 0, 0);
    assert_eq!(cache.find_parent(11, 600, 700), Some((0, 0, 0)));
    cache.insert_new(to_id(7, 37, 43), 7, 7);
    assert_eq!(cache.find_parent(11, 600, 700), Some((7, 37, 43)));
    cache.insert_new(to_id(9, 150, 175), 9, 9);
    assert_eq!(cache.find_parent(11, 600, 700), Some((9, 150, 175)));
}

#[test]
fn find_parent_skips_tiles_off_the_ancestor_path() {
    let mut cache: TileCache<u32> = TileCache::new();
    // (4, 4, 5) is an ancestor of (11, 600, 700); (4, 5, 5) is not.
    cache.insert_new(to_id(4, 5, 5), 4, 0);
    assert_eq!(cache.find_parent(11, 600, 700), None);
    cache.insert_new(to_id(4, 4, 5), 4, 1);
    assert_eq!(cache.find_parent(11, 600, 700), Some((4, 4, 5)));
}
