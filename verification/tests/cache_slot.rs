use ascii_art::cache::ImageCache;

#[test]
fn repeated_path_decodes_once() {
    let mut cache: ImageCache<u32> = ImageCache::empty();
    let path = String::from("photo.png");
    let mut decodes = 0;

    // first request: miss, decode, install
    if cache.needs_decode(&path) {
        decodes += 1;
        cache.install(path.clone(), 11);
    }
    // second request with the same path: hit, no decode
    if cache.needs_decode(&path) {
        decodes += 1;
        cache.install(path.clone(), 12);
    }
    assert_eq!(decodes, 1);
    assert_eq!(cache.lookup(&path), Some(&11));
}

#[test]
fn different_path_decodes_again_and_evicts() {
    let mut cache: ImageCache<u32> = ImageCache::empty();
    let first = String::from("a.png");
    let second = String::from("b.png");
    let mut decodes = 0;

    for path in [&first, &first, &second] {
        if cache.needs_decode(path) {
            decodes += 1;
            cache.install(path.clone(), decodes);
        }
    }
    assert_eq!(decodes, 2);
    // the first buffer is no longer reachable from the cache
    assert_eq!(cache.lookup(&first), None);
    assert_eq!(cache.lookup(&second), Some(&2));
}

#[test]
fn empty_cache_misses_everything() {
    let cache: ImageCache<u8> = ImageCache::empty();
    assert!(cache.needs_decode(&String::from("x")));
    assert_eq!(cache.lookup(&String::from("x")), None);
}
