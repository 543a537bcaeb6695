use image_pipeline::cache::{WatermarkCache, WATERMARK_CACHE_CAPACITY};
use image_pipeline::process_image::ProcessImage;

fn image(tag: &str) -> ProcessImage {
    let mut img = ProcessImage::new();
    img.ext = tag.to_string();
    img.original_size = tag.len();
    img
}

fn key(i: usize) -> String {
    format!("http://example.com/{}.png", i)
}

#[test]
fn new_cache_is_empty() {
    let mut cache = WatermarkCache::new();
    assert_eq!(cache.len(), 0);
    assert_eq!(WATERMARK_CACHE_CAPACITY, 10);
    assert!(cache.get_image_cache(&key(0)).is_none());
    assert!(!cache.contains(&key(0)));
    assert!(WatermarkCache::with_capacity(0).is_none());
    assert!(WatermarkCache::with_capacity(1).is_some());
    assert!(WatermarkCache::with_capacity(65536).is_some());
    assert!(WatermarkCache::with_capacity(65537).is_none());
}

#[test]
fn cache_hands_out_what_was_put() {
    let mut cache = WatermarkCache::new();
    cache.set_image_cache(key(1), &image("one"));
    cache.set_image_cache(key(2), &image("two"));
    assert_eq!(cache.len(), 2);
    assert_eq!(cache.get_image_cache(&key(1)).unwrap().ext, "one");
    assert_eq!(cache.get_image_cache(&key(2)).unwrap().ext, "two");
    assert!(cache.get_image_cache(&key(3)).is_none());
    assert_eq!(cache.len(), 2);
}

#[test]
fn cache_holds_one_entry_per_key() {
    let mut cache = WatermarkCache::new();
    cache.set_image_cache(key(1), &image("first"));
    cache.set_image_cache(key(1), &image("second"));
    assert_eq!(cache.len(), 1);
    assert_eq!(cache.get_image_cache(&key(1)).unwrap().ext, "second");
}

#[test]
fn cache_holds_ten_entries() {
    let mut cache = WatermarkCache::new();
    for i in 0..10 {
        cache.set_image_cache(key(i), &image("x"));
    }
    assert_eq!(cache.len(), 10);
    for i in 0..10 {
        assert!(cache.contains(&key(i)));
    }
    cache.set_image_cache(key(10), &image("x"));
    assert_eq!(cache.len(), 10);
    assert!(!cache.contains(&key(0)));
    assert!(cache.contains(&key(1)));
    assert!(cache.contains(&key(10)));
}

#[test]
fn cache_drops_the_least_recently_used() {
    let mut cache = WatermarkCache::with_capacity(2).unwrap();
    cache.set_image_cache(key(1), &image("one"));
    cache.set_image_cache(key(2), &image("two"));
    // a lookup makes 1 the most recently used
    assert!(cache.get_image_cache(&key(1)).is_some());
    cache.set_image_cache(key(3), &image("three"));
    assert!(cache.contains(&key(1)));
    assert!(!cache.contains(&key(2)));
    assert!(cache.contains(&key(3)));
    // a put under a key that is held makes it the most recently used and drops nothing
    cache.set_image_cache(key(1), &image("uno"));
    assert_eq!(cache.len(), 2);
    cache.set_image_cache(key(4), &image("four"));
    assert!(cache.contains(&key(1)));
    assert!(!cache.contains(&key(3)));
    assert_eq!(cache.get_image_cache(&key(1)).unwrap().ext, "uno");
}

#[test]
fn looking_does_not_change_the_order() {
    let mut cache = WatermarkCache::with_capacity(2).unwrap();
    cache.set_image_cache(key(1), &image("one"));
    cache.set_image_cache(key(2), &image("two"));
    assert!(cache.contains(&key(1)));
    cache.set_image_cache(key(3), &image("three"));
    assert!(!cache.contains(&key(1)));
}

#[test]
fn cache_holds_copies() {
    let mut cache = WatermarkCache::new();
    let mut img = image("one");
    cache.set_image_cache(key(1), &img);
    img.ext = "changed".to_string();
    let mut out = cache.get_image_cache(&key(1)).unwrap();
    assert_eq!(out.ext, "one");
    out.ext = "changed".to_string();
    assert_eq!(cache.get_image_cache(&key(1)).unwrap().ext, "one");
}
