use yt_dlp::cache::{expired, VideoCache};
use yt_dlp::error::Error;

fn put(cache: &mut VideoCache, url: &str, id: &str, now: u64) {
    cache.put(
        url.to_string(),
        id.to_string(),
        format!("title of {}", id),
        format!("{{\"id\":\"{}\"}}", id),
        now,
    );
}

#[test]
fn entry_expires_after_its_time_to_live() {
    let (t0, ttl) = (1_000_000u64, 3600u64);
    assert!(!expired(t0, t0, ttl));
    assert!(!expired(t0 + ttl - 1, t0, ttl));
    assert!(!expired(t0 + ttl, t0, ttl));
    assert!(expired(t0 + ttl + 1, t0, ttl));
    assert!(expired(u64::MAX, 0, u64::MAX - 1));
    assert!(!expired(u64::MAX, 0, u64::MAX));
}

#[test]
fn a_clock_that_went_back_expires_nothing() {
    assert!(!expired(5, 10, 0));
    assert!(!expired(0, u64::MAX, 0));
}

#[test]
fn zero_time_to_live_keeps_an_entry_for_its_second() {
    assert!(!expired(7, 7, 0));
    assert!(expired(8, 7, 0));
}

#[test]
fn default_time_to_live_is_a_day() {
    assert_eq!(VideoCache::new(None).ttl(), 24 * 60 * 60);
    assert_eq!(VideoCache::new(Some(5)).ttl(), 5);
}

#[test]
fn hit_one_second_before_the_end_and_miss_one_second_after() {
    let (t0, ttl) = (1_700_000_000u64, 86_400u64);
    let mut cache = VideoCache::new(Some(ttl));
    put(&mut cache, "http://v/1", "id1", t0);
    let hit = cache.get("http://v/1", t0 + ttl - 1).expect("a hit");
    assert_eq!(hit.id, "id1");
    assert_eq!(hit.title, "title of id1");
    assert_eq!(hit.url, "http://v/1");
    assert_eq!(hit.video_json, "{\"id\":\"id1\"}");
    assert_eq!(hit.cached_at, t0);
    assert!(cache.get("http://v/1", t0 + ttl).is_some());
    assert!(cache.get("http://v/1", t0 + ttl + 1).is_none());
    // Reading does not renew the entry.
    assert!(cache.get("http://v/1", t0 + ttl + 1).is_none());
    assert_eq!(cache.len(), 1);
}

#[test]
fn unknown_url_is_a_miss() {
    let mut cache = VideoCache::new(None);
    assert!(cache.get("http://v/1", 0).is_none());
    put(&mut cache, "http://v/1", "id1", 0);
    assert!(cache.get("http://v/2", 0).is_none());
    assert!(cache.get("", 0).is_none());
}

#[test]
fn put_replaces_the_entry_with_the_same_id() {
    let mut cache = VideoCache::new(Some(100));
    put(&mut cache, "http://v/1", "id1", 10);
    put(&mut cache, "http://v/2", "id2", 20);
    put(&mut cache, "http://v/1b", "id1", 30);
    assert_eq!(cache.len(), 2);
    assert_eq!(cache.row(0).id, "id2");
    assert_eq!(cache.row(1).id, "id1");
    assert_eq!(cache.row(1).cached_at, 30);
    assert!(cache.get("http://v/1", 30).is_none());
    assert_eq!(cache.get("http://v/1b", 30).map(|v| v.id), Some("id1".to_string()));
    // Storing again renews the stamp.
    assert!(cache.get("http://v/1b", 130).is_some());
    assert!(cache.get("http://v/1b", 131).is_none());
}

#[test]
fn lookup_by_id_tells_missing_from_expired() {
    let mut cache = VideoCache::new(Some(100));
    put(&mut cache, "http://v/1", "id1", 1000);
    assert_eq!(cache.get_by_id("id1", 1100).map(|v| v.url).ok(), Some("http://v/1".to_string()));
    match cache.get_by_id("id1", 1101) {
        Err(Error::FormatNotFound(text)) => {
            assert_eq!(text, "Video with ID id1 has expired in cache")
        }
        _ => panic!("expected an expired entry"),
    }
    match cache.get_by_id("nope", 1000) {
        Err(Error::FormatNotFound(text)) => {
            assert_eq!(text, "Video with ID nope not found in cache")
        }
        _ => panic!("expected a missing entry"),
    }
}

#[test]
fn remove_deletes_by_url() {
    let mut cache = VideoCache::new(None);
    put(&mut cache, "http://v/1", "id1", 0);
    put(&mut cache, "http://v/2", "id2", 0);
    put(&mut cache, "http://v/1", "id3", 0);
    cache.remove("http://v/1");
    assert_eq!(cache.len(), 1);
    assert_eq!(cache.row(0).id, "id2");
    cache.remove("http://v/unknown");
    assert_eq!(cache.len(), 1);
}

#[test]
fn clean_deletes_what_a_read_would_miss() {
    let mut cache = VideoCache::new(Some(100));
    put(&mut cache, "http://v/1", "id1", 1000);
    put(&mut cache, "http://v/2", "id2", 1050);
    put(&mut cache, "http://v/3", "id3", 1100);
    cache.clean(1100);
    assert_eq!(cache.len(), 3);
    cache.clean(1101);
    assert_eq!(cache.len(), 2);
    assert_eq!(cache.row(0).id, "id2");
    cache.clean(1150);
    assert_eq!(cache.len(), 2);
    cache.clean(1151);
    assert_eq!(cache.len(), 1);
    assert_eq!(cache.row(0).id, "id3");
    cache.clean(u64::MAX);
    assert_eq!(cache.len(), 0);
    // Sweeping an early clock deletes nothing.
    put(&mut cache, "http://v/4", "id4", 1000);
    cache.clean(5);
    assert_eq!(cache.len(), 1);
}
