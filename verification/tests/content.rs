use yt_dlp::content_hash::{hash_bytes, to_hex};
use yt_dlp::download_cache::{
    determine_mime_type, mime_for, storage_path_for_file, storage_path_for_thumbnail, CachedType,
    DownloadCache, Preferences, VariantInfo,
};
use yt_dlp::error::Error;
use yt_dlp::format_selector::{
    AudioCodecPreference, AudioQuality, VideoCodecPreference, VideoQuality,
};

const ABC: &str = "ba7816bf8f01cfea414140de5dae2223b00361a396177a9cb410ff61f20015ad";
const EMPTY: &str = "e3b0c44298fc1c149afbf4c8996fb92427ae41e4649b934ca495991b7852b855";

fn no_preferences() -> Preferences {
    Preferences { video_quality: None, audio_quality: None, video_codec: None, audio_codec: None }
}

fn variant(id: &str) -> Option<VariantInfo> {
    Some(VariantInfo { format_id: id.to_string(), format_json: format!("{{\"format_id\":\"{}\"}}", id) })
}

#[test]
fn content_hash_is_sha256_in_lower_hex() {
    assert_eq!(hash_bytes(b"abc"), ABC);
    assert_eq!(hash_bytes(b""), EMPTY);
    assert_eq!(DownloadCache::calculate_file_hash(b"abc"), ABC);
    assert_eq!(hash_bytes(b"abc").len(), 64);
}

#[test]
fn hex_writes_two_lower_case_digits_per_byte() {
    assert_eq!(to_hex(&[]), "");
    assert_eq!(to_hex(&[0x00, 0x0a, 0xff, 0x10, 0x9c]), "000aff109c");
    assert_eq!(to_hex(&[10, 20, 30]), "0a141e");
}

#[test]
fn mime_type_goes_by_extension_whatever_its_case() {
    assert_eq!(determine_mime_type("a/b/video.mp4"), "video/mp4");
    assert_eq!(determine_mime_type("video.WEBM"), "video/webm");
    assert_eq!(determine_mime_type("song.Mp3"), "audio/mpeg");
    assert_eq!(determine_mime_type("song.m4a"), "audio/mp4");
    assert_eq!(determine_mime_type("pic.jpg"), "image/jpeg");
    assert_eq!(determine_mime_type("pic.JPEG"), "image/jpeg");
    assert_eq!(determine_mime_type("pic.png"), "image/png");
    assert_eq!(determine_mime_type("archive.tar.gz"), "application/octet-stream");
    assert_eq!(determine_mime_type("noextension"), "application/octet-stream");
    assert_eq!(determine_mime_type(".mp4"), "application/octet-stream");
    assert_eq!(determine_mime_type("dir.mp4/file"), "application/octet-stream");
    assert_eq!(determine_mime_type(""), "application/octet-stream");
}

#[test]
fn mime_type_by_extension() {
    assert_eq!(mime_for("mp4"), "video/mp4");
    assert_eq!(mime_for("WebM"), "video/webm");
    assert_eq!(mime_for("MP3"), "audio/mpeg");
    assert_eq!(mime_for("m4a"), "audio/mp4");
    assert_eq!(mime_for("jpg"), "image/jpeg");
    assert_eq!(mime_for("Jpeg"), "image/jpeg");
    assert_eq!(mime_for("png"), "image/png");
    assert_eq!(mime_for("gz"), "application/octet-stream");
    assert_eq!(mime_for(""), "application/octet-stream");
}

#[test]
fn storage_paths() {
    assert_eq!(storage_path_for_file(ABC, "mp4"), format!("files/{}.mp4", ABC));
    assert_eq!(storage_path_for_file(ABC, ""), format!("files/{}.", ABC));
    assert_eq!(storage_path_for_thumbnail(ABC, "jpg"), format!("thumbnails/{}.jpg", ABC));
}

#[test]
fn put_with_given_extensions() {
    let mut cache = DownloadCache::new(None);
    let (entry, written) = cache.put_entry(
        b"abc",
        "webm",
        "MP4",
        "clip.webm",
        None,
        None,
        no_preferences(),
        5,
    );
    assert!(written);
    assert_eq!(entry.id, ABC);
    assert_eq!(entry.relative_path, format!("files/{}.webm", ABC));
    assert_eq!(entry.mime_type, "video/mp4");
    assert_eq!(entry.filename, "clip.webm");
    assert_eq!(entry.filesize, 3);
    assert_eq!(entry.cached_at, 5);
}

#[test]
fn stored_extension_is_the_last_of_the_declared_name() {
    let mut cache = DownloadCache::new(None);
    let (a, _) = cache.put_file(b"1", "x", "a.tar.gz", None, None, 0);
    assert!(a.relative_path.ends_with(".gz"));
    let (b, _) = cache.put_file(b"2", "x", "noext", None, None, 0);
    assert!(b.relative_path.ends_with("."));
    let (c, _) = cache.put_file(b"3", "x", "dir/clip.mp4/", None, None, 0);
    assert!(c.relative_path.ends_with(".mp4"));
}

#[test]
fn default_time_to_live_is_a_week() {
    assert_eq!(DownloadCache::new(None).ttl(), 7 * 24 * 60 * 60);
    assert_eq!(DownloadCache::new(Some(9)).ttl(), 9);
}

#[test]
fn put_describes_the_file() {
    let mut cache = DownloadCache::new(None);
    let (entry, written) = cache.put_file_with_preferences(
        b"abc",
        "/downloads/clip.MP4",
        "clip.mp4",
        Some("vid1".to_string()),
        variant("137"),
        Preferences {
            video_quality: Some(VideoQuality::High),
            audio_quality: Some(AudioQuality::CustomBitrate(128)),
            video_codec: Some(VideoCodecPreference::AVC1),
            audio_codec: Some(AudioCodecPreference::Custom("flac".to_string())),
        },
        1234,
    );
    assert!(written);
    assert_eq!(entry.id, ABC);
    assert_eq!(entry.filename, "clip.mp4");
    assert_eq!(entry.relative_path, format!("files/{}.mp4", ABC));
    assert_eq!(entry.video_id, Some("vid1".to_string()));
    assert_eq!(entry.file_type, CachedType::Format);
    assert_eq!(entry.format_id, Some("137".to_string()));
    assert_eq!(entry.format_json, Some("{\"format_id\":\"137\"}".to_string()));
    assert_eq!(entry.video_quality, Some(VideoQuality::High));
    assert_eq!(entry.audio_quality, Some(AudioQuality::CustomBitrate(128)));
    assert!(entry.video_codec.as_ref().unwrap().same(&VideoCodecPreference::AVC1));
    assert!(entry
        .audio_codec
        .as_ref()
        .unwrap()
        .same(&AudioCodecPreference::Custom("flac".to_string())));
    assert_eq!(entry.filesize, 3);
    assert_eq!(entry.mime_type, "video/mp4");
    assert_eq!(entry.cached_at, 1234);
    assert_eq!(cache.file_count(), 1);
    assert_eq!(cache.blob_count(), 1);
    assert!(cache.has_blob(&entry.relative_path));
}

#[test]
fn put_without_variant_is_of_type_other() {
    let mut cache = DownloadCache::new(None);
    let (entry, _) = cache.put_file(b"abc", "x.bin", "x.bin", None, None, 0);
    assert_eq!(entry.file_type, CachedType::Other);
    assert_eq!(entry.format_id, None);
    assert_eq!(entry.format_json, None);
    assert_eq!(entry.video_id, None);
    assert_eq!(entry.video_quality, None);
    assert_eq!(entry.mime_type, "application/octet-stream");
}

#[test]
fn identical_bytes_are_stored_once() {
    let mut cache = DownloadCache::new(None);
    let (first, wrote_first) =
        cache.put_file(b"same bytes", "/a/one.mp4", "one.mp4", Some("v".to_string()), variant("18"), 1);
    let (second, wrote_second) =
        cache.put_file(b"same bytes", "/b/two.mp4", "two.mp4", Some("v".to_string()), variant("22"), 2);
    assert!(wrote_first);
    assert!(!wrote_second);
    assert_eq!(first.id, second.id);
    assert_eq!(first.relative_path, second.relative_path);
    assert_eq!(cache.blob_count(), 1);
    // The index row was replaced: the later variant data is what is found.
    assert_eq!(cache.file_count(), 1);
    assert!(cache.get_by_video_and_format("v", "18", 2).is_none());
    assert_eq!(
        cache.get_by_video_and_format("v", "22", 2).map(|f| f.filename),
        Some("two.mp4".to_string())
    );
    let (third, wrote_third) =
        cache.put_file(b"other bytes", "/c/three.mp4", "three.mp4", None, None, 3);
    assert!(wrote_third);
    assert_ne!(third.id, first.id);
    assert_ne!(third.relative_path, first.relative_path);
    assert_eq!(cache.blob_count(), 2);
    assert_eq!(cache.file_count(), 2);
}

#[test]
fn lookup_by_hash() {
    let mut cache = DownloadCache::new(Some(100));
    let (entry, _) = cache.put_file(b"abc", "a.mp3", "a.mp3", None, None, 1000);
    let hit = cache.get_by_hash(ABC, 1100).expect("a hit");
    assert_eq!(hit.id, entry.id);
    assert_eq!(hit.relative_path, entry.relative_path);
    assert_eq!(hit.mime_type, "audio/mpeg");
    assert!(cache.get_by_hash(ABC, 1101).is_none());
    assert!(cache.get_by_hash(EMPTY, 1000).is_none());
}

#[test]
fn lookup_by_owner_and_variant() {
    let mut cache = DownloadCache::new(None);
    cache.put_file(b"1", "a.mp4", "a.mp4", Some("v1".to_string()), variant("18"), 0);
    cache.put_file(b"2", "b.mp4", "b.mp4", Some("v1".to_string()), variant("22"), 0);
    cache.put_file(b"3", "c.mp4", "c.mp4", Some("v2".to_string()), variant("18"), 0);
    cache.put_file(b"4", "d.mp4", "d.mp4", None, variant("18"), 0);
    assert_eq!(cache.get_by_video_and_format("v1", "22", 0).unwrap().filename, "b.mp4");
    assert_eq!(cache.get_by_video_and_format("v2", "18", 0).unwrap().filename, "c.mp4");
    assert_eq!(cache.get_by_video_and_format("v1", "18", 0).unwrap().filename, "a.mp4");
    assert!(cache.get_by_video_and_format("v2", "22", 0).is_none());
    assert!(cache.get_by_video_and_format("v3", "18", 0).is_none());
}

fn put_with(
    cache: &mut DownloadCache,
    bytes: &[u8],
    name: &str,
    owner: &str,
    preferences: Preferences,
) {
    cache.put_file_with_preferences(
        bytes,
        name,
        name,
        Some(owner.to_string()),
        variant("x"),
        preferences,
        0,
    );
}

#[test]
fn lookup_by_preferences_takes_them_together() {
    let mut cache = DownloadCache::new(None);
    put_with(
        &mut cache,
        b"1",
        "a.mp4",
        "v",
        Preferences {
            video_quality: Some(VideoQuality::High),
            audio_quality: Some(AudioQuality::Best),
            video_codec: Some(VideoCodecPreference::VP9),
            audio_codec: Some(AudioCodecPreference::Opus),
        },
    );
    put_with(
        &mut cache,
        b"2",
        "b.mp4",
        "v",
        Preferences {
            video_quality: Some(VideoQuality::CustomHeight(720)),
            audio_quality: None,
            video_codec: Some(VideoCodecPreference::Custom("hevc".to_string())),
            audio_codec: None,
        },
    );
    let find = |cache: &DownloadCache, wanted: Preferences| {
        cache.get_by_video_and_preferences("v", &wanted, 0).map(|f| f.filename)
    };
    // Nothing wanted: the first file of the asset.
    assert_eq!(find(&cache, no_preferences()), Some("a.mp4".to_string()));
    assert_eq!(
        find(&cache, Preferences { video_quality: Some(VideoQuality::High), ..no_preferences() }),
        Some("a.mp4".to_string())
    );
    assert_eq!(
        find(
            &cache,
            Preferences { video_quality: Some(VideoQuality::CustomHeight(720)), ..no_preferences() }
        ),
        Some("b.mp4".to_string())
    );
    assert_eq!(
        find(
            &cache,
            Preferences { video_quality: Some(VideoQuality::CustomHeight(1080)), ..no_preferences() }
        ),
        None
    );
    assert_eq!(
        find(
            &cache,
            Preferences { video_quality: Some(VideoQuality::CustomWidth(720)), ..no_preferences() }
        ),
        None
    );
    assert_eq!(
        find(
            &cache,
            Preferences {
                video_codec: Some(VideoCodecPreference::Custom("hevc".to_string())),
                ..no_preferences()
            }
        ),
        Some("b.mp4".to_string())
    );
    assert_eq!(
        find(
            &cache,
            Preferences {
                video_codec: Some(VideoCodecPreference::Custom("HEVC".to_string())),
                ..no_preferences()
            }
        ),
        None
    );
    // Both must hold at once.
    assert_eq!(
        find(
            &cache,
            Preferences {
                video_quality: Some(VideoQuality::High),
                audio_codec: Some(AudioCodecPreference::Opus),
                ..no_preferences()
            }
        ),
        Some("a.mp4".to_string())
    );
    assert_eq!(
        find(
            &cache,
            Preferences {
                video_quality: Some(VideoQuality::High),
                audio_codec: Some(AudioCodecPreference::AAC),
                ..no_preferences()
            }
        ),
        None
    );
    // A preference that is wanted does not match a file stored without one.
    assert_eq!(
        find(&cache, Preferences { audio_quality: Some(AudioQuality::Best), ..no_preferences() }),
        Some("a.mp4".to_string())
    );
    assert_eq!(
        find(
            &cache,
            Preferences {
                video_quality: Some(VideoQuality::CustomHeight(720)),
                audio_quality: Some(AudioQuality::Best),
                ..no_preferences()
            }
        ),
        None
    );
    assert!(cache.get_by_video_and_preferences("other", &no_preferences(), 0).is_none());
}

#[test]
fn a_row_without_its_bytes_is_a_miss() {
    let mut cache = DownloadCache::new(None);
    let (a, _) = cache.put_file(b"abc", "a.mp4", "a.mp4", Some("v".to_string()), variant("18"), 0);
    // The same bytes under another extension lie at another path.
    let (b, wrote) = cache.put_file(b"abc", "a.webm", "a.webm", Some("v".to_string()), variant("18"), 0);
    assert!(wrote);
    assert_eq!(a.id, b.id);
    assert_ne!(a.relative_path, b.relative_path);
    assert_eq!(cache.blob_count(), 2);
    assert_eq!(cache.file_count(), 1);
    assert!(cache.get_by_hash(ABC, 0).is_some());
    let removed = cache.remove_file(ABC);
    assert_eq!(removed, vec![b.relative_path.clone()]);
    assert_eq!(cache.file_count(), 0);
    assert!(cache.get_by_hash(ABC, 0).is_none());
    // Only the bytes the row pointed to are gone.
    assert!(cache.has_blob(&a.relative_path));
    assert!(!cache.has_blob(&b.relative_path));
}

#[test]
fn remove_of_an_unknown_hash_changes_nothing() {
    let mut cache = DownloadCache::new(None);
    cache.put_file(b"abc", "a.mp4", "a.mp4", None, None, 0);
    assert!(cache.remove_file(EMPTY).is_empty());
    assert_eq!(cache.file_count(), 1);
    assert_eq!(cache.blob_count(), 1);
}

#[test]
fn clean_deletes_expired_rows_and_their_bytes() {
    let mut cache = DownloadCache::new(Some(100));
    let (old, _) = cache.put_file(b"old", "old.mp4", "old.mp4", None, None, 1000);
    let (new, _) = cache.put_file(b"new", "new.mp4", "new.mp4", None, None, 1080);
    assert!(cache.clean(1100).is_empty());
    assert_eq!(cache.file_count(), 2);
    assert_eq!(cache.clean(1101), vec![old.relative_path.clone()]);
    assert_eq!(cache.file_count(), 1);
    assert!(!cache.has_blob(&old.relative_path));
    assert!(cache.has_blob(&new.relative_path));
    assert!(cache.get_by_hash(&old.id, 1101).is_none());
    assert!(cache.get_by_hash(&new.id, 1101).is_some());
    assert_eq!(cache.clean(1181), vec![new.relative_path.clone()]);
    assert_eq!(cache.file_count(), 0);
    assert_eq!(cache.blob_count(), 0);
    // A sweep before anything can be expired deletes nothing.
    cache.put_file(b"x", "x.mp4", "x.mp4", None, None, 1000);
    assert!(cache.clean(5).is_empty());
    assert_eq!(cache.file_count(), 1);
}

#[test]
fn clean_deletes_expired_thumbnails_too() {
    let mut cache = DownloadCache::new(Some(100));
    let (old, _) = cache.put_thumbnail(b"t1", "a.jpg", "a.jpg", "v1".to_string(), None, None, 1000);
    let (new, _) = cache.put_thumbnail(b"t2", "b.png", "b.png", "v2".to_string(), None, None, 1090);
    let (file, _) = cache.put_file(b"f", "f.mp4", "f.mp4", None, None, 1090);
    assert_eq!(cache.thumbnail_count(), 2);
    assert_eq!(cache.clean(1101), vec![old.relative_path.clone()]);
    assert_eq!(cache.thumbnail_count(), 1);
    assert_eq!(cache.thumbnail(0).id, new.id);
    assert_eq!(cache.file_count(), 1);
    assert!(!cache.has_blob(&old.relative_path));
    assert!(cache.has_blob(&new.relative_path));
    assert!(cache.has_blob(&file.relative_path));
    assert!(cache.get_thumbnail_by_video_id("v1", 1101).is_none());
    assert!(cache.get_thumbnail_by_video_id("v2", 1101).is_some());
    let removed = cache.clean(1191);
    assert_eq!(removed.len(), 2);
    assert_eq!(cache.thumbnail_count(), 0);
    assert_eq!(cache.file_count(), 0);
    assert_eq!(cache.blob_count(), 0);
}

#[test]
fn the_same_thumbnail_is_stored_once() {
    let mut cache = DownloadCache::new(None);
    let (stored, written) = cache.put_thumbnail(
        b"abc",
        "/t/thumb.JPG",
        "thumb.jpg",
        "vid1".to_string(),
        Some(640),
        None,
        77,
    );
    assert!(written);
    assert_eq!(stored.id, ABC);
    assert_eq!(stored.filename, "thumb.jpg");
    assert_eq!(stored.relative_path, format!("thumbnails/{}.jpg", ABC));
    assert_eq!(stored.video_id, "vid1");
    assert_eq!(stored.filesize, 3);
    assert_eq!(stored.mime_type, "image/jpeg");
    assert_eq!(stored.width, Some(640));
    assert_eq!(stored.height, None);
    assert_eq!(stored.cached_at, 77);
    assert_eq!(cache.thumbnail_count(), 1);
    assert!(cache.has_blob(&stored.relative_path));
    // The same bytes again: the same hash and path, one row, nothing written.
    let (again, written_again) = cache.put_thumbnail(
        b"abc",
        "/other/copy.jpg",
        "copy.jpg",
        "vid1".to_string(),
        None,
        Some(480),
        78,
    );
    assert!(!written_again);
    assert_eq!(again.id, stored.id);
    assert_eq!(again.relative_path, stored.relative_path);
    assert_eq!(again.filename, "copy.jpg");
    assert_eq!(again.height, Some(480));
    assert_eq!(again.cached_at, 78);
    assert_eq!(cache.thumbnail_count(), 1);
    assert_eq!(cache.thumbnail(0).filename, "copy.jpg");
    assert_eq!(cache.blob_count(), 1);
}

#[test]
fn a_stored_thumbnail_is_found_by_its_asset() {
    let mut cache = DownloadCache::new(Some(100));
    assert!(cache.get_thumbnail_by_video_id("vid1", 0).is_none());
    let (stored, _) =
        cache.put_thumbnail(b"abc", "t.jpg", "t.jpg", "vid1".to_string(), Some(4), Some(3), 1000);
    let found = cache.get_thumbnail_by_video_id("vid1", 1100).expect("a hit");
    assert_eq!(found.id, stored.id);
    assert_eq!(found.filename, "t.jpg");
    assert_eq!(found.relative_path, stored.relative_path);
    assert_eq!(found.video_id, Some("vid1".to_string()));
    assert_eq!(found.file_type, CachedType::Thumbnail);
    assert_eq!(found.format_id, Some("thumbnail".to_string()));
    assert_eq!(found.format_json, None);
    assert_eq!(found.video_quality, None);
    assert_eq!(found.audio_quality, None);
    assert!(found.video_codec.is_none());
    assert!(found.audio_codec.is_none());
    assert_eq!(found.filesize, 3);
    assert_eq!(found.mime_type, "image/jpeg");
    assert_eq!(found.cached_at, 1000);
    assert!(cache.get_thumbnail_by_video_id("vid1", 1101).is_none());
    assert!(cache.get_thumbnail_by_video_id("vid2", 1000).is_none());
    // A file of the asset is no thumbnail of it.
    cache.put_file(b"img", "f.jpg", "f.jpg", Some("vid3".to_string()), variant("thumbnail"), 1000);
    assert!(cache.get_thumbnail_by_video_id("vid3", 1000).is_none());
}

#[test]
fn the_youngest_thumbnail_of_an_asset_is_the_one_found() {
    let mut cache = DownloadCache::new(None);
    cache.put_thumbnail(b"one", "a.jpg", "a.jpg", "vid1".to_string(), None, None, 10);
    cache.put_thumbnail(b"other", "x.png", "x.png", "vid2".to_string(), None, None, 11);
    let (second, _) =
        cache.put_thumbnail(b"two", "b.png", "b.png", "vid1".to_string(), None, None, 12);
    let found = cache.get_thumbnail_by_video_id("vid1", 12).expect("a hit");
    assert_eq!(found.id, second.id);
    assert_eq!(found.mime_type, "image/png");
    assert_eq!(cache.get_thumbnail_by_video_id("vid2", 12).unwrap().filename, "x.png");
    // Without its bytes the youngest row is a miss.
    let mut bare = DownloadCache::restore(Vec::new(), vec![second], Vec::new(), 100);
    assert!(bare.get_thumbnail_by_video_id("vid1", 12).is_none());
    assert!(bare.clean(12).is_empty());
}

#[test]
fn lookup_before_download_tries_the_variant_then_the_preferences() {
    let mut cache = DownloadCache::new(None);
    put_with(
        &mut cache,
        b"1",
        "a.mp4",
        "v",
        Preferences { video_quality: Some(VideoQuality::High), ..no_preferences() },
    );
    let high = Preferences { video_quality: Some(VideoQuality::High), ..no_preferences() };
    let low = Preferences { video_quality: Some(VideoQuality::Low), ..no_preferences() };
    // `put_with` stores variant "x".
    assert_eq!(cache.lookup_variant("v", "x", &low, 0).map(|f| f.filename), Some("a.mp4".to_string()));
    assert_eq!(cache.lookup_variant("v", "y", &high, 0).map(|f| f.filename), Some("a.mp4".to_string()));
    assert!(cache.lookup_variant("v", "y", &low, 0).is_none());
    // Without preferences only the exact variant counts.
    assert!(cache.lookup_variant("v", "y", &no_preferences(), 0).is_none());
    assert!(!no_preferences().any_set());
    assert!(high.any_set());
}

#[test]
fn variant_description_by_content() {
    let mut cache = DownloadCache::new(Some(10));
    cache.put_file(b"abc", "a.mp4", "a.mp4", Some("v".to_string()), variant("18"), 100);
    cache.put_file(b"xyz", "b.mp4", "b.mp4", None, None, 100);
    assert_eq!(
        cache.variant_of_content(b"abc", 105),
        Some("{\"format_id\":\"18\"}".to_string())
    );
    assert_eq!(cache.variant_of_content(b"abc", 111), None);
    assert_eq!(cache.variant_of_content(b"xyz", 105), None);
    assert_eq!(cache.variant_of_content(b"unknown", 105), None);
}
