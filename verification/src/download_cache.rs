//! The content cache: stored bytes by content hash, with an index of what they are.
//!
//! Identical bytes are stored once. An index row whose bytes are gone is a miss.

use vstd::prelude::*;
use vstd::string::*;
use crate::cache::{expired, is_expired};
use crate::content_hash::{content_hash, hash_bytes};
use crate::file_system::{declared_extension, path_extension};
use crate::format_selector::{
    AudioCodecPreference, AudioQuality, VideoCodecPreference, VideoQuality,
};
use crate::table::{
    delete_marked, distinct_by, first_match, is_first, is_last, last_match,
    lemma_filter_keeps_distinct, lemma_first_match, lemma_last_match, lemma_marked_is_filter,
    lemma_no_last_match, lemma_no_match, lemma_push_keeps_distinct, lemma_unmarked_is_filter,
    marked,
};
use crate::text::{lowercase, str_eq, to_lowercase};

verus! {

/// Default time to live of cached content, in seconds: 7 days.
pub const DEFAULT_DOWNLOAD_TTL: u64 = 604800;

/// What a cached file is.
#[derive(Debug, Clone, Copy, PartialEq, Eq, Structural)]
pub enum CachedType {
    Format,
    Thumbnail,
    Other,
}

/// One stored file as the index describes it.
#[derive(Debug)]
pub struct CachedFile {
    /// The content hash of the stored bytes.
    pub id: String,
    /// The name the file was stored under.
    pub filename: String,
    /// Where the bytes lie, relative to the cache root.
    pub relative_path: String,
    /// The asset the file belongs to.
    pub video_id: Option<String>,
    pub file_type: CachedType,
    /// The variant of the asset that the file holds.
    pub format_id: Option<String>,
    /// The variant's description, serialised.
    pub format_json: Option<String>,
    pub video_quality: Option<VideoQuality>,
    pub audio_quality: Option<AudioQuality>,
    pub video_codec: Option<VideoCodecPreference>,
    pub audio_codec: Option<AudioCodecPreference>,
    pub filesize: u64,
    pub mime_type: String,
    /// When the entry was stored, in seconds since the epoch.
    pub cached_at: u64,
}

/// One stored thumbnail as the index describes it.
#[derive(Debug)]
pub struct CachedThumbnail {
    /// The content hash of the stored bytes.
    pub id: String,
    pub filename: String,
    /// Where the bytes lie, relative to the cache root.
    pub relative_path: String,
    /// The asset the thumbnail belongs to.
    pub video_id: String,
    pub filesize: u64,
    pub mime_type: String,
    pub width: Option<u32>,
    pub height: Option<u32>,
    /// When the entry was stored, in seconds since the epoch.
    pub cached_at: u64,
}

/// The variant of an asset that a file holds.
#[derive(Debug)]
pub struct VariantInfo {
    /// The variant's id.
    pub format_id: String,
    /// The variant's description, serialised.
    pub format_json: String,
}

/// The preferences by which a variant was chosen. An unset field matches anything.
#[derive(Debug)]
pub struct Preferences {
    pub video_quality: Option<VideoQuality>,
    pub audio_quality: Option<AudioQuality>,
    pub video_codec: Option<VideoCodecPreference>,
    pub audio_codec: Option<AudioCodecPreference>,
}

impl Preferences {
    /// Whether any preference is set.
    pub open spec fn spec_any_set(self) -> bool {
        self.video_quality.is_some() || self.audio_quality.is_some() || self.video_codec.is_some()
            || self.audio_codec.is_some()
    }

    /// Whether any preference is set.
    pub fn any_set(&self) -> (r: bool)
        ensures
            r == self.spec_any_set(),
    {
        self.video_quality.is_some() || self.audio_quality.is_some() || self.video_codec.is_some()
            || self.audio_codec.is_some()
    }
}

/// The text of an optional string.
pub open spec fn opt_text(o: Option<String>) -> Option<Seq<char>> {
    match o {
        Some(s) => Some(s@),
        None => None,
    }
}

fn dup_opt(o: &Option<String>) -> (r: Option<String>)
    ensures
        r == *o,
{
    match o {
        Some(s) => Some(s.clone()),
        None => None,
    }
}

fn opt_is(o: &Option<String>, s: &str) -> (r: bool)
    ensures
        r == (opt_text(*o) == Some(s@)),
{
    match o {
        Some(v) => str_eq(v.as_str(), s),
        None => false,
    }
}

impl CachedFile {
    /// A copy of the entry.
    pub fn duplicate(&self) -> (r: CachedFile)
        ensures
            r == *self,
    {
        CachedFile {
            id: self.id.clone(),
            filename: self.filename.clone(),
            relative_path: self.relative_path.clone(),
            video_id: dup_opt(&self.video_id),
            file_type: self.file_type,
            format_id: dup_opt(&self.format_id),
            format_json: dup_opt(&self.format_json),
            video_quality: self.video_quality,
            audio_quality: self.audio_quality,
            video_codec: match &self.video_codec {
                Some(c) => Some(c.duplicate()),
                None => None,
            },
            audio_codec: match &self.audio_codec {
                Some(c) => Some(c.duplicate()),
                None => None,
            },
            filesize: self.filesize,
            mime_type: self.mime_type.clone(),
            cached_at: self.cached_at,
        }
    }
}

impl CachedThumbnail {
    /// A copy of the entry.
    pub fn duplicate(&self) -> (r: CachedThumbnail)
        ensures
            r == *self,
    {
        CachedThumbnail {
            id: self.id.clone(),
            filename: self.filename.clone(),
            relative_path: self.relative_path.clone(),
            video_id: self.video_id.clone(),
            filesize: self.filesize,
            mime_type: self.mime_type.clone(),
            width: self.width,
            height: self.height,
            cached_at: self.cached_at,
        }
    }
}

/// The MIME type that goes with a file extension in lower case.
pub open spec fn mime_for_extension(ext: Seq<char>) -> Seq<char> {
    if ext == "mp4"@ {
        "video/mp4"@
    } else if ext == "webm"@ {
        "video/webm"@
    } else if ext == "mp3"@ {
        "audio/mpeg"@
    } else if ext == "m4a"@ {
        "audio/mp4"@
    } else if ext == "jpg"@ || ext == "jpeg"@ {
        "image/jpeg"@
    } else if ext == "png"@ {
        "image/png"@
    } else {
        "application/octet-stream"@
    }
}

/// The extension that the standard library finds in `path`; empty where it finds none.
fn extension_text(path: &str) -> (r: String)
    ensures
        declared_extension(path@, r@),
{
    match path_extension(path) {
        Some(ext) => ext,
        None => String::new(),
    }
}

/// The MIME type that goes with a file extension, whatever its case.
pub fn mime_for(extension: &str) -> (r: String)
    ensures
        r@ == mime_for_extension(lowercase(extension@)),
{
    let lower = to_lowercase(extension);
    let e = lower.as_str();
    if str_eq(e, "mp4") {
        String::from_str("video/mp4")
    } else if str_eq(e, "webm") {
        String::from_str("video/webm")
    } else if str_eq(e, "mp3") {
        String::from_str("audio/mpeg")
    } else if str_eq(e, "m4a") {
        String::from_str("audio/mp4")
    } else if str_eq(e, "jpg") || str_eq(e, "jpeg") {
        String::from_str("image/jpeg")
    } else if str_eq(e, "png") {
        String::from_str("image/png")
    } else {
        String::from_str("application/octet-stream")
    }
}

/// The MIME type of the file at `path`: the type that goes with the extension taken
/// from the path, which stands in the path behind a `.` or is empty.
pub fn determine_mime_type(path: &str) -> (r: String)
    ensures
        exists|extension: Seq<char>|
            #[trigger] declared_extension(path@, extension) && r@ == mime_for_extension(
                lowercase(extension),
            ),
{
    let ext = extension_text(path);
    assert(declared_extension(path@, ext@));
    mime_for(ext.as_str())
}

/// Where a file with content hash `hash` and declared extension `extension` is
/// stored: `files/<hash>.<ext>`.
pub open spec fn file_storage_path(hash: Seq<char>, extension: Seq<char>) -> Seq<char> {
    "files/"@ + hash + "."@ + extension
}

/// Where a thumbnail with content hash `hash` and declared extension `extension` is
/// stored: `thumbnails/<hash>.<ext>`.
pub open spec fn thumbnail_storage_path(hash: Seq<char>, extension: Seq<char>) -> Seq<char> {
    "thumbnails/"@ + hash + "."@ + extension
}

/// The storage path of a file.
pub fn storage_path_for_file(hash: &str, extension: &str) -> (r: String)
    ensures
        r@ == file_storage_path(hash@, extension@),
{
    String::from_str("files/").concat(hash).concat(".").concat(extension)
}

/// The storage path of a thumbnail.
pub fn storage_path_for_thumbnail(hash: &str, extension: &str) -> (r: String)
    ensures
        r@ == thumbnail_storage_path(hash@, extension@),
{
    String::from_str("thumbnails/").concat(hash).concat(".").concat(extension)
}

/// Whether bytes are stored at `path`.
pub open spec fn stored(blobs: Seq<String>, path: Seq<char>) -> bool {
    exists|j: int| 0 <= j < blobs.len() && (#[trigger] blobs[j])@ == path
}

/// The content hash of a file row.
pub open spec fn file_key() -> spec_fn(CachedFile) -> Seq<char> {
    |row: CachedFile| row.id@
}

/// The content hash of a thumbnail row.
pub open spec fn thumbnail_key() -> spec_fn(CachedThumbnail) -> Seq<char> {
    |row: CachedThumbnail| row.id@
}

/// The condition "has the content hash `hash`".
pub open spec fn file_id_is(hash: Seq<char>) -> spec_fn(CachedFile) -> bool {
    |row: CachedFile| row.id@ == hash
}

/// The condition "holds variant `format_id` of asset `video_id`".
pub open spec fn variant_is(video_id: Seq<char>, format_id: Seq<char>) -> spec_fn(
    CachedFile,
) -> bool {
    |row: CachedFile|
        opt_text(row.video_id) == Some(video_id) && opt_text(row.format_id) == Some(format_id)
}

/// The condition "is a thumbnail of asset `video_id`".
pub open spec fn thumbnail_of(video_id: Seq<char>) -> spec_fn(CachedThumbnail) -> bool {
    |row: CachedThumbnail| row.video_id@ == video_id
}

/// The condition "has the content hash `hash`", of a thumbnail row.
pub open spec fn thumbnail_id_is(hash: Seq<char>) -> spec_fn(CachedThumbnail) -> bool {
    |row: CachedThumbnail| row.id@ == hash
}

/// Whether `entry` describes the stored thumbnail `row` as a cached file: the same
/// hash, name, place, size, type and stamp, of kind `Thumbnail`, with the variant id
/// `thumbnail`, and without variant description or preferences.
pub open spec fn describes_thumbnail(entry: CachedFile, row: CachedThumbnail) -> bool {
    &&& entry.id == row.id
    &&& entry.filename == row.filename
    &&& entry.relative_path == row.relative_path
    &&& entry.video_id == Some(row.video_id)
    &&& entry.file_type == CachedType::Thumbnail
    &&& opt_text(entry.format_id) == Some("thumbnail"@)
    &&& entry.format_json.is_none()
    &&& entry.video_quality.is_none()
    &&& entry.audio_quality.is_none()
    &&& entry.video_codec.is_none()
    &&& entry.audio_codec.is_none()
    &&& entry.filesize == row.filesize
    &&& entry.mime_type == row.mime_type
    &&& entry.cached_at == row.cached_at
}

/// What the lookup of a thumbnail gives for the youngest row of the asset: the row,
/// if it is not expired and its bytes are stored.
pub open spec fn thumbnail_hit(
    candidate: Option<CachedThumbnail>,
    blobs: Seq<String>,
    now: u64,
    ttl: u64,
) -> Option<CachedThumbnail> {
    match candidate {
        Some(row) => if !is_expired(now, row.cached_at, ttl) && stored(blobs, row.relative_path@) {
            Some(row)
        } else {
            None
        },
        None => None,
    }
}

/// What tells an optional video codec preference from another.
pub open spec fn video_codec_key(o: Option<VideoCodecPreference>) -> Option<(int, Seq<char>)> {
    match o {
        Some(c) => Some(c.key()),
        None => None,
    }
}

/// What tells an optional audio codec preference from another.
pub open spec fn audio_codec_key(o: Option<AudioCodecPreference>) -> Option<(int, Seq<char>)> {
    match o {
        Some(c) => Some(c.key()),
        None => None,
    }
}

/// Whether a file was stored with the wanted preferences: every preference that is
/// set must be the one the file was stored with.
pub open spec fn meets_preferences(row: CachedFile, wanted: Preferences) -> bool {
    &&& wanted.video_quality.is_some() ==> row.video_quality == wanted.video_quality
    &&& wanted.audio_quality.is_some() ==> row.audio_quality == wanted.audio_quality
    &&& wanted.video_codec.is_some() ==> video_codec_key(row.video_codec) == video_codec_key(
        wanted.video_codec,
    )
    &&& wanted.audio_codec.is_some() ==> audio_codec_key(row.audio_codec) == audio_codec_key(
        wanted.audio_codec,
    )
}

/// The condition "belongs to asset `video_id` and was stored with the wanted preferences".
pub open spec fn preferred(video_id: Seq<char>, wanted: Preferences) -> spec_fn(CachedFile) -> bool {
    |row: CachedFile| opt_text(row.video_id) == Some(video_id) && meets_preferences(row, wanted)
}

/// The condition "expired at `now` under `ttl`".
pub open spec fn file_expired(now: u64, ttl: u64) -> spec_fn(CachedFile) -> bool {
    |row: CachedFile| is_expired(now, row.cached_at, ttl)
}

/// The condition "is the stored file of the row with content hash `hash`".
pub open spec fn blob_of(rows: Seq<CachedFile>, hash: Seq<char>) -> spec_fn(String) -> bool {
    |blob: String|
        match first_match(rows, file_id_is(hash)) {
            Some(row) => row.relative_path@ == blob@,
            None => false,
        }
}

/// The condition "expired at `now` under `ttl`", of a thumbnail row.
pub open spec fn thumbnail_expired(now: u64, ttl: u64) -> spec_fn(CachedThumbnail) -> bool {
    |row: CachedThumbnail| is_expired(now, row.cached_at, ttl)
}

/// The condition "is the stored file of a row, of either index, that is expired at `now`".
pub open spec fn blob_of_expired(
    files: Seq<CachedFile>,
    thumbnails: Seq<CachedThumbnail>,
    now: u64,
    ttl: u64,
) -> spec_fn(String) -> bool {
    |blob: String|
        (exists|j: int|
            0 <= j < files.len() && is_expired(now, (#[trigger] files[j]).cached_at, ttl)
                && files[j].relative_path@ == blob@) || (exists|j: int|
            0 <= j < thumbnails.len() && is_expired(now, (#[trigger] thumbnails[j]).cached_at, ttl)
                && thumbnails[j].relative_path@ == blob@)
}

/// What a lookup gives for the first row that meets its condition: the row, if it is
/// not expired and its bytes are stored.
pub open spec fn hit(candidate: Option<CachedFile>, blobs: Seq<String>, now: u64, ttl: u64) -> Option<
    CachedFile,
> {
    match candidate {
        Some(row) => if !is_expired(now, row.cached_at, ttl) && stored(blobs, row.relative_path@) {
            Some(row)
        } else {
            None
        },
        None => None,
    }
}

/// Storage paths of different content hashes differ, whatever the extensions.
pub proof fn lemma_storage_path_tells_hashes_apart(
    hash_a: Seq<char>,
    extension_a: Seq<char>,
    hash_b: Seq<char>,
    extension_b: Seq<char>,
)
    requires
        hash_a.len() == hash_b.len(),
        hash_a != hash_b,
    ensures
        file_storage_path(hash_a, extension_a) != file_storage_path(hash_b, extension_b),
{
    let pa = file_storage_path(hash_a, extension_a);
    let pb = file_storage_path(hash_b, extension_b);
    let head = "files/"@;
    let n = hash_a.len() as int;
    assert(pa.subrange(head.len() as int, head.len() + n) =~= hash_a);
    assert(pb.subrange(head.len() as int, head.len() + n) =~= hash_b);
}

/// Content addressing: a file with the bytes of one already stored, declared with the
/// same extension, gets the same content hash and the same storage path, and storing
/// it writes no second copy.
pub proof fn lemma_same_content_one_blob(
    before: DownloadCache,
    first: DownloadCache,
    second: DownloadCache,
    content: Seq<u8>,
    put_a: (CachedFile, bool),
    put_b: (CachedFile, bool),
    extension_a: Seq<char>,
    extension_b: Seq<char>,
    mime_a: Seq<char>,
    mime_b: Seq<char>,
    name_a: Seq<char>,
    name_b: Seq<char>,
    owner_a: Option<String>,
    owner_b: Option<String>,
    variant_a: Option<VariantInfo>,
    variant_b: Option<VariantInfo>,
    preferences_a: Preferences,
    preferences_b: Preferences,
    now_a: u64,
    now_b: u64,
)
    requires
        first.is_put_of(
            before,
            put_a,
            content,
            extension_a,
            mime_a,
            name_a,
            owner_a,
            variant_a,
            preferences_a,
            now_a,
        ),
        second.is_put_of(
            first,
            put_b,
            content,
            extension_b,
            mime_b,
            name_b,
            owner_b,
            variant_b,
            preferences_b,
            now_b,
        ),
        extension_a == extension_b,
    ensures
        put_a.0.id@ == put_b.0.id@,
        put_a.0.relative_path@ == put_b.0.relative_path@,
        !put_b.1,
        second.spec_blobs() == first.spec_blobs(),
{
}

/// Content addressing: a file with another content hash gets another storage path,
/// and after both are stored, bytes lie at both paths.
pub proof fn lemma_other_content_other_blob(
    before: DownloadCache,
    first: DownloadCache,
    second: DownloadCache,
    content_a: Seq<u8>,
    content_b: Seq<u8>,
    put_a: (CachedFile, bool),
    put_b: (CachedFile, bool),
    extension_a: Seq<char>,
    extension_b: Seq<char>,
    mime_a: Seq<char>,
    mime_b: Seq<char>,
    name_a: Seq<char>,
    name_b: Seq<char>,
    owner_a: Option<String>,
    owner_b: Option<String>,
    variant_a: Option<VariantInfo>,
    variant_b: Option<VariantInfo>,
    preferences_a: Preferences,
    preferences_b: Preferences,
    now_a: u64,
    now_b: u64,
)
    requires
        first.is_put_of(
            before,
            put_a,
            content_a,
            extension_a,
            mime_a,
            name_a,
            owner_a,
            variant_a,
            preferences_a,
            now_a,
        ),
        second.is_put_of(
            first,
            put_b,
            content_b,
            extension_b,
            mime_b,
            name_b,
            owner_b,
            variant_b,
            preferences_b,
            now_b,
        ),
        content_hash(content_a) != content_hash(content_b),
    ensures
        put_a.0.id@ != put_b.0.id@,
        put_a.0.relative_path@ != put_b.0.relative_path@,
        stored(second.spec_blobs(), put_a.0.relative_path@),
        stored(second.spec_blobs(), put_b.0.relative_path@),
{
    lemma_storage_path_tells_hashes_apart(
        content_hash(content_a),
        extension_a,
        content_hash(content_b),
        extension_b,
    );
    let path_a = put_a.0.relative_path@;
    let j = choose|j: int|
        0 <= j < first.spec_blobs().len() && (#[trigger] first.spec_blobs()[j])@ == path_a;
    if put_b.1 {
        assert(second.spec_blobs().drop_last()[j] == first.spec_blobs()[j]);
        assert(second.spec_blobs()[j]@ == path_a);
    }
}

/// Cache of downloaded content with a time to live.
pub struct DownloadCache {
    files: Vec<CachedFile>,
    thumbnails: Vec<CachedThumbnail>,
    blobs: Vec<String>,
    ttl: u64,
}

impl DownloadCache {
    /// The file index, oldest row first.
    pub closed spec fn spec_files(&self) -> Seq<CachedFile> {
        self.files@
    }

    /// The thumbnail index, oldest row first.
    pub closed spec fn spec_thumbnails(&self) -> Seq<CachedThumbnail> {
        self.thumbnails@
    }

    /// The relative paths at which bytes are stored.
    pub closed spec fn spec_blobs(&self) -> Seq<String> {
        self.blobs@
    }

    /// The time to live in seconds.
    pub closed spec fn spec_ttl(&self) -> u64 {
        self.ttl
    }

    /// The cache is consistent: each index has one row per content hash at most.
    pub open spec fn wf(&self) -> bool {
        &&& distinct_by(self.spec_files(), file_key())
        &&& distinct_by(self.spec_thumbnails(), thumbnail_key())
    }

    /// An empty cache with the given time to live, 7 days by default.
    pub fn new(ttl: Option<u64>) -> (r: DownloadCache)
        ensures
            r.wf(),
            r.spec_files().len() == 0,
            r.spec_thumbnails().len() == 0,
            r.spec_blobs().len() == 0,
            r.spec_ttl() == match ttl {
                Some(t) => t,
                None => DEFAULT_DOWNLOAD_TTL,
            },
    {
        DownloadCache {
            files: Vec::new(),
            thumbnails: Vec::new(),
            blobs: Vec::new(),
            ttl: match ttl {
                Some(t) => t,
                None => DEFAULT_DOWNLOAD_TTL,
            },
        }
    }

    /// A cache with the given index rows, oldest first, and with bytes stored at the
    /// given relative paths.
    pub fn restore(
        files: Vec<CachedFile>,
        thumbnails: Vec<CachedThumbnail>,
        blobs: Vec<String>,
        ttl: u64,
    ) -> (r: DownloadCache)
        ensures
            r.spec_files() == files@,
            r.spec_thumbnails() == thumbnails@,
            r.spec_blobs() == blobs@,
            r.spec_ttl() == ttl,
    {
        DownloadCache { files, thumbnails, blobs, ttl }
    }

    /// The time to live in seconds.
    pub fn ttl(&self) -> (r: u64)
        ensures
            r == self.spec_ttl(),
    {
        self.ttl
    }

    /// The row at position `i` of the file index.
    pub fn file(&self, i: usize) -> (r: &CachedFile)
        requires
            i < self.spec_files().len(),
        ensures
            *r == self.spec_files()[i as int],
    {
        &self.files[i]
    }

    /// Number of rows in the file index.
    pub fn file_count(&self) -> (r: usize)
        ensures
            r == self.spec_files().len(),
    {
        self.files.len()
    }

    /// The relative path at position `i` of the stored paths.
    pub fn blob(&self, i: usize) -> (r: &String)
        requires
            i < self.spec_blobs().len(),
        ensures
            *r == self.spec_blobs()[i as int],
    {
        &self.blobs[i]
    }

    /// Number of stored files.
    pub fn blob_count(&self) -> (r: usize)
        ensures
            r == self.spec_blobs().len(),
    {
        self.blobs.len()
    }

    /// Whether bytes are stored at the relative path `path`.
    pub fn has_blob(&self, path: &str) -> (r: bool)
        ensures
            r == stored(self.spec_blobs(), path@),
    {
        let mut k: usize = 0;
        while k < self.blobs.len()
            invariant
                k <= self.blobs@.len(),
                forall|j: int| 0 <= j < k ==> (#[trigger] self.blobs@[j])@ != path@,
            decreases self.blobs@.len() - k,
        {
            if str_eq(self.blobs[k].as_str(), path) {
                return true;
            }
            k = k + 1;
        }
        false
    }

    /// Calculates the content hash of a file's bytes.
    pub fn calculate_file_hash(content: &[u8]) -> (r: String)
        ensures
            r@ == content_hash(content@),
            r@.len() == 64,
    {
        hash_bytes(content)
    }

    fn answer(&self, k: usize, now: u64) -> (r: Option<CachedFile>)
        requires
            k < self.spec_files().len(),
        ensures
            r == hit(Some(self.spec_files()[k as int]), self.spec_blobs(), now, self.spec_ttl()),
    {
        let row = &self.files[k];
        if !expired(now, row.cached_at, self.ttl) && self.has_blob(row.relative_path.as_str()) {
            Some(row.duplicate())
        } else {
            None
        }
    }

    fn find_by_hash(&self, hash: &str) -> (r: Option<usize>)
        ensures
            match r {
                Some(k) => is_first(self.spec_files(), file_id_is(hash@), k as int),
                None => forall|j: int|
                    0 <= j < self.spec_files().len() ==> !file_id_is(hash@)(
                        #[trigger] self.spec_files()[j],
                    ),
            },
    {
        let mut k: usize = 0;
        while k < self.files.len()
            invariant
                k <= self.files@.len(),
                forall|j: int| 0 <= j < k ==> !file_id_is(hash@)(#[trigger] self.files@[j]),
            decreases self.files@.len() - k,
        {
            if str_eq(self.files[k].id.as_str(), hash) {
                return Some(k);
            }
            k = k + 1;
        }
        None
    }

    /// Looks a file up by its content hash at time `now`.
    pub fn get_by_hash(&self, file_hash: &str, now: u64) -> (r: Option<CachedFile>)
        ensures
            r == hit(
                first_match(self.spec_files(), file_id_is(file_hash@)),
                self.spec_blobs(),
                now,
                self.spec_ttl(),
            ),
    {
        match self.find_by_hash(file_hash) {
            None => {
                proof {
                    lemma_no_match(self.files@, file_id_is(file_hash@));
                }
                None
            },
            Some(k) => {
                proof {
                    lemma_first_match(self.files@, file_id_is(file_hash@), k as int);
                }
                self.answer(k, now)
            },
        }
    }

    /// Looks up the file that holds variant `format_id` of asset `video_id`, at time `now`.
    pub fn get_by_video_and_format(&self, video_id: &str, format_id: &str, now: u64) -> (r: Option<
        CachedFile,
    >)
        ensures
            r == hit(
                first_match(self.spec_files(), variant_is(video_id@, format_id@)),
                self.spec_blobs(),
                now,
                self.spec_ttl(),
            ),
    {
        let ghost pred = variant_is(video_id@, format_id@);
        let mut k: usize = 0;
        while k < self.files.len()
            invariant
                k <= self.files@.len(),
                pred == variant_is(video_id@, format_id@),
                forall|j: int| 0 <= j < k ==> !pred(#[trigger] self.files@[j]),
            decreases self.files@.len() - k,
        {
            let row = &self.files[k];
            if opt_is(&row.video_id, video_id) && opt_is(&row.format_id, format_id) {
                proof {
                    lemma_first_match(self.files@, pred, k as int);
                }
                return self.answer(k, now);
            }
            k = k + 1;
        }
        proof {
            lemma_no_match(self.files@, pred);
        }
        None
    }

    /// Looks up the thumbnail of asset `video_id` at time `now`: the youngest thumbnail
    /// stored for the asset, described as a cached file, unless it is expired or its
    /// bytes are gone.
    pub fn get_thumbnail_by_video_id(&self, video_id: &str, now: u64) -> (r: Option<CachedFile>)
        ensures
            match thumbnail_hit(
                last_match(self.spec_thumbnails(), thumbnail_of(video_id@)),
                self.spec_blobs(),
                now,
                self.spec_ttl(),
            ) {
                Some(row) => r matches Some(entry) && describes_thumbnail(entry, row),
                None => r.is_none(),
            },
    {
        let ghost pred = thumbnail_of(video_id@);
        let mut k: usize = self.thumbnails.len();
        while k > 0
            invariant
                k <= self.thumbnails@.len(),
                pred == thumbnail_of(video_id@),
                forall|j: int| k <= j < self.thumbnails@.len() ==> !pred(#[trigger] self.thumbnails@[j]),
            decreases k,
        {
            let row = &self.thumbnails[k - 1];
            if str_eq(row.video_id.as_str(), video_id) {
                proof {
                    assert(is_last(self.thumbnails@, pred, k - 1));
                    lemma_last_match(self.thumbnails@, pred, k - 1);
                }
                if !expired(now, row.cached_at, self.ttl) && self.has_blob(
                    row.relative_path.as_str(),
                ) {
                    return Some(
                        CachedFile {
                            id: row.id.clone(),
                            filename: row.filename.clone(),
                            relative_path: row.relative_path.clone(),
                            video_id: Some(row.video_id.clone()),
                            file_type: CachedType::Thumbnail,
                            format_id: Some(String::from_str("thumbnail")),
                            format_json: None,
                            video_quality: None,
                            audio_quality: None,
                            video_codec: None,
                            audio_codec: None,
                            filesize: row.filesize,
                            mime_type: row.mime_type.clone(),
                            cached_at: row.cached_at,
                        },
                    );
                }
                return None;
            }
            k = k - 1;
        }
        proof {
            lemma_no_last_match(self.thumbnails@, pred);
        }
        None
    }

    fn row_meets(row: &CachedFile, video_id: &str, wanted: &Preferences) -> (r: bool)
        ensures
            r == preferred(video_id@, *wanted)(*row),
    {
        if !opt_is(&row.video_id, video_id) {
            return false;
        }
        let vq = match wanted.video_quality {
            None => true,
            Some(w) => match row.video_quality {
                Some(have) => have == w,
                None => false,
            },
        };
        let aq = match wanted.audio_quality {
            None => true,
            Some(w) => match row.audio_quality {
                Some(have) => have == w,
                None => false,
            },
        };
        let vc = match &wanted.video_codec {
            None => true,
            Some(w) => match &row.video_codec {
                Some(have) => have.same(w),
                None => false,
            },
        };
        let ac = match &wanted.audio_codec {
            None => true,
            Some(w) => match &row.audio_codec {
                Some(have) => have.same(w),
                None => false,
            },
        };
        vq && aq && vc && ac
    }

    /// Looks up a file of asset `video_id` that was stored with the wanted preferences,
    /// at time `now`. The preferences are taken together; one left unset matches any value.
    pub fn get_by_video_and_preferences(&self, video_id: &str, wanted: &Preferences, now: u64) -> (r:
        Option<CachedFile>)
        ensures
            r == hit(
                first_match(self.spec_files(), preferred(video_id@, *wanted)),
                self.spec_blobs(),
                now,
                self.spec_ttl(),
            ),
    {
        let ghost pred = preferred(video_id@, *wanted);
        let mut k: usize = 0;
        while k < self.files.len()
            invariant
                k <= self.files@.len(),
                pred == preferred(video_id@, *wanted),
                forall|j: int| 0 <= j < k ==> !pred(#[trigger] self.files@[j]),
            decreases self.files@.len() - k,
        {
            if Self::row_meets(&self.files[k], video_id, wanted) {
                proof {
                    lemma_first_match(self.files@, pred, k as int);
                }
                return self.answer(k, now);
            }
            k = k + 1;
        }
        proof {
            lemma_no_match(self.files@, pred);
        }
        None
    }

    /// Looks up a stored variant of asset `video_id` before it is downloaded: the file
    /// that holds exactly variant `format_id`, else, if any preference is set, a file
    /// that was stored with the wanted preferences.
    pub fn lookup_variant(
        &self,
        video_id: &str,
        format_id: &str,
        wanted: &Preferences,
        now: u64,
    ) -> (r: Option<CachedFile>)
        ensures
            r == match hit(
                first_match(self.spec_files(), variant_is(video_id@, format_id@)),
                self.spec_blobs(),
                now,
                self.spec_ttl(),
            ) {
                Some(row) => Some(row),
                None => if wanted.spec_any_set() {
                    hit(
                        first_match(self.spec_files(), preferred(video_id@, *wanted)),
                        self.spec_blobs(),
                        now,
                        self.spec_ttl(),
                    )
                } else {
                    None
                },
            },
    {
        match self.get_by_video_and_format(video_id, format_id, now) {
            Some(row) => Some(row),
            None => {
                if wanted.any_set() {
                    self.get_by_video_and_preferences(video_id, wanted, now)
                } else {
                    None
                }
            },
        }
    }

    /// The serialised variant description stored for a file with these bytes, if the
    /// cache holds such a file at time `now` and knows its variant.
    pub fn variant_of_content(&self, content: &[u8], now: u64) -> (r: Option<String>)
        ensures
            r == match hit(
                first_match(self.spec_files(), file_id_is(content_hash(content@))),
                self.spec_blobs(),
                now,
                self.spec_ttl(),
            ) {
                Some(row) => row.format_json,
                None => None,
            },
    {
        let hash = hash_bytes(content);
        match self.get_by_hash(hash.as_str(), now) {
            Some(row) => row.format_json,
            None => None,
        }
    }

    fn delete_rows_with_hash(&mut self, hash: &str)
        ensures
            final(self).spec_ttl() == old(self).spec_ttl(),
            final(self).spec_thumbnails() == old(self).spec_thumbnails(),
            final(self).spec_blobs() == old(self).spec_blobs(),
            final(self).spec_files() == old(self).spec_files().filter(
                |row: CachedFile| !file_id_is(hash@)(row),
            ),
    {
        let mut marks: Vec<bool> = Vec::new();
        let mut k: usize = 0;
        while k < self.files.len()
            invariant
                k <= self.files@.len(),
                marks@.len() == k,
                forall|j: int|
                    0 <= j < k ==> marks@[j] == file_id_is(hash@)(#[trigger] self.files@[j]),
            decreases self.files@.len() - k,
        {
            marks.push(str_eq(self.files[k].id.as_str(), hash));
            k = k + 1;
        }
        proof {
            lemma_unmarked_is_filter(self.files@, marks@, file_id_is(hash@));
        }
        delete_marked(&mut self.files, &marks);
    }

    fn store_blob(&mut self, path: &str) -> (written: bool)
        requires
            old(self).spec_blobs().len() < usize::MAX,
        ensures
            final(self).spec_ttl() == old(self).spec_ttl(),
            final(self).spec_thumbnails() == old(self).spec_thumbnails(),
            final(self).spec_files() == old(self).spec_files(),
            written == !stored(old(self).spec_blobs(), path@),
            stored(final(self).spec_blobs(), path@),
            !written ==> final(self).spec_blobs() == old(self).spec_blobs(),
            written ==> final(self).spec_blobs().len() == old(self).spec_blobs().len() + 1
                && final(self).spec_blobs().drop_last() == old(self).spec_blobs() && final(self).spec_blobs().last()@ == path@,
    {
        if self.has_blob(path) {
            false
        } else {
            let ghost before = self.blobs@;
            self.blobs.push(String::from_str(path));
            assert(self.blobs@.drop_last() =~= before);
            assert(self.blobs@[self.blobs@.len() - 1]@ == path@);
            true
        }
    }

    /// Whether `self` and `r` are what storing a file in `before` gives.
    ///
    /// The entry `r.0` is named by the content hash, lies at `files/<hash>.<ext>` for
    /// the declared extension, and carries what was declared. The bytes are written
    /// (`r.1`) only if nothing is stored at that path yet. The index row with this hash
    /// is replaced, so that a repeated put with other variant data still updates how the
    /// file is found.
    pub open spec fn is_put_of(
        &self,
        before: DownloadCache,
        r: (CachedFile, bool),
        content: Seq<u8>,
        extension: Seq<char>,
        mime: Seq<char>,
        filename: Seq<char>,
        video_id: Option<String>,
        variant: Option<VariantInfo>,
        preferences: Preferences,
        now: u64,
    ) -> bool {
        let hash = content_hash(content);
        let path = file_storage_path(hash, extension);
        let entry = r.0;
        &&& entry.id@ == hash
        &&& hash.len() == 64
        &&& entry.filename@ == filename
        &&& entry.relative_path@ == path
        &&& entry.video_id == video_id
        &&& entry.file_type == if variant.is_some() {
            CachedType::Format
        } else {
            CachedType::Other
        }
        &&& entry.format_id == match variant {
            Some(v) => Some(v.format_id),
            None => None,
        }
        &&& entry.format_json == match variant {
            Some(v) => Some(v.format_json),
            None => None,
        }
        &&& entry.video_quality == preferences.video_quality
        &&& entry.audio_quality == preferences.audio_quality
        &&& entry.video_codec == preferences.video_codec
        &&& entry.audio_codec == preferences.audio_codec
        &&& entry.filesize == content.len()
        &&& entry.mime_type@ == mime
        &&& entry.cached_at == now
        &&& self.spec_ttl() == before.spec_ttl()
        &&& self.spec_thumbnails() == before.spec_thumbnails()
        &&& self.spec_files() == before.spec_files().filter(
            |row: CachedFile| !file_id_is(hash)(row),
        ).push(entry)
        &&& before.wf() ==> self.wf()
        &&& r.1 == !stored(before.spec_blobs(), path)
        &&& stored(self.spec_blobs(), path)
        &&& !r.1 ==> self.spec_blobs() == before.spec_blobs()
        &&& r.1 ==> self.spec_blobs().len() == before.spec_blobs().len() + 1
            && self.spec_blobs().drop_last() == before.spec_blobs() && self.spec_blobs().last()@
            == path
    }

    /// Stores a file whose declared extension is `extension` and whose source has the
    /// extension `source_extension`, at time `now`. Returns the entry and whether the
    /// bytes are to be written.
    pub fn put_entry(
        &mut self,
        content: &[u8],
        extension: &str,
        source_extension: &str,
        filename: &str,
        video_id: Option<String>,
        variant: Option<VariantInfo>,
        preferences: Preferences,
        now: u64,
    ) -> (r: (CachedFile, bool))
        requires
            old(self).spec_blobs().len() < usize::MAX,
            old(self).spec_files().len() < usize::MAX,
        ensures
            final(self).is_put_of(
                *old(self),
                r,
                content@,
                extension@,
                mime_for_extension(lowercase(source_extension@)),
                filename@,
                video_id,
                variant,
                preferences,
                now,
            ),
    {
        let hash = hash_bytes(content);
        let mime_type = mime_for(source_extension);
        let relative_path = storage_path_for_file(hash.as_str(), extension);
        let written = self.store_blob(relative_path.as_str());
        let (file_type, format_id, format_json) = match variant {
            Some(v) => (CachedType::Format, Some(v.format_id), Some(v.format_json)),
            None => (CachedType::Other, None, None),
        };
        let entry = CachedFile {
            id: hash,
            filename: String::from_str(filename),
            relative_path,
            video_id,
            file_type,
            format_id,
            format_json,
            video_quality: preferences.video_quality,
            audio_quality: preferences.audio_quality,
            video_codec: preferences.video_codec,
            audio_codec: preferences.audio_codec,
            filesize: content.len() as u64,
            mime_type,
            cached_at: now,
        };
        self.delete_rows_with_hash(entry.id.as_str());
        proof {
            let keep = |row: CachedFile| !file_id_is(content_hash(content@))(row);
            let before = old(self).spec_files();
            before.lemma_filter_len(keep);
            if old(self).wf() {
                lemma_filter_keeps_distinct(before, file_key(), keep);
                assert forall|i: int| 0 <= i < self.files@.len() implies file_key()(
                    #[trigger] self.files@[i],
                ) != file_key()(entry) by {
                    before.lemma_filter_pred(keep, i);
                }
                lemma_push_keeps_distinct(self.files@, file_key(), entry);
            }
        }
        let copy = entry.duplicate();
        self.files.push(entry);
        (copy, written)
    }

    /// Stores a file at time `now`, without preferences.
    ///
    /// See [`DownloadCache::put_file_with_preferences`].
    pub fn put_file(
        &mut self,
        content: &[u8],
        source_path: &str,
        filename: &str,
        video_id: Option<String>,
        variant: Option<VariantInfo>,
        now: u64,
    ) -> (r: (CachedFile, bool))
        requires
            old(self).spec_blobs().len() < usize::MAX,
            old(self).spec_files().len() < usize::MAX,
        ensures
            exists|extension: Seq<char>, source_extension: Seq<char>|
                #![trigger
                    declared_extension(filename@, extension),
                    declared_extension(source_path@, source_extension),
                ]
                declared_extension(filename@, extension) && declared_extension(
                    source_path@,
                    source_extension,
                ) && final(self).is_put_of(
                    *old(self),
                    r,
                    content@,
                    extension,
                    mime_for_extension(lowercase(source_extension)),
                    filename@,
                    video_id,
                    variant,
                    Preferences {
                        video_quality: None,
                        audio_quality: None,
                        video_codec: None,
                        audio_codec: None,
                    },
                    now,
                ),
    {
        self.put_file_with_preferences(
            content,
            source_path,
            filename,
            video_id,
            variant,
            Preferences {
                video_quality: None,
                audio_quality: None,
                video_codec: None,
                audio_codec: None,
            },
            now,
        )
    }

    /// Stores a file at time `now`, with the preferences by which its variant was
    /// chosen. Returns the entry and whether the bytes are to be written.
    ///
    /// The extension under which the bytes are stored is the one taken from `filename`,
    /// the MIME type goes by the one taken from `source_path`; each stands in its path
    /// behind a `.` or is empty. For given extensions [`DownloadCache::put_entry`] says
    /// what is stored.
    pub fn put_file_with_preferences(
        &mut self,
        content: &[u8],
        source_path: &str,
        filename: &str,
        video_id: Option<String>,
        variant: Option<VariantInfo>,
        preferences: Preferences,
        now: u64,
    ) -> (r: (CachedFile, bool))
        requires
            old(self).spec_blobs().len() < usize::MAX,
            old(self).spec_files().len() < usize::MAX,
        ensures
            exists|extension: Seq<char>, source_extension: Seq<char>|
                #![trigger
                    declared_extension(filename@, extension),
                    declared_extension(source_path@, source_extension),
                ]
                declared_extension(filename@, extension) && declared_extension(
                    source_path@,
                    source_extension,
                ) && final(self).is_put_of(
                    *old(self),
                    r,
                    content@,
                    extension,
                    mime_for_extension(lowercase(source_extension)),
                    filename@,
                    video_id,
                    variant,
                    preferences,
                    now,
                ),
    {
        let extension = extension_text(filename);
        let source_extension = extension_text(source_path);
        let r = self.put_entry(
            content,
            extension.as_str(),
            source_extension.as_str(),
            filename,
            video_id,
            variant,
            preferences,
            now,
        );
        proof {
            assert(declared_extension(filename@, extension@));
            assert(declared_extension(source_path@, source_extension@));
        }
        r
    }

    /// Deletes the index row of the file with content hash `file_hash` and the bytes
    /// it points to. Returns the relative paths whose bytes are to be deleted.
    pub fn remove_file(&mut self, file_hash: &str) -> (removed: Vec<String>)
        ensures
            final(self).spec_ttl() == old(self).spec_ttl(),
            final(self).spec_thumbnails() == old(self).spec_thumbnails(),
            final(self).spec_files() == old(self).spec_files().filter(
                |row: CachedFile| !file_id_is(file_hash@)(row),
            ),
            final(self).spec_blobs() == old(self).spec_blobs().filter(
                |blob: String| !blob_of(old(self).spec_files(), file_hash@)(blob),
            ),
            removed@ == old(self).spec_blobs().filter(blob_of(old(self).spec_files(), file_hash@)),
            old(self).wf() ==> final(self).wf(),
    {
        let ghost rows = self.files@;
        let ghost pred = blob_of(rows, file_hash@);
        let found = self.find_by_hash(file_hash);
        proof {
            match found {
                Some(k) => {
                    lemma_first_match(rows, file_id_is(file_hash@), k as int);
                },
                None => {
                    assert forall|j: int| 0 <= j < rows.len() implies !file_id_is(file_hash@)(
                        #[trigger] rows[j],
                    ) by {
                        assert(!file_id_is(file_hash@)(self.spec_files()[j]));
                    }
                    lemma_no_match(rows, file_id_is(file_hash@));
                },
            }
        }
        let mut marks: Vec<bool> = Vec::new();
        let mut j: usize = 0;
        while j < self.blobs.len()
            invariant
                j <= self.blobs@.len(),
                marks@.len() == j,
                rows == self.files@,
                pred == blob_of(rows, file_hash@),
                match found {
                    Some(k) => k < rows.len() && first_match(rows, file_id_is(file_hash@)) == Some(
                        rows[k as int],
                    ),
                    None => first_match(rows, file_id_is(file_hash@)).is_none(),
                },
                forall|i: int| 0 <= i < j ==> marks@[i] == pred(#[trigger] self.blobs@[i]),
            decreases self.blobs@.len() - j,
        {
            let mark = match found {
                Some(k) => str_eq(self.files[k].relative_path.as_str(), self.blobs[j].as_str()),
                None => false,
            };
            marks.push(mark);
            j = j + 1;
        }
        proof {
            lemma_unmarked_is_filter(self.blobs@, marks@, pred);
            lemma_marked_is_filter(self.blobs@, marks@, pred);
        }
        let removed = copy_marked(&self.blobs, &marks);
        delete_marked(&mut self.blobs, &marks);
        self.delete_rows_with_hash(file_hash);
        proof {
            if old(self).wf() {
                lemma_filter_keeps_distinct(
                    rows,
                    file_key(),
                    |row: CachedFile| !file_id_is(file_hash@)(row),
                );
            }
        }
        removed
    }

    fn blob_is_expired(&self, j: usize, now: u64) -> (r: bool)
        requires
            j < self.spec_blobs().len(),
        ensures
            r == blob_of_expired(self.spec_files(), self.spec_thumbnails(), now, self.spec_ttl())(
                self.spec_blobs()[j as int],
            ),
    {
        let blob = self.blobs[j].as_str();
        let mut k: usize = 0;
        while k < self.files.len()
            invariant
                k <= self.files@.len(),
                blob@ == self.blobs@[j as int]@,
                forall|i: int|
                    0 <= i < k ==> !(is_expired(now, (#[trigger] self.files@[i]).cached_at, self.ttl)
                        && self.files@[i].relative_path@ == blob@),
            decreases self.files@.len() - k,
        {
            let row = &self.files[k];
            if expired(now, row.cached_at, self.ttl) && str_eq(row.relative_path.as_str(), blob) {
                return true;
            }
            k = k + 1;
        }
        let mut t: usize = 0;
        while t < self.thumbnails.len()
            invariant
                t <= self.thumbnails@.len(),
                blob@ == self.blobs@[j as int]@,
                forall|i: int|
                    0 <= i < self.files@.len() ==> !(is_expired(
                        now,
                        (#[trigger] self.files@[i]).cached_at,
                        self.ttl,
                    ) && self.files@[i].relative_path@ == blob@),
                forall|i: int|
                    0 <= i < t ==> !(is_expired(
                        now,
                        (#[trigger] self.thumbnails@[i]).cached_at,
                        self.ttl,
                    ) && self.thumbnails@[i].relative_path@ == blob@),
            decreases self.thumbnails@.len() - t,
        {
            let row = &self.thumbnails[t];
            if expired(now, row.cached_at, self.ttl) && str_eq(row.relative_path.as_str(), blob) {
                return true;
            }
            t = t + 1;
        }
        false
    }

    /// Deletes every row of either index that is expired at time `now`, with the bytes
    /// it points to. Rows that are not expired, and their bytes, stay as they are.
    /// Returns the relative paths whose bytes are to be deleted.
    pub fn clean(&mut self, now: u64) -> (removed: Vec<String>)
        ensures
            final(self).spec_ttl() == old(self).spec_ttl(),
            final(self).spec_files() == old(self).spec_files().filter(
                |row: CachedFile| !file_expired(now, old(self).spec_ttl())(row),
            ),
            final(self).spec_thumbnails() == old(self).spec_thumbnails().filter(
                |row: CachedThumbnail| !thumbnail_expired(now, old(self).spec_ttl())(row),
            ),
            final(self).spec_blobs() == old(self).spec_blobs().filter(
                |blob: String|
                    !blob_of_expired(
                        old(self).spec_files(),
                        old(self).spec_thumbnails(),
                        now,
                        old(self).spec_ttl(),
                    )(blob),
            ),
            removed@ == old(self).spec_blobs().filter(
                blob_of_expired(
                    old(self).spec_files(),
                    old(self).spec_thumbnails(),
                    now,
                    old(self).spec_ttl(),
                ),
            ),
            old(self).wf() ==> final(self).wf(),
    {
        let ghost rows = self.files@;
        let ghost thumbs = self.thumbnails@;
        let ghost gone = blob_of_expired(rows, thumbs, now, self.ttl);
        let mut blob_marks: Vec<bool> = Vec::new();
        let mut j: usize = 0;
        while j < self.blobs.len()
            invariant
                j <= self.blobs@.len(),
                blob_marks@.len() == j,
                rows == self.files@,
                thumbs == self.thumbnails@,
                gone == blob_of_expired(rows, thumbs, now, self.ttl),
                forall|i: int| 0 <= i < j ==> blob_marks@[i] == gone(#[trigger] self.blobs@[i]),
            decreases self.blobs@.len() - j,
        {
            blob_marks.push(self.blob_is_expired(j, now));
            j = j + 1;
        }
        let mut marks: Vec<bool> = Vec::new();
        let mut k: usize = 0;
        while k < self.files.len()
            invariant
                k <= self.files@.len(),
                marks@.len() == k,
                forall|i: int|
                    0 <= i < k ==> marks@[i] == file_expired(now, self.ttl)(#[trigger] self.files@[i]),
            decreases self.files@.len() - k,
        {
            marks.push(expired(now, self.files[k].cached_at, self.ttl));
            k = k + 1;
        }
        let mut thumbnail_marks: Vec<bool> = Vec::new();
        let mut t: usize = 0;
        while t < self.thumbnails.len()
            invariant
                t <= self.thumbnails@.len(),
                thumbnail_marks@.len() == t,
                forall|i: int|
                    0 <= i < t ==> thumbnail_marks@[i] == thumbnail_expired(now, self.ttl)(
                        #[trigger] self.thumbnails@[i],
                    ),
            decreases self.thumbnails@.len() - t,
        {
            thumbnail_marks.push(expired(now, self.thumbnails[t].cached_at, self.ttl));
            t = t + 1;
        }
        proof {
            lemma_unmarked_is_filter(self.blobs@, blob_marks@, gone);
            lemma_marked_is_filter(self.blobs@, blob_marks@, gone);
            lemma_unmarked_is_filter(self.files@, marks@, file_expired(now, self.ttl));
            lemma_unmarked_is_filter(
                self.thumbnails@,
                thumbnail_marks@,
                thumbnail_expired(now, self.ttl),
            );
            if old(self).wf() {
                lemma_filter_keeps_distinct(
                    self.files@,
                    file_key(),
                    |row: CachedFile| !file_expired(now, self.ttl)(row),
                );
                lemma_filter_keeps_distinct(
                    self.thumbnails@,
                    thumbnail_key(),
                    |row: CachedThumbnail| !thumbnail_expired(now, self.ttl)(row),
                );
            }
        }
        let removed = copy_marked(&self.blobs, &blob_marks);
        delete_marked(&mut self.blobs, &blob_marks);
        delete_marked(&mut self.files, &marks);
        delete_marked(&mut self.thumbnails, &thumbnail_marks);
        removed
    }

    fn delete_thumbnails_with_hash(&mut self, hash: &str)
        ensures
            final(self).spec_ttl() == old(self).spec_ttl(),
            final(self).spec_files() == old(self).spec_files(),
            final(self).spec_blobs() == old(self).spec_blobs(),
            final(self).spec_thumbnails() == old(self).spec_thumbnails().filter(
                |row: CachedThumbnail| !thumbnail_id_is(hash@)(row),
            ),
    {
        let mut marks: Vec<bool> = Vec::new();
        let mut k: usize = 0;
        while k < self.thumbnails.len()
            invariant
                k <= self.thumbnails@.len(),
                marks@.len() == k,
                forall|j: int|
                    0 <= j < k ==> marks@[j] == thumbnail_id_is(hash@)(
                        #[trigger] self.thumbnails@[j],
                    ),
            decreases self.thumbnails@.len() - k,
        {
            marks.push(str_eq(self.thumbnails[k].id.as_str(), hash));
            k = k + 1;
        }
        proof {
            lemma_unmarked_is_filter(self.thumbnails@, marks@, thumbnail_id_is(hash@));
        }
        delete_marked(&mut self.thumbnails, &marks);
    }

    /// Number of rows in the thumbnail index.
    pub fn thumbnail_count(&self) -> (r: usize)
        ensures
            r == self.spec_thumbnails().len(),
    {
        self.thumbnails.len()
    }

    /// The row at position `i` of the thumbnail index.
    pub fn thumbnail(&self, i: usize) -> (r: &CachedThumbnail)
        requires
            i < self.spec_thumbnails().len(),
        ensures
            *r == self.spec_thumbnails()[i as int],
    {
        &self.thumbnails[i]
    }

    /// Whether `self` and `r` are what storing a thumbnail in `before` gives.
    ///
    /// The entry `r.0` is named by the content hash, lies at `thumbnails/<hash>.<ext>`
    /// for the declared extension, and carries what was declared. The bytes are written
    /// (`r.1`) only if nothing is stored at that path yet. The row of the thumbnail
    /// index with this hash is replaced, and the new entry is the youngest.
    pub open spec fn is_thumbnail_put_of(
        &self,
        before: DownloadCache,
        r: (CachedThumbnail, bool),
        content: Seq<u8>,
        extension: Seq<char>,
        mime: Seq<char>,
        filename: Seq<char>,
        video_id: String,
        width: Option<u32>,
        height: Option<u32>,
        now: u64,
    ) -> bool {
        let hash = content_hash(content);
        let path = thumbnail_storage_path(hash, extension);
        let entry = r.0;
        &&& entry.id@ == hash
        &&& hash.len() == 64
        &&& entry.filename@ == filename
        &&& entry.relative_path@ == path
        &&& entry.video_id == video_id
        &&& entry.filesize == content.len()
        &&& entry.mime_type@ == mime
        &&& entry.width == width
        &&& entry.height == height
        &&& entry.cached_at == now
        &&& self.spec_ttl() == before.spec_ttl()
        &&& self.spec_files() == before.spec_files()
        &&& self.spec_thumbnails() == before.spec_thumbnails().filter(
            |row: CachedThumbnail| !thumbnail_id_is(hash)(row),
        ).push(entry)
        &&& before.wf() ==> self.wf()
        &&& r.1 == !stored(before.spec_blobs(), path)
        &&& stored(self.spec_blobs(), path)
        &&& !r.1 ==> self.spec_blobs() == before.spec_blobs()
        &&& r.1 ==> self.spec_blobs().len() == before.spec_blobs().len() + 1
            && self.spec_blobs().drop_last() == before.spec_blobs() && self.spec_blobs().last()@
            == path
    }

    /// Stores a thumbnail whose declared extension is `extension` and whose source has
    /// the extension `source_extension`, at time `now`. Returns the entry and whether
    /// the bytes are to be written.
    pub fn put_thumbnail_entry(
        &mut self,
        content: &[u8],
        extension: &str,
        source_extension: &str,
        filename: &str,
        video_id: String,
        width: Option<u32>,
        height: Option<u32>,
        now: u64,
    ) -> (r: (CachedThumbnail, bool))
        requires
            old(self).spec_blobs().len() < usize::MAX,
            old(self).spec_thumbnails().len() < usize::MAX,
        ensures
            final(self).is_thumbnail_put_of(
                *old(self),
                r,
                content@,
                extension@,
                mime_for_extension(lowercase(source_extension@)),
                filename@,
                video_id,
                width,
                height,
                now,
            ),
    {
        let hash = hash_bytes(content);
        let mime_type = mime_for(source_extension);
        let relative_path = storage_path_for_thumbnail(hash.as_str(), extension);
        let written = self.store_blob(relative_path.as_str());
        let entry = CachedThumbnail {
            id: hash,
            filename: String::from_str(filename),
            relative_path,
            video_id,
            filesize: content.len() as u64,
            mime_type,
            width,
            height,
            cached_at: now,
        };
        self.delete_thumbnails_with_hash(entry.id.as_str());
        proof {
            let keep = |row: CachedThumbnail| !thumbnail_id_is(content_hash(content@))(row);
            let before = old(self).spec_thumbnails();
            before.lemma_filter_len(keep);
            if old(self).wf() {
                lemma_filter_keeps_distinct(before, thumbnail_key(), keep);
                assert forall|i: int| 0 <= i < self.thumbnails@.len() implies thumbnail_key()(
                    #[trigger] self.thumbnails@[i],
                ) != thumbnail_key()(entry) by {
                    before.lemma_filter_pred(keep, i);
                }
                lemma_push_keeps_distinct(self.thumbnails@, thumbnail_key(), entry);
            }
        }
        let copy = entry.duplicate();
        self.thumbnails.push(entry);
        (copy, written)
    }

    /// Stores a thumbnail of asset `video_id` at time `now`. Returns the entry and
    /// whether the bytes are to be written.
    ///
    /// The extension under which the bytes are stored is the one taken from `filename`,
    /// the MIME type goes by the one taken from `source_path`; each stands in its path
    /// behind a `.` or is empty. For given extensions
    /// [`DownloadCache::put_thumbnail_entry`] says what is stored.
    pub fn put_thumbnail(
        &mut self,
        content: &[u8],
        source_path: &str,
        filename: &str,
        video_id: String,
        width: Option<u32>,
        height: Option<u32>,
        now: u64,
    ) -> (r: (CachedThumbnail, bool))
        requires
            old(self).spec_blobs().len() < usize::MAX,
            old(self).spec_thumbnails().len() < usize::MAX,
        ensures
            exists|extension: Seq<char>, source_extension: Seq<char>|
                #![trigger
                    declared_extension(filename@, extension),
                    declared_extension(source_path@, source_extension),
                ]
                declared_extension(filename@, extension) && declared_extension(
                    source_path@,
                    source_extension,
                ) && final(self).is_thumbnail_put_of(
                    *old(self),
                    r,
                    content@,
                    extension,
                    mime_for_extension(lowercase(source_extension)),
                    filename@,
                    video_id,
                    width,
                    height,
                    now,
                ),
    {
        let extension = extension_text(filename);
        let source_extension = extension_text(source_path);
        let r = self.put_thumbnail_entry(
            content,
            extension.as_str(),
            source_extension.as_str(),
            filename,
            video_id,
            width,
            height,
            now,
        );
        proof {
            assert(declared_extension(filename@, extension@));
            assert(declared_extension(source_path@, source_extension@));
        }
        r
    }
}

/// A stored thumbnail is found: after a thumbnail of an asset is stored, the lookup by
/// that asset gives it, described as a cached file, as long as it is not expired.
pub proof fn lemma_stored_thumbnail_is_found(
    before: DownloadCache,
    after: DownloadCache,
    put: (CachedThumbnail, bool),
    content: Seq<u8>,
    extension: Seq<char>,
    mime: Seq<char>,
    filename: Seq<char>,
    video_id: String,
    width: Option<u32>,
    height: Option<u32>,
    stored_at: u64,
    now: u64,
)
    requires
        after.is_thumbnail_put_of(
            before,
            put,
            content,
            extension,
            mime,
            filename,
            video_id,
            width,
            height,
            stored_at,
        ),
        !is_expired(now, stored_at, after.spec_ttl()),
    ensures
        thumbnail_hit(
            last_match(after.spec_thumbnails(), thumbnail_of(video_id@)),
            after.spec_blobs(),
            now,
            after.spec_ttl(),
        ) == Some(put.0),
{
    let rows = after.spec_thumbnails();
    let k = rows.len() - 1;
    assert(rows[k] == put.0);
    assert(is_last(rows, thumbnail_of(video_id@), k));
    lemma_last_match(rows, thumbnail_of(video_id@), k);
}

/// Storing the same thumbnail twice keeps one row and one stored file: the second put
/// gives the same content hash and, under the same extension, the same path, and its
/// bytes are not written again.
pub proof fn lemma_same_thumbnail_one_blob(
    before: DownloadCache,
    first: DownloadCache,
    second: DownloadCache,
    content: Seq<u8>,
    extension: Seq<char>,
    put_a: (CachedThumbnail, bool),
    put_b: (CachedThumbnail, bool),
    mime_a: Seq<char>,
    mime_b: Seq<char>,
    name_a: Seq<char>,
    name_b: Seq<char>,
    owner_a: String,
    owner_b: String,
    width_a: Option<u32>,
    width_b: Option<u32>,
    height_a: Option<u32>,
    height_b: Option<u32>,
    now_a: u64,
    now_b: u64,
)
    requires
        first.is_thumbnail_put_of(
            before,
            put_a,
            content,
            extension,
            mime_a,
            name_a,
            owner_a,
            width_a,
            height_a,
            now_a,
        ),
        second.is_thumbnail_put_of(
            first,
            put_b,
            content,
            extension,
            mime_b,
            name_b,
            owner_b,
            width_b,
            height_b,
            now_b,
        ),
    ensures
        put_a.0.id@ == put_b.0.id@,
        put_a.0.relative_path@ == put_b.0.relative_path@,
        !put_b.1,
        second.spec_blobs() == first.spec_blobs(),
        forall|j: int|
            0 <= j < second.spec_thumbnails().len() - 1 ==> (#[trigger] second.spec_thumbnails()[j]).id@
                != put_b.0.id@,
{
    let keep = |row: CachedThumbnail| !thumbnail_id_is(content_hash(content))(row);
    let kept = first.spec_thumbnails().filter(keep);
    assert forall|j: int| 0 <= j < second.spec_thumbnails().len() - 1 implies (
    #[trigger] second.spec_thumbnails()[j]).id@ != put_b.0.id@ by {
        first.spec_thumbnails().lemma_filter_pred(keep, j);
        assert(second.spec_thumbnails()[j] == kept[j]);
    }
}

/// The texts of `rows` whose mark is set, copied in order.
fn copy_marked(rows: &Vec<String>, marks: &Vec<bool>) -> (r: Vec<String>)
    requires
        marks@.len() == rows@.len(),
    ensures
        r@ == marked(rows@, marks@),
{
    let mut out: Vec<String> = Vec::new();
    let mut i: usize = 0;
    while i < rows.len()
        invariant
            i <= rows@.len(),
            marks@.len() == rows@.len(),
            out@ == marked(rows@.subrange(0, i as int), marks@),
        decreases rows@.len() - i,
    {
        proof {
            let next = rows@.subrange(0, i + 1);
            assert(next.drop_last() =~= rows@.subrange(0, i as int));
            assert(next.last() == rows@[i as int]);
        }
        if marks[i] {
            out.push(rows[i].clone());
        }
        i = i + 1;
    }
    assert(rows@.subrange(0, rows@.len() as int) =~= rows@);
    out
}

} // verus!
