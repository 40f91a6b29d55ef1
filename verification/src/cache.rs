//! The metadata cache: asset metadata by source URL, valid for a time to live.

use vstd::prelude::*;
use vstd::string::*;
use crate::error::Error;
use crate::table::{
    delete_marked, distinct_by, first_match, is_first, lemma_filter_keeps_distinct,
    lemma_first_match, lemma_no_match, lemma_push_keeps_distinct, lemma_unmarked_is_filter,
};

verus! {

/// Default time to live of cached metadata, in seconds: 24 hours.
pub const DEFAULT_VIDEO_TTL: u64 = 86400;

/// Whether an entry stamped `cached_at` is expired at time `now` under a time to live
/// of `ttl` seconds: its age exceeds `ttl`. Reading an entry does not renew it.
pub open spec fn is_expired(now: u64, cached_at: u64, ttl: u64) -> bool {
    now - cached_at > ttl
}

/// Whether an entry stamped `cached_at` is expired at time `now`.
pub fn expired(now: u64, cached_at: u64, ttl: u64) -> (r: bool)
    ensures
        r == is_expired(now, cached_at, ttl),
{
    now > cached_at && now - cached_at > ttl
}

/// An entry stamped `t0` is valid up to and including `t0 + ttl` and expired from then
/// on: one second before the end it is a hit, one second after it a miss.
pub proof fn lemma_ttl_window(t0: u64, ttl: u64, now: u64)
    ensures
        is_expired(now, t0, ttl) <==> now > t0 + ttl,
        now == t0 + ttl - 1 ==> !is_expired(now, t0, ttl),
        now == t0 + ttl + 1 ==> is_expired(now, t0, ttl),
{
}

/// The sweep deletes what a read misses: an entry stamped before `now - ttl` is expired.
pub proof fn lemma_sweep_matches_read(now: u64, cached_at: u64, ttl: u64)
    ensures
        cached_at < now - ttl <==> is_expired(now, cached_at, ttl),
{
}

/// Metadata of one asset as the cache holds it.
#[derive(Debug)]
pub struct CachedVideo {
    /// The asset's id.
    pub id: String,
    /// The asset's title.
    pub title: String,
    /// The URL the metadata was fetched from.
    pub url: String,
    /// The metadata, serialised.
    pub video_json: String,
    /// When the entry was stored, in seconds since the epoch.
    pub cached_at: u64,
}

impl CachedVideo {
    /// A copy of the entry.
    pub fn duplicate(&self) -> (r: CachedVideo)
        ensures
            r == *self,
    {
        CachedVideo {
            id: self.id.clone(),
            title: self.title.clone(),
            url: self.url.clone(),
            video_json: self.video_json.clone(),
            cached_at: self.cached_at,
        }
    }
}

/// The id of an entry.
pub open spec fn video_key() -> spec_fn(CachedVideo) -> Seq<char> {
    |row: CachedVideo| row.id@
}

/// The condition "fetched from `url`".
pub open spec fn url_is(url: Seq<char>) -> spec_fn(CachedVideo) -> bool {
    |row: CachedVideo| row.url@ == url
}

/// The condition "has the id `id`".
pub open spec fn video_id_is(id: Seq<char>) -> spec_fn(CachedVideo) -> bool {
    |row: CachedVideo| row.id@ == id
}

/// The condition "expired at `now` under `ttl`".
pub open spec fn video_expired(now: u64, ttl: u64) -> spec_fn(CachedVideo) -> bool {
    |row: CachedVideo| is_expired(now, row.cached_at, ttl)
}

/// What a read by URL gives: the first entry fetched from that URL, unless it is expired.
pub open spec fn fresh_video(rows: Seq<CachedVideo>, url: Seq<char>, now: u64, ttl: u64) -> Option<
    CachedVideo,
> {
    match first_match(rows, url_is(url)) {
        Some(row) => if is_expired(now, row.cached_at, ttl) {
            None
        } else {
            Some(row)
        },
        None => None,
    }
}

/// The entries after one is stored: an entry with the same id makes way, and the new
/// entry is the youngest.
pub open spec fn rows_after_put(rows: Seq<CachedVideo>, entry: CachedVideo) -> Seq<CachedVideo> {
    rows.filter(|row: CachedVideo| !video_id_is(entry.id@)(row)).push(entry)
}

/// A stored entry is found by its id, and no other entry has that id.
pub proof fn lemma_put_is_found(rows: Seq<CachedVideo>, entry: CachedVideo)
    ensures
        first_match(rows_after_put(rows, entry), video_id_is(entry.id@)) == Some(entry),
        forall|j: int|
            0 <= j < rows_after_put(rows, entry).len() - 1 ==> (#[trigger] rows_after_put(
                rows,
                entry,
            )[j]).id@ != entry.id@,
{
    let keep = |row: CachedVideo| !video_id_is(entry.id@)(row);
    let kept = rows.filter(keep);
    let after = rows_after_put(rows, entry);
    assert forall|j: int| 0 <= j < kept.len() implies !video_id_is(entry.id@)(
        #[trigger] after[j],
    ) by {
        rows.lemma_filter_pred(keep, j);
        assert(after[j] == kept[j]);
    }
    assert(after[kept.len() as int] == entry);
    assert(is_first(after, video_id_is(entry.id@), kept.len() as int));
    lemma_first_match(after, video_id_is(entry.id@), kept.len() as int);
}

/// Time to live of a stored entry: where no other asset was fetched from the same URL,
/// a read by that URL gives the stored entry up to `ttl` seconds after it was stored,
/// and nothing from then on.
pub proof fn lemma_put_then_get(rows: Seq<CachedVideo>, entry: CachedVideo, now: u64, ttl: u64)
    requires
        forall|j: int|
            0 <= j < rows.len() && (#[trigger] rows[j]).url@ == entry.url@ ==> rows[j].id@
                == entry.id@,
    ensures
        now <= entry.cached_at + ttl ==> fresh_video(
            rows_after_put(rows, entry),
            entry.url@,
            now,
            ttl,
        ) == Some(entry),
        now > entry.cached_at + ttl ==> fresh_video(
            rows_after_put(rows, entry),
            entry.url@,
            now,
            ttl,
        ).is_none(),
{
    let keep = |row: CachedVideo| !video_id_is(entry.id@)(row);
    let kept = rows.filter(keep);
    let after = rows_after_put(rows, entry);
    assert forall|j: int| 0 <= j < kept.len() implies !url_is(entry.url@)(#[trigger] after[j]) by {
        rows.lemma_filter_pred(keep, j);
        assert(after[j] == kept[j]);
        assert(kept.contains(kept[j]));
        rows.lemma_filter_contains_rev(keep, kept[j]);
        let m = choose|m: int| 0 <= m < rows.len() && rows[m] == kept[j];
        assert(rows[m].id@ != entry.id@);
    }
    assert(after[kept.len() as int] == entry);
    assert(is_first(after, url_is(entry.url@), kept.len() as int));
    lemma_first_match(after, url_is(entry.url@), kept.len() as int);
}

/// Text of the error for an id that the cache does not hold.
pub open spec fn not_found_text(id: Seq<char>) -> Seq<char> {
    "Video with ID "@ + id + " not found in cache"@
}

/// Text of the error for an id whose entry is expired.
pub open spec fn expired_text(id: Seq<char>) -> Seq<char> {
    "Video with ID "@ + id + " has expired in cache"@
}

/// Cache of asset metadata with a time to live.
pub struct VideoCache {
    rows: Vec<CachedVideo>,
    ttl: u64,
}

impl VideoCache {
    /// The entries, oldest first.
    pub closed spec fn spec_rows(&self) -> Seq<CachedVideo> {
        self.rows@
    }

    /// The time to live in seconds.
    pub closed spec fn spec_ttl(&self) -> u64 {
        self.ttl
    }

    /// The cache is consistent: no two entries have the same id.
    pub open spec fn wf(&self) -> bool {
        distinct_by(self.spec_rows(), video_key())
    }

    /// An empty cache with the given time to live, 24 hours by default.
    pub fn new(ttl: Option<u64>) -> (r: VideoCache)
        ensures
            r.wf(),
            r.spec_rows().len() == 0,
            r.spec_ttl() == match ttl {
                Some(t) => t,
                None => DEFAULT_VIDEO_TTL,
            },
    {
        VideoCache {
            rows: Vec::new(),
            ttl: match ttl {
                Some(t) => t,
                None => DEFAULT_VIDEO_TTL,
            },
        }
    }

    /// A cache that holds the given entries, oldest first.
    pub fn restore(rows: Vec<CachedVideo>, ttl: u64) -> (r: VideoCache)
        ensures
            r.spec_rows() == rows@,
            r.spec_ttl() == ttl,
    {
        VideoCache { rows, ttl }
    }

    /// The time to live in seconds.
    pub fn ttl(&self) -> (r: u64)
        ensures
            r == self.spec_ttl(),
    {
        self.ttl
    }

    /// Number of entries held, expired ones included.
    pub fn len(&self) -> (r: usize)
        ensures
            r == self.spec_rows().len(),
    {
        self.rows.len()
    }

    /// The entry at position `i`.
    pub fn row(&self, i: usize) -> (r: &CachedVideo)
        requires
            i < self.spec_rows().len(),
        ensures
            *r == self.spec_rows()[i as int],
    {
        &self.rows[i]
    }

    fn find_by_url(&self, url: &str) -> (r: Option<usize>)
        ensures
            match r {
                Some(k) => is_first(self.spec_rows(), url_is(url@), k as int),
                None => forall|j: int|
                    0 <= j < self.spec_rows().len() ==> !url_is(url@)(#[trigger] self.spec_rows()[j]),
            },
    {
        let mut k: usize = 0;
        while k < self.rows.len()
            invariant
                k <= self.rows@.len(),
                forall|j: int| 0 <= j < k ==> !url_is(url@)(#[trigger] self.rows@[j]),
            decreases self.rows@.len() - k,
        {
            if crate::text::str_eq(self.rows[k].url.as_str(), url) {
                return Some(k);
            }
            k = k + 1;
        }
        None
    }

    fn find_by_id(&self, id: &str) -> (r: Option<usize>)
        ensures
            match r {
                Some(k) => is_first(self.spec_rows(), video_id_is(id@), k as int),
                None => forall|j: int|
                    0 <= j < self.spec_rows().len() ==> !video_id_is(id@)(
                        #[trigger] self.spec_rows()[j],
                    ),
            },
    {
        let mut k: usize = 0;
        while k < self.rows.len()
            invariant
                k <= self.rows@.len(),
                forall|j: int| 0 <= j < k ==> !video_id_is(id@)(#[trigger] self.rows@[j]),
            decreases self.rows@.len() - k,
        {
            if crate::text::str_eq(self.rows[k].id.as_str(), id) {
                return Some(k);
            }
            k = k + 1;
        }
        None
    }

    /// Reads the metadata fetched from `url` at time `now`: a miss if there is none or
    /// if it is expired.
    pub fn get(&self, url: &str, now: u64) -> (r: Option<CachedVideo>)
        ensures
            r == fresh_video(self.spec_rows(), url@, now, self.spec_ttl()),
    {
        match self.find_by_url(url) {
            None => {
                proof {
                    lemma_no_match(self.rows@, url_is(url@));
                }
                None
            },
            Some(k) => {
                proof {
                    lemma_first_match(self.rows@, url_is(url@), k as int);
                }
                if expired(now, self.rows[k].cached_at, self.ttl) {
                    None
                } else {
                    Some(self.rows[k].duplicate())
                }
            },
        }
    }

    /// Looks an entry up by the asset's id at time `now`, and tells an unknown id from
    /// an expired entry.
    pub fn get_by_id(&self, id: &str, now: u64) -> (r: Result<CachedVideo, Error>)
        ensures
            match first_match(self.spec_rows(), video_id_is(id@)) {
                None => r matches Err(Error::FormatNotFound(text)) && text@ == not_found_text(id@),
                Some(row) => if is_expired(now, row.cached_at, self.spec_ttl()) {
                    r matches Err(Error::FormatNotFound(text)) && text@ == expired_text(id@)
                } else {
                    r == Ok::<CachedVideo, Error>(row)
                },
            },
    {
        match self.find_by_id(id) {
            None => {
                proof {
                    lemma_no_match(self.rows@, video_id_is(id@));
                }
                Err(
                    Error::FormatNotFound(
                        String::from_str("Video with ID ").concat(id).concat(" not found in cache"),
                    ),
                )
            },
            Some(k) => {
                proof {
                    lemma_first_match(self.rows@, video_id_is(id@), k as int);
                }
                if expired(now, self.rows[k].cached_at, self.ttl) {
                    Err(
                        Error::FormatNotFound(
                            String::from_str("Video with ID ").concat(id).concat(
                                " has expired in cache",
                            ),
                        ),
                    )
                } else {
                    Ok(self.rows[k].duplicate())
                }
            },
        }
    }

    fn delete_where_id(&mut self, id: &str)
        ensures
            final(self).spec_ttl() == old(self).spec_ttl(),
            final(self).spec_rows() == old(self).spec_rows().filter(
                |row: CachedVideo| !video_id_is(id@)(row),
            ),
    {
        let mut marks: Vec<bool> = Vec::new();
        let mut k: usize = 0;
        while k < self.rows.len()
            invariant
                k <= self.rows@.len(),
                marks@.len() == k,
                forall|j: int| 0 <= j < k ==> marks@[j] == video_id_is(id@)(#[trigger] self.rows@[j]),
            decreases self.rows@.len() - k,
        {
            marks.push(crate::text::str_eq(self.rows[k].id.as_str(), id));
            k = k + 1;
        }
        proof {
            lemma_unmarked_is_filter(self.rows@, marks@, video_id_is(id@));
        }
        delete_marked(&mut self.rows, &marks);
    }

    /// Stores metadata at time `now`. An entry with the same id is replaced; the new
    /// entry is the youngest.
    pub fn put(&mut self, url: String, id: String, title: String, video_json: String, now: u64)
        requires
            old(self).spec_rows().len() < usize::MAX,
        ensures
            final(self).spec_ttl() == old(self).spec_ttl(),
            final(self).spec_rows() == rows_after_put(
                old(self).spec_rows(),
                CachedVideo { id, title, url, video_json, cached_at: now },
            ),
            old(self).wf() ==> final(self).wf(),
    {
        self.delete_where_id(id.as_str());
        let entry = CachedVideo { id, title, url, video_json, cached_at: now };
        proof {
            let keep = |row: CachedVideo| !video_id_is(entry.id@)(row);
            let before = old(self).spec_rows();
            before.lemma_filter_len(keep);
            if old(self).wf() {
                lemma_filter_keeps_distinct(before, video_key(), keep);
                assert forall|i: int| 0 <= i < self.rows@.len() implies video_key()(
                    #[trigger] self.rows@[i],
                ) != video_key()(entry) by {
                    before.lemma_filter_pred(keep, i);
                }
                lemma_push_keeps_distinct(self.rows@, video_key(), entry);
            }
        }
        self.rows.push(entry);
    }

    /// Deletes every entry fetched from `url`.
    pub fn remove(&mut self, url: &str)
        ensures
            final(self).spec_ttl() == old(self).spec_ttl(),
            final(self).spec_rows() == old(self).spec_rows().filter(
                |row: CachedVideo| !url_is(url@)(row),
            ),
            old(self).wf() ==> final(self).wf(),
    {
        let mut marks: Vec<bool> = Vec::new();
        let mut k: usize = 0;
        while k < self.rows.len()
            invariant
                k <= self.rows@.len(),
                marks@.len() == k,
                forall|j: int| 0 <= j < k ==> marks@[j] == url_is(url@)(#[trigger] self.rows@[j]),
            decreases self.rows@.len() - k,
        {
            marks.push(crate::text::str_eq(self.rows[k].url.as_str(), url));
            k = k + 1;
        }
        proof {
            lemma_unmarked_is_filter(self.rows@, marks@, url_is(url@));
            if old(self).wf() {
                lemma_filter_keeps_distinct(
                    self.rows@,
                    video_key(),
                    |row: CachedVideo| !url_is(url@)(row),
                );
            }
        }
        delete_marked(&mut self.rows, &marks);
    }

    /// Deletes every entry that is expired at time `now`.
    pub fn clean(&mut self, now: u64)
        ensures
            final(self).spec_ttl() == old(self).spec_ttl(),
            final(self).spec_rows() == old(self).spec_rows().filter(
                |row: CachedVideo| !video_expired(now, old(self).spec_ttl())(row),
            ),
            old(self).wf() ==> final(self).wf(),
    {
        let mut marks: Vec<bool> = Vec::new();
        let mut k: usize = 0;
        while k < self.rows.len()
            invariant
                k <= self.rows@.len(),
                marks@.len() == k,
                forall|j: int|
                    0 <= j < k ==> marks@[j] == video_expired(now, self.ttl)(#[trigger] self.rows@[j]),
            decreases self.rows@.len() - k,
        {
            marks.push(expired(now, self.rows[k].cached_at, self.ttl));
            k = k + 1;
        }
        proof {
            lemma_unmarked_is_filter(self.rows@, marks@, video_expired(now, self.ttl));
            if old(self).wf() {
                lemma_filter_keeps_distinct(
                    self.rows@,
                    video_key(),
                    |row: CachedVideo| !video_expired(now, self.ttl)(row),
                );
            }
        }
        delete_marked(&mut self.rows, &marks);
    }
}

} // verus!
