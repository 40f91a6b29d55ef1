//! One download of one URL: its configuration and the segment plan derived from it.

use vstd::prelude::*;
use vstd::string::*;
use crate::error::Error;
use crate::resume::{
    bytes_with_mark, completed_bytes, fresh_marks, is_pending_list, lemma_marks_split_bytes,
    parse_sidecar, pending_segments, range_len, ranges_ordered, sidecar_marks, total_bytes,
};
use crate::segments::{
    covered_bytes, lemma_covered_prefix, lemma_segment_bounds, lemma_segment_count_is_ceiling,
    lemma_segments_contiguous, segment_count, segment_end, segment_len, segment_start,
};
use crate::text::{parse_u64, parse_unsigned};

verus! {

/// Bytes in one mebibyte.
pub const MIB: u64 = 1048576;

/// Default size of one segment: 5 MiB.
pub const DEFAULT_SEGMENT_SIZE: usize = 5242880;

/// Default number of segments in flight at once.
pub const DEFAULT_PARALLEL_SEGMENTS: usize = 4;

/// Default number of attempts per segment.
pub const DEFAULT_RETRY_ATTEMPTS: usize = 3;

/// Configuration of one download.
#[derive(Clone, Debug)]
pub struct Fetcher {
    url: String,
    parallel_segments: usize,
    segment_size: usize,
    retry_attempts: usize,
}

/// Upper bound on the segments in flight for a resource of `file_size` bytes,
/// by fixed size buckets in whole mebibytes.
pub open spec fn parallelism_bucket(file_size: nat) -> nat {
    let mib = file_size / 1048576;
    if mib < 10 {
        1
    } else if mib < 50 {
        2
    } else if mib < 100 {
        4
    } else if mib < 500 {
        8
    } else if mib < 1000 {
        12
    } else if mib < 2000 {
        16
    } else {
        24
    }
}

/// The smaller of two numbers.
pub open spec fn min_nat(a: nat, b: nat) -> nat {
    if a <= b {
        a
    } else {
        b
    }
}

/// Number of segments worth fetching at once: the segment count, capped by the size bucket.
pub open spec fn optimal_segments(file_size: nat, seg: nat) -> nat
    recommends
        seg > 0,
{
    min_nat(segment_count(file_size, seg), parallelism_bucket(file_size))
}

/// Whether `ranges` is the segment plan of `size` bytes in segments of `seg` bytes:
/// one inclusive range per segment, in order.
pub open spec fn is_segment_plan(ranges: Seq<(u64, u64)>, size: nat, seg: nat) -> bool {
    &&& ranges.len() == segment_count(size, seg)
    &&& forall|i: int|
        0 <= i < ranges.len() ==> (#[trigger] ranges[i]).0 == segment_start(i as nat, seg)
            && ranges[i].1 == segment_end(i as nat, size, seg)
}

/// Whether `ranges` cover `[0, size)` without gap or overlap: the first starts at 0,
/// each next one starts one byte after the one before ends, and the last ends at
/// `size - 1`. No range is empty.
pub open spec fn is_partition(ranges: Seq<(u64, u64)>, size: nat) -> bool {
    &&& ranges.len() == 0 <==> size == 0
    &&& forall|i: int| 0 <= i < ranges.len() ==> (#[trigger] ranges[i]).0 <= ranges[i].1
    &&& ranges.len() > 0 ==> ranges[0].0 == 0 && ranges[ranges.len() - 1].1 == size - 1
    &&& forall|i: int|
        0 <= i < ranges.len() - 1 ==> (#[trigger] ranges[i + 1]).0 == ranges[i].1 + 1
}

/// A segment plan covers the resource without gap or overlap, in segments of `seg`
/// bytes but for the last, which may be shorter.
pub proof fn lemma_plan_is_partition(ranges: Seq<(u64, u64)>, size: nat, seg: nat)
    requires
        seg > 0,
        is_segment_plan(ranges, size, seg),
    ensures
        is_partition(ranges, size),
        forall|i: int| 0 <= i < ranges.len() ==> range_len(#[trigger] ranges[i]) <= seg,
        forall|i: int| 0 <= i < ranges.len() - 1 ==> range_len(#[trigger] ranges[i]) == seg,
{
    lemma_segment_count_is_ceiling(size, seg);
    assert forall|i: int| 0 <= i < ranges.len() implies (#[trigger] ranges[i]).0 <= ranges[i].1
        && range_len(ranges[i]) <= seg by {
        lemma_segment_bounds(i as nat, size, seg);
    }
    assert forall|i: int| 0 <= i < ranges.len() - 1 implies (#[trigger] ranges[i + 1]).0
        == ranges[i].1 + 1 by {
        lemma_segments_contiguous(i as nat, size, seg);
        assert(ranges[i + 1].0 == segment_start((i + 1) as nat, seg));
        assert(ranges[i].1 == segment_end(i as nat, size, seg));
    }
    assert forall|i: int| 0 <= i < ranges.len() - 1 implies range_len(#[trigger] ranges[i])
        == seg by {
        lemma_segment_bounds(i as nat, size, seg);
    }
    if ranges.len() > 0 {
        let last = (ranges.len() - 1) as nat;
        lemma_segment_bounds(last, size, seg);
        assert(0 * seg == 0) by (nonlinear_arith);
        assert(ranges[0].0 == segment_start(0, seg));
        assert(ranges[last as int].1 == segment_end(last, size, seg));
        assert((last + 1) * seg >= size);
    }
}

/// `ceil(size / seg)`.
pub fn segments_needed(size: u64, seg: u64) -> (r: u64)
    requires
        seg > 0,
    ensures
        r == segment_count(size as nat, seg as nat),
{
    let q = size / seg;
    let m = size % seg;
    proof {
        let s = seg as int;
        let t = size as int + s - 1;
        assert(size as int == s * (q as int) + m as int) by {
            vstd::arithmetic::div_mod::lemma_fundamental_div_mod(size as int, s);
        }
        if m == 0 {
            assert(t == s * (q as int) + (s - 1));
            assert(t / s == q as int) by {
                vstd::arithmetic::div_mod::lemma_fundamental_div_mod_converse(
                    t,
                    s,
                    q as int,
                    s - 1,
                );
            }
        } else {
            assert(s * (q as int + 1) == s * (q as int) + s) by (nonlinear_arith);
            assert(t == s * (q as int + 1) + (m as int - 1));
            assert(t / s == q as int + 1) by {
                vstd::arithmetic::div_mod::lemma_fundamental_div_mod_converse(
                    t,
                    s,
                    q as int + 1,
                    m as int - 1,
                );
            }
            assert(q < u64::MAX) by {
                if q == u64::MAX {
                    assert(s * (q as int) >= q as int) by (nonlinear_arith)
                        requires
                            s >= 1,
                            q >= 0,
                    ;
                }
            }
        }
    }
    if m == 0 {
        q
    } else {
        q + 1
    }
}

impl Fetcher {
    /// The URL to download.
    pub closed spec fn spec_url(&self) -> Seq<char> {
        self.url@
    }

    /// The cap on segments in flight.
    pub closed spec fn spec_parallel_segments(&self) -> usize {
        self.parallel_segments
    }

    /// The size of one segment in bytes.
    pub closed spec fn spec_segment_size(&self) -> usize {
        self.segment_size
    }

    /// The attempts allowed per segment.
    pub closed spec fn spec_retry_attempts(&self) -> usize {
        self.retry_attempts
    }

    /// A fetcher for `url` with 4 parallel segments of 5 MiB and 3 attempts per segment.
    pub fn new(url: &str) -> (r: Fetcher)
        ensures
            r.spec_url() == url@,
            r.spec_parallel_segments() == DEFAULT_PARALLEL_SEGMENTS,
            r.spec_segment_size() == DEFAULT_SEGMENT_SIZE,
            r.spec_retry_attempts() == DEFAULT_RETRY_ATTEMPTS,
    {
        Fetcher {
            url: String::from_str(url),
            parallel_segments: DEFAULT_PARALLEL_SEGMENTS,
            segment_size: DEFAULT_SEGMENT_SIZE,
            retry_attempts: DEFAULT_RETRY_ATTEMPTS,
        }
    }

    /// A fetcher for a media stream at `url`: 8 parallel segments of 5 MiB and 3
    /// attempts per segment.
    pub fn for_stream(url: &str) -> (r: Fetcher)
        ensures
            r.spec_url() == url@,
            r.spec_parallel_segments() == 8,
            r.spec_segment_size() == DEFAULT_SEGMENT_SIZE,
            r.spec_retry_attempts() == DEFAULT_RETRY_ATTEMPTS,
    {
        Fetcher::new(url).with_parallel_segments(8).with_segment_size(
            DEFAULT_SEGMENT_SIZE,
        ).with_retry_attempts(DEFAULT_RETRY_ATTEMPTS)
    }

    /// Sets the cap on segments in flight.
    pub fn with_parallel_segments(self, segments: usize) -> (r: Fetcher)
        ensures
            r.spec_parallel_segments() == segments,
            r.spec_url() == self.spec_url(),
            r.spec_segment_size() == self.spec_segment_size(),
            r.spec_retry_attempts() == self.spec_retry_attempts(),
    {
        Fetcher {
            url: self.url,
            parallel_segments: segments,
            segment_size: self.segment_size,
            retry_attempts: self.retry_attempts,
        }
    }

    /// Sets the size of one segment in bytes.
    pub fn with_segment_size(self, size: usize) -> (r: Fetcher)
        ensures
            r.spec_segment_size() == size,
            r.spec_url() == self.spec_url(),
            r.spec_parallel_segments() == self.spec_parallel_segments(),
            r.spec_retry_attempts() == self.spec_retry_attempts(),
    {
        Fetcher {
            url: self.url,
            parallel_segments: self.parallel_segments,
            segment_size: size,
            retry_attempts: self.retry_attempts,
        }
    }

    /// Sets the attempts allowed per segment.
    pub fn with_retry_attempts(self, attempts: usize) -> (r: Fetcher)
        ensures
            r.spec_retry_attempts() == attempts,
            r.spec_url() == self.spec_url(),
            r.spec_parallel_segments() == self.spec_parallel_segments(),
            r.spec_segment_size() == self.spec_segment_size(),
    {
        Fetcher {
            url: self.url,
            parallel_segments: self.parallel_segments,
            segment_size: self.segment_size,
            retry_attempts: attempts,
        }
    }

    /// The URL to download.
    pub fn url(&self) -> (r: &str)
        ensures
            r@ == self.spec_url(),
    {
        self.url.as_str()
    }

    /// The cap on segments in flight.
    pub fn parallel_segments(&self) -> (r: usize)
        ensures
            r == self.spec_parallel_segments(),
    {
        self.parallel_segments
    }

    /// The size of one segment in bytes.
    pub fn segment_size(&self) -> (r: usize)
        ensures
            r == self.spec_segment_size(),
    {
        self.segment_size
    }

    /// The attempts allowed per segment.
    pub fn retry_attempts(&self) -> (r: usize)
        ensures
            r == self.spec_retry_attempts(),
    {
        self.retry_attempts
    }

    /// Number of segments worth fetching at once for a resource of `file_size` bytes.
    pub fn calculate_optimal_segments(&self, file_size: u64) -> (r: usize)
        requires
            self.spec_segment_size() > 0,
        ensures
            r == optimal_segments(file_size as nat, self.spec_segment_size() as nat),
            1 <= r <= 24 || (r == 0 && file_size == 0),
    {
        let total = segments_needed(file_size, self.segment_size as u64);
        let mib = file_size / MIB;
        let cap: usize = if mib < 10 {
            1
        } else if mib < 50 {
            2
        } else if mib < 100 {
            4
        } else if mib < 500 {
            8
        } else if mib < 1000 {
            12
        } else if mib < 2000 {
            16
        } else {
            24
        };
        proof {
            lemma_segment_count_is_ceiling(file_size as nat, self.segment_size as nat);
        }
        if total < cap as u64 {
            total as usize
        } else {
            cap
        }
    }
}

/// The inclusive byte ranges of all segments of a resource, in order.
pub fn segment_ranges(content_length: u64, segment_size: u64) -> (ranges: Vec<(u64, u64)>)
    requires
        segment_size > 0,
        segment_count(content_length as nat, segment_size as nat) <= usize::MAX,
    ensures
        is_segment_plan(ranges@, content_length as nat, segment_size as nat),
        ranges@.len() == segment_count(content_length as nat, segment_size as nat),
        is_partition(ranges@, content_length as nat),
        total_bytes(ranges@, ranges@.len()) == content_length,
{
    let count = segments_needed(content_length, segment_size);
    let mut ranges: Vec<(u64, u64)> = Vec::new();
    let mut i: u64 = 0;
    let ghost size = content_length as nat;
    let ghost seg = segment_size as nat;
    while i < count
        invariant
            segment_size > 0,
            size == content_length as nat,
            seg == segment_size as nat,
            count == segment_count(size, seg),
            count <= usize::MAX,
            i <= count,
            ranges@.len() == i,
            forall|k: int|
                0 <= k < i ==> (#[trigger] ranges@[k]).0 == segment_start(k as nat, seg)
                    && ranges@[k].1 == segment_end(k as nat, size, seg),
        decreases count - i,
    {
        proof {
            lemma_segment_bounds(i as nat, size, seg);
            assert((i + 1) * seg == i * seg + seg) by (nonlinear_arith);
        }
        let start = i * segment_size;
        let end = if content_length - start <= segment_size {
            content_length - 1
        } else {
            start + segment_size - 1
        };
        proof {
            if (i + 1) * seg == size {
                assert(end == segment_end(i as nat, size, seg));
            }
        }
        ranges.push((start, end));
        i = i + 1;
    }
    proof {
        lemma_plan_is_partition(ranges@, size, seg);
        lemma_plan_bytes(ranges@, size, seg, ranges@.len());
    }
    ranges
}

/// A segment plan holds ordered ranges whose sizes add up to the size of the resource.
pub proof fn lemma_plan_bytes(ranges: Seq<(u64, u64)>, size: nat, seg: nat, k: nat)
    requires
        seg > 0,
        is_segment_plan(ranges, size, seg),
        k <= ranges.len(),
    ensures
        ranges_ordered(ranges),
        total_bytes(ranges, k) == covered_bytes(k, size, seg),
        k == ranges.len() ==> total_bytes(ranges, k) == size,
    decreases k,
{
    assert forall|i: int| 0 <= i < ranges.len() implies (#[trigger] ranges[i]).0
        <= ranges[i].1 by {
        lemma_segment_bounds(i as nat, size, seg);
    }
    if k > 0 {
        lemma_plan_bytes(ranges, size, seg, (k - 1) as nat);
        lemma_segment_bounds((k - 1) as nat, size, seg);
        assert(range_len(ranges[k - 1]) == segment_len((k - 1) as nat, size, seg));
    }
    lemma_covered_prefix(k, size, seg);
}

/// What the server said about the resource before any byte was transferred.
#[derive(Debug)]
pub struct HeadInfo {
    /// Whether the response carries an accept-ranges indicator.
    pub accept_ranges: bool,
    /// The raw value of the content-length header, if there is one.
    pub content_length: Option<Vec<u8>>,
}

/// The segmented transfer of one resource, fixed before the first ranged request.
#[derive(Debug)]
pub struct SegmentedPlan {
    /// Size of the resource; the destination is extended to this size first.
    pub total_bytes: u64,
    /// Whether the destination exists and is reopened rather than created.
    pub resume_existing: bool,
    /// The inclusive byte range of every segment, in order.
    pub ranges: Vec<(u64, u64)>,
    /// For every segment, whether it is already complete.
    pub done: Vec<bool>,
    /// The segments to download, each with its index.
    pub pending: Vec<(usize, (u64, u64))>,
    /// Bytes already complete: the seed of the progress counter.
    pub initial_bytes: u64,
    /// Number of segments to keep in flight.
    pub parallel: usize,
}

/// How a download proceeds.
#[derive(Debug)]
pub enum FetchPlan {
    /// One streaming request: the server offers no ranges or no length.
    Simple,
    /// Nothing to do: the destination already has the size of the resource.
    AlreadyComplete,
    /// Parallel ranged requests.
    Segmented(SegmentedPlan),
}

/// The marks a download of `total` bytes starts from. A sidecar counts only beside a
/// destination that has the full size, as an interrupted download of the same resource
/// leaves it; beside a file of another size, or beside none, nothing is complete.
pub open spec fn resume_marks(
    n: nat,
    existing_size: Option<u64>,
    total: u64,
    sidecar: Option<Seq<u8>>,
) -> Seq<bool> {
    if existing_size == Some(total) && sidecar.is_some() {
        sidecar_marks(sidecar.unwrap(), n)
    } else {
        Seq::new(n, |i: int| false)
    }
}

/// The completion marks of `n` segments for a destination of `existing_size` bytes
/// (`None`: no destination yet) and a resource of `total` bytes.
pub fn resume_state(
    n: usize,
    existing_size: Option<u64>,
    total: u64,
    sidecar: Option<&[u8]>,
) -> (done: Vec<bool>)
    ensures
        done@ == resume_marks(
            n as nat,
            existing_size,
            total,
            match sidecar {
                Some(text) => Some(text@),
                None => None,
            },
        ),
{
    let sized = match existing_size {
        Some(size) => size == total,
        None => false,
    };
    match sidecar {
        Some(text) => {
            if sized {
                return parse_sidecar(text, n);
            }
        },
        None => {},
    }
    let done = fresh_marks(n);
    assert(done@ =~= Seq::new(n as nat, |i: int| false));
    done
}

impl SegmentedPlan {
    /// Whether the plan is the one for these inputs.
    pub open spec fn is_plan_for(
        &self,
        fetcher: &Fetcher,
        existing_size: Option<u64>,
        total: u64,
        sidecar: Option<Seq<u8>>,
    ) -> bool {
        let seg = fetcher.spec_segment_size() as nat;
        &&& self.total_bytes == total
        &&& self.resume_existing == existing_size.is_some()
        &&& is_segment_plan(self.ranges@, total as nat, seg)
        &&& self.done@ == resume_marks(self.ranges@.len(), existing_size, total, sidecar)
        &&& is_pending_list(self.pending@, self.ranges@, self.done@)
        &&& self.initial_bytes == bytes_with_mark(
            self.ranges@,
            self.done@,
            true,
            self.ranges@.len(),
        )
        &&& self.parallel == min_nat(
            min_nat(fetcher.spec_parallel_segments() as nat, optimal_segments(total as nat, seg)),
            self.pending@.len(),
        )
    }
}

impl Fetcher {
    /// Plans the segmented transfer of a resource of `total` bytes.
    pub fn plan_segments(
        &self,
        total: u64,
        existing_size: Option<u64>,
        sidecar: Option<&[u8]>,
    ) -> (plan: SegmentedPlan)
        requires
            self.spec_segment_size() > 0,
            segment_count(total as nat, self.spec_segment_size() as nat) <= usize::MAX,
        ensures
            plan.is_plan_for(
                self,
                existing_size,
                total,
                match sidecar {
                    Some(text) => Some(text@),
                    None => None,
                },
            ),
            plan.initial_bytes <= total,
    {
        let ranges = segment_ranges(total, self.segment_size as u64);
        let done = resume_state(ranges.len(), existing_size, total, sidecar);
        proof {
            lemma_plan_bytes(
                ranges@,
                total as nat,
                self.segment_size as nat,
                ranges@.len(),
            );
            lemma_marks_split_bytes(ranges@, done@, ranges@.len());
        }
        let pending = pending_segments(&ranges, &done);
        let initial_bytes = completed_bytes(&ranges, &done);
        let optimal = self.calculate_optimal_segments(total);
        let capped = if self.parallel_segments < optimal {
            self.parallel_segments
        } else {
            optimal
        };
        let parallel = if capped < pending.len() {
            capped
        } else {
            pending.len()
        };
        SegmentedPlan {
            total_bytes: total,
            resume_existing: existing_size.is_some(),
            ranges,
            done,
            pending,
            initial_bytes,
            parallel,
        }
    }

    /// Decides how to download, from the server's answer to the first request, the size
    /// of the destination if it exists, and the text of the sidecar if there is one.
    ///
    /// Without an accept-ranges indicator or without a content length the download is
    /// simple. A content length that is no number is an error. A destination that has
    /// the full size and no sidecar beside it is complete. A destination of full size
    /// with a sidecar was left by an interrupted download: it is resumed, and the
    /// segments that the sidecar records are not downloaded again. Everything else is
    /// a segmented transfer from nothing, unless the resource needs more segments than
    /// this machine can index.
    pub fn plan_fetch(
        &self,
        head: &HeadInfo,
        existing_size: Option<u64>,
        sidecar: Option<&[u8]>,
    ) -> (r: Result<FetchPlan, Error>)
        requires
            plans_segments(*head, existing_size, sidecar.is_some()) ==> self.spec_segment_size()
                > 0,
        ensures
            (!head.accept_ranges || head.content_length.is_none()) ==> r matches Ok(
                FetchPlan::Simple,
            ),
            head.accept_ranges && head.content_length.is_some() ==> {
                let seg = self.spec_segment_size() as nat;
                match parse_unsigned(head.content_length.unwrap()@, u64::MAX as nat) {
                    None => r matches Err(Error::Unknown(_)),
                    Some(total) => if is_complete(existing_size, total as u64, sidecar.is_some()) {
                        r matches Ok(FetchPlan::AlreadyComplete)
                    } else if segment_count(total, seg) > usize::MAX {
                        r matches Err(Error::Unknown(_))
                    } else {
                        r matches Ok(FetchPlan::Segmented(plan)) && plan.is_plan_for(
                            self,
                            existing_size,
                            total as u64,
                            match sidecar {
                                Some(text) => Some(text@),
                                None => None,
                            },
                        )
                    },
                }
            },
    {
        if !head.accept_ranges {
            return Ok(FetchPlan::Simple);
        }
        let total = match &head.content_length {
            None => {
                return Ok(FetchPlan::Simple);
            },
            Some(value) => match parse_u64(value.as_slice()) {
                Some(total) => total,
                None => {
                    return Err(
                        Error::Unknown(String::from_str("invalid content length")),
                    );
                },
            },
        };
        if destination_complete(existing_size, total, sidecar.is_some()) {
            return Ok(FetchPlan::AlreadyComplete);
        }
        let count = segments_needed(total, self.segment_size as u64);
        if count > usize::MAX as u64 {
            return Err(Error::Unknown(String::from_str("too many segments")));
        }
        Ok(FetchPlan::Segmented(self.plan_segments(total, existing_size, sidecar)))
    }
}

/// Whether a destination of `existing_size` bytes is the whole resource of `total`
/// bytes: it has the full size and no sidecar stands beside it. A sidecar marks a
/// download that did not finish, whatever the size of the file.
pub open spec fn is_complete(existing_size: Option<u64>, total: u64, has_sidecar: bool) -> bool {
    existing_size == Some(total) && !has_sidecar
}

/// Whether the destination is the whole resource already.
pub fn destination_complete(existing_size: Option<u64>, total: u64, has_sidecar: bool) -> (r: bool)
    ensures
        r == is_complete(existing_size, total, has_sidecar),
{
    match existing_size {
        Some(size) => size == total && !has_sidecar,
        None => false,
    }
}

/// Whether the download divides the resource into segments: the server offers ranges
/// and a length that is a number, and the destination is not complete yet.
pub open spec fn plans_segments(head: HeadInfo, existing_size: Option<u64>, has_sidecar: bool) -> bool {
    head.accept_ranges && head.content_length.is_some() && match parse_unsigned(
        head.content_length.unwrap()@,
        u64::MAX as nat,
    ) {
        Some(total) => !is_complete(existing_size, total as u64, has_sidecar),
        None => false,
    }
}

/// Whether the download divides the resource into segments, and so needs a segment
/// size above zero.
pub fn needs_segments(head: &HeadInfo, existing_size: Option<u64>, has_sidecar: bool) -> (r: bool)
    ensures
        r == plans_segments(*head, existing_size, has_sidecar),
{
    if !head.accept_ranges {
        return false;
    }
    match &head.content_length {
        None => false,
        Some(value) => match parse_u64(value.as_slice()) {
            Some(total) => !destination_complete(existing_size, total, has_sidecar),
            None => false,
        },
    }
}

} // verus!
