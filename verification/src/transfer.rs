//! Decisions taken while bytes move: request headers, retries with backoff,
//! progress accounting, and the single-stream fallback.

use vstd::prelude::*;
use vstd::string::*;
use crate::error::Error;
use crate::resume::record_line;
use crate::text::{ascii_bytes, decimal, lemma_decimal_is_ascii, u64_to_decimal};

verus! {

/// Delay before the first retry, in milliseconds.
pub const BASE_DELAY_MS: u64 = 250;

/// Buffered bytes at which the single-stream download writes to disk: 1 MiB.
pub const FLUSH_THRESHOLD: usize = 1048576;

/// Length of the sample read to guess whether a segment is already on disk.
pub const PROBE_BYTES: u64 = 1024;

/// Status of a response that carries the whole resource.
pub const STATUS_OK: u16 = 200;

/// Status of a response that carries the requested range only.
pub const STATUS_PARTIAL_CONTENT: u16 = 206;

/// `2^n`.
pub open spec fn pow2(n: nat) -> nat
    decreases n,
{
    if n == 0 {
        1
    } else {
        2 * pow2((n - 1) as nat)
    }
}

/// Delay in milliseconds after failed attempt number `attempt` (from 0): the base
/// delay doubled once per earlier attempt.
pub open spec fn backoff_delay(attempt: nat) -> nat {
    250 * pow2(attempt)
}

/// Powers of two grow.
pub proof fn lemma_pow2_monotone(a: nat, b: nat)
    requires
        a <= b,
    ensures
        1 <= pow2(a) <= pow2(b),
    decreases b,
{
    if a < b {
        lemma_pow2_monotone(a, (b - 1) as nat);
    } else if b > 0 {
        lemma_pow2_monotone((a - 1) as nat, (b - 1) as nat);
    }
}

/// The delay before retrying after failed attempt `attempt`, in milliseconds; the
/// largest `u64` where the true delay no longer fits.
pub fn backoff_delay_ms(attempt: usize) -> (r: u64)
    ensures
        backoff_delay(attempt as nat) <= u64::MAX ==> r == backoff_delay(attempt as nat),
        backoff_delay(attempt as nat) > u64::MAX ==> r == u64::MAX,
{
    let mut delay: u64 = BASE_DELAY_MS;
    let mut k: usize = 0;
    while k < attempt
        invariant
            k <= attempt,
            delay == backoff_delay(k as nat),
        decreases attempt - k,
    {
        if delay > u64::MAX / 2 {
            proof {
                lemma_pow2_monotone((k + 1) as nat, attempt as nat);
                assert(250 * pow2((k + 1) as nat) <= 250 * pow2(attempt as nat))
                    by (nonlinear_arith)
                    requires
                        pow2((k + 1) as nat) <= pow2(attempt as nat),
                ;
            }
            return u64::MAX;
        }
        delay = delay * 2;
        k = k + 1;
    }
    delay
}

/// What follows a failed attempt at a segment.
#[derive(Clone, Copy, Debug, PartialEq, Eq, Structural)]
pub enum RetryStep {
    /// Wait `delay_ms`, then make attempt number `attempt`.
    RetryAfter { delay_ms: u64, attempt: usize },
    /// The attempts are used up: the whole download fails.
    GiveUp,
}

/// The first attempt at a segment: attempt 0, or none where no attempt is allowed.
pub fn first_attempt(retry_attempts: usize) -> (r: Option<usize>)
    ensures
        retry_attempts == 0 ==> r.is_none(),
        retry_attempts > 0 ==> r == Some(0usize),
{
    if retry_attempts == 0 {
        None
    } else {
        Some(0)
    }
}

/// Decides what follows the failure of attempt number `attempt` (from 0) when
/// `retry_attempts` attempts are allowed in all.
pub fn after_failure(attempt: usize, retry_attempts: usize) -> (r: RetryStep)
    requires
        attempt < retry_attempts,
    ensures
        attempt + 1 < retry_attempts ==> r == (RetryStep::RetryAfter {
            delay_ms: if backoff_delay(attempt as nat) <= u64::MAX {
                backoff_delay(attempt as nat) as u64
            } else {
                u64::MAX
            },
            attempt: (attempt + 1) as usize,
        }),
        attempt + 1 == retry_attempts ==> r == RetryStep::GiveUp,
{
    if attempt < retry_attempts - 1 {
        RetryStep::RetryAfter { delay_ms: backoff_delay_ms(attempt), attempt: attempt + 1 }
    } else {
        RetryStep::GiveUp
    }
}

/// Whether attempt `k` is the first that succeeds.
pub open spec fn first_success(outcomes: Seq<bool>, k: int) -> bool {
    &&& 0 <= k < outcomes.len()
    &&& outcomes[k]
    &&& forall|j: int| 0 <= j < k ==> !outcomes[j]
}

/// What the attempts at a segment come to.
#[derive(Clone, Copy, Debug, PartialEq, Eq, Structural)]
pub struct Attempts {
    /// Whether an attempt succeeded before the attempts were used up.
    pub succeeded: bool,
    /// Number of attempts made.
    pub made: usize,
}

/// Plays the retry decisions through, given how each attempt would end: a segment
/// succeeds exactly if one of the first `retry_attempts` attempts does, it is never
/// attempted again after a success, and never more often than `retry_attempts` times.
pub fn replay_attempts(outcomes: &Vec<bool>, retry_attempts: usize) -> (r: Attempts)
    requires
        outcomes@.len() >= retry_attempts,
    ensures
        r.succeeded <==> exists|k: int| k < retry_attempts && first_success(outcomes@, k),
        r.succeeded ==> first_success(outcomes@, r.made - 1),
        !r.succeeded ==> r.made == retry_attempts,
        r.made <= retry_attempts,
{
    let mut attempt = match first_attempt(retry_attempts) {
        Some(attempt) => attempt,
        None => {
            return Attempts { succeeded: false, made: 0 };
        },
    };
    loop
        invariant
            attempt < retry_attempts <= outcomes@.len(),
            forall|j: int| 0 <= j < attempt ==> !outcomes@[j],
        decreases retry_attempts - attempt,
    {
        if outcomes[attempt] {
            assert(first_success(outcomes@, attempt as int));
            return Attempts { succeeded: true, made: attempt + 1 };
        }
        match after_failure(attempt, retry_attempts) {
            RetryStep::RetryAfter { attempt: next, .. } => {
                attempt = next;
            },
            RetryStep::GiveUp => {
                assert forall|k: int| k < retry_attempts implies !first_success(outcomes@, k) by {}
                return Attempts { succeeded: false, made: attempt + 1 };
            },
        }
    }
}

/// Text of the error for a segment whose attempts are used up.
pub open spec fn exhausted_text(retry_attempts: nat, cause: Option<Error>) -> Seq<char> {
    let head = "Failed to download segment after "@ + decimal(retry_attempts) + " attempts"@;
    match cause {
        Some(e) => head + ": "@ + e.spec_message(),
        None => head,
    }
}

/// The error for a segment whose attempts are used up: it names the number of
/// attempts and the last cause, if any attempt was made.
pub fn exhausted_error(retry_attempts: usize, cause: Option<&Error>) -> (r: Error)
    ensures
        r matches Error::Unknown(text) && text@ == exhausted_text(
            retry_attempts as nat,
            match cause {
                Some(e) => Some(*e),
                None => None,
            },
        ),
{
    let n = u64_to_decimal(retry_attempts as u64);
    let head = String::from_str("Failed to download segment after ").concat(n.as_str()).concat(
        " attempts",
    );
    match cause {
        Some(e) => {
            let why = e.message();
            Error::Unknown(head.concat(": ").concat(why.as_str()))
        },
        None => Error::Unknown(head),
    }
}

/// The range header value for the inclusive byte range `start..=end`.
pub fn range_header(start: u64, end: u64) -> (r: String)
    ensures
        r@ == "bytes="@ + decimal(start as nat) + "-"@ + decimal(end as nat),
{
    let a = u64_to_decimal(start);
    let b = u64_to_decimal(end);
    String::from_str("bytes=").concat(a.as_str()).concat("-").concat(b.as_str())
}

/// The range header value that asks for everything after the bytes already on disk;
/// none for a destination that is absent or empty.
pub fn resume_range_header(existing_size: Option<u64>) -> (r: Option<String>)
    ensures
        match existing_size {
            Some(size) if size > 0 => r.is_some() && r.unwrap()@ == "bytes="@ + decimal(
                size as nat,
            ) + "-"@,
            _ => r.is_none(),
        },
{
    match existing_size {
        Some(size) => {
            if size > 0 {
                let a = u64_to_decimal(size);
                Some(String::from_str("bytes=").concat(a.as_str()).concat("-"))
            } else {
                None
            }
        },
        None => None,
    }
}

/// The authorization header value for a bearer token.
pub fn bearer_header(token: &str) -> (r: String)
    ensures
        r@ == "Bearer "@ + token@,
{
    String::from_str("Bearer ").concat(token)
}

/// Path of the sidecar that belongs to `destination`.
pub fn sidecar_path(destination: &str) -> (r: String)
    ensures
        r@ == destination@ + ".parts"@,
{
    String::from_str(destination).concat(".parts")
}

/// The sidecar line that records segment `index` as complete: the index in decimal and
/// a line feed. Its bytes are the line that the reader of the sidecar takes for `index`.
pub fn sidecar_line(index: usize) -> (r: String)
    ensures
        r@ == decimal(index as nat) + "\n"@,
        vstd::utf8::encode_utf8(r@) == record_line(index as nat),
{
    let r = u64_to_decimal(index as u64).concat("\n");
    proof {
        reveal_strlit("\n");
        lemma_decimal_is_ascii(index as nat);
        let digits = decimal(index as nat);
        assert(r@ =~= digits.push('\n'));
        assert(vstd::utf8::is_ascii_chars(r@)) by {
            assert forall|i: int| 0 <= i < r@.len() implies '\0' <= #[trigger] r@[i] <= '\u{7f}' by {
                if i < digits.len() {
                    assert(r@[i] == digits[i]);
                }
            }
        }
        vstd::utf8::is_ascii_chars_encode_utf8(r@);
        let bytes = vstd::utf8::encode_utf8(r@);
        let line = record_line(index as nat);
        assert(bytes.len() == line.len());
        assert forall|i: int| 0 <= i < bytes.len() implies bytes[i] == line[i] by {
            assert(r@[i] as u8 == bytes[i]);
            if i < digits.len() {
                assert(r@[i] == digits[i]);
                assert(ascii_bytes(digits)[i] == digits[i] as u8);
            }
        }
        assert(bytes =~= line);
    }
    r
}

/// Number of bytes to sample at the start of the inclusive range `start..=end`.
pub fn probe_len(start: u64, end: u64) -> (r: usize)
    requires
        start <= end,
    ensures
        r == if end - start + 1 < 1024 {
            end - start + 1
        } else {
            1024
        },
{
    let span = end - start;
    if span < PROBE_BYTES - 1 {
        (span + 1) as usize
    } else {
        PROBE_BYTES as usize
    }
}

/// Whether some byte of `sample` is not zero.
pub open spec fn has_nonzero(sample: Seq<u8>) -> bool {
    exists|i: int| 0 <= i < sample.len() && (#[trigger] sample[i]) != 0
}

/// Guesses from a sample of its first bytes whether a segment is already on disk:
/// something was read and the sample is not all zeros. A hint, never proof.
pub fn segment_looks_present(sample: &[u8], bytes_read: usize) -> (r: bool)
    ensures
        r == (bytes_read != 0 && has_nonzero(sample@)),
{
    if bytes_read == 0 {
        return false;
    }
    let n = sample.len();
    let mut i: usize = 0;
    while i < n
        invariant
            n == sample@.len(),
            i <= n,
            bytes_read != 0,
            forall|j: int| 0 <= j < i ==> sample@[j] == 0,
        decreases n - i,
    {
        if sample[i] != 0 {
            assert(sample@[i as int] != 0);
            return true;
        }
        i = i + 1;
    }
    false
}

/// Bytes downloaded so far against the size of the resource.
#[derive(Clone, Copy, Debug, PartialEq, Eq, Structural)]
pub struct Progress {
    pub downloaded: u64,
    pub total: u64,
}

impl Progress {
    /// Progress of a download of `total` bytes of which `initial` are already on disk.
    pub fn start(initial: u64, total: u64) -> (r: Progress)
        ensures
            r == (Progress { downloaded: initial, total }),
    {
        Progress { downloaded: initial, total }
    }

    /// Counts `len` bytes of a segment just written and returns what to report. The
    /// counter wraps on overflow.
    pub fn segment_written(&mut self, len: u64) -> (report: (u64, u64))
        ensures
            final(self).total == old(self).total,
            final(self).downloaded as nat == (old(self).downloaded + len) % 0x1_0000_0000_0000_0000,
            report == (final(self).downloaded, final(self).total),
    {
        self.downloaded = self.downloaded.wrapping_add(len);
        (self.downloaded, self.total)
    }

    /// The last report of a download that succeeded: everything is downloaded.
    pub fn finished(&self) -> (report: (u64, u64))
        ensures
            report == (self.total, self.total),
    {
        (self.total, self.total)
    }
}

/// State of a single-stream download.
#[derive(Clone, Copy, Debug, PartialEq, Eq, Structural)]
pub struct SimpleTransfer {
    /// Whether received bytes are appended to the destination.
    pub append: bool,
    /// Whether the destination is emptied before the first byte is written, so that
    /// nothing of an older file is left behind the received bytes.
    pub truncate: bool,
    /// Bytes of the resource received or already on disk.
    pub downloaded: u64,
    /// Size of the resource, 0 where the server did not say.
    pub total: u64,
    /// Bytes received and not yet written.
    pub buffered: usize,
}

/// Whether a single-stream download continues a destination of `existing_size` bytes:
/// only where the server answered with the requested range and there was something on disk.
pub open spec fn appends(status: u16, existing_size: Option<u64>) -> bool {
    status == 206 && existing_size.is_some() && existing_size.unwrap() > 0
}

/// The state a single-stream download starts in after a response with `status` and,
/// if the server said so, `content_length` bytes to come.
pub open spec fn simple_start(
    status: u16,
    existing_size: Option<u64>,
    content_length: Option<u64>,
) -> SimpleTransfer {
    let append = appends(status, existing_size);
    let on_disk: u64 = if append {
        existing_size.unwrap()
    } else {
        0
    };
    SimpleTransfer {
        append,
        truncate: !append,
        downloaded: on_disk,
        total: match content_length {
            Some(len) => (len + on_disk) as u64,
            None => 0,
        },
        buffered: 0,
    }
}

/// Starts a single-stream download from the response to its request.
///
/// Any status but 200 and 206 is an error. A 200 answer to a range request means the
/// server ignored the range: the destination is then emptied and written from byte 0,
/// so that it holds the received body and nothing else. Only a 206 answer to a request
/// that continues a file on disk is appended.
pub fn begin_simple(status: u16, existing_size: Option<u64>, content_length: Option<u64>) -> (r:
    Result<SimpleTransfer, Error>)
    requires
        appends(status, existing_size) && content_length.is_some() ==> content_length.unwrap()
            + existing_size.unwrap() <= u64::MAX,
    ensures
        status != 200 && status != 206 ==> (r matches Err(Error::Unknown(text)) && text@
            == "Unexpected status code: "@ + decimal(status as nat)),
        status == 200 || status == 206 ==> r == Ok::<SimpleTransfer, Error>(
            simple_start(status, existing_size, content_length),
        ),
{
    if status != STATUS_OK && status != STATUS_PARTIAL_CONTENT {
        let code = u64_to_decimal(status as u64);
        return Err(Error::Unknown(String::from_str("Unexpected status code: ").concat(code.as_str())));
    }
    let on_disk: u64 = match existing_size {
        Some(size) => if status == STATUS_PARTIAL_CONTENT {
            size
        } else {
            0
        },
        None => 0,
    };
    let total: u64 = match content_length {
        Some(len) => len + on_disk,
        None => 0,
    };
    Ok(
        SimpleTransfer {
            append: on_disk > 0,
            truncate: !(on_disk > 0),
            downloaded: on_disk,
            total,
            buffered: 0,
        },
    )
}

impl SimpleTransfer {
    /// Takes in a chunk of `len` bytes. Returns what to report and whether the buffer,
    /// chunk included, is to be written out now; the buffer is then empty.
    pub fn chunk_received(&mut self, len: usize) -> (r: ((u64, u64), bool))
        requires
            old(self).downloaded + len <= u64::MAX,
            old(self).buffered + len <= usize::MAX,
        ensures
            final(self).append == old(self).append,
            final(self).truncate == old(self).truncate,
            final(self).total == old(self).total,
            final(self).downloaded == old(self).downloaded + len,
            r.0 == (final(self).downloaded, final(self).total),
            r.1 == (old(self).buffered + len >= FLUSH_THRESHOLD),
            final(self).buffered == if r.1 {
                0
            } else {
                old(self).buffered + len
            },
    {
        self.downloaded = self.downloaded + len as u64;
        let held = self.buffered + len;
        let flush = held >= FLUSH_THRESHOLD;
        self.buffered = if flush {
            0
        } else {
            held
        };
        ((self.downloaded, self.total), flush)
    }

    /// Whether bytes remain to be written when the stream ends.
    pub fn has_remainder(&self) -> (r: bool)
        ensures
            r == (self.buffered > 0),
    {
        self.buffered > 0
    }
}

} // verus!
