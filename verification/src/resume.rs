//! The resume sidecar: which segments an interrupted download already holds.
//!
//! The sidecar is text, one completed segment index per line.

use vstd::prelude::*;
use vstd::slice::slice_subrange;
use crate::text::{
    ascii_bytes, decimal, is_digit, lemma_decimal_parses, parse_unsigned, parse_usize,
};

verus! {

/// Whether `[a, b)` is one line of `s`: it starts at the start of the text or after a
/// line feed, ends at a line feed or at the end of the text, and holds no line feed.
pub open spec fn is_line(s: Seq<u8>, a: int, b: int) -> bool {
    &&& 0 <= a <= b <= s.len()
    &&& (a == 0 || s[a - 1] == 10)
    &&& (b == s.len() || s[b] == 10)
    &&& forall|k: int| a <= k < b ==> s[k] != 10
}

/// The text of the line `[a, b)`: a carriage return before the closing line feed is dropped.
pub open spec fn line_text(s: Seq<u8>, a: int, b: int) -> Seq<u8> {
    if a < b < s.len() && s[b - 1] == 13 {
        s.subrange(a, b - 1)
    } else {
        s.subrange(a, b)
    }
}

/// Whether the line `[a, b)` of `s` spells the segment index `index`.
pub open spec fn line_records(s: Seq<u8>, a: int, b: int, index: nat) -> bool {
    is_line(s, a, b) && parse_unsigned(line_text(s, a, b), usize::MAX as nat) == Some(index)
}

/// Whether some line of `s` that ends before `limit` spells `index`.
pub open spec fn recorded_before(s: Seq<u8>, index: nat, limit: int) -> bool {
    exists|a: int, b: int| b < limit && #[trigger] line_records(s, a, b, index)
}

/// Whether the sidecar text `s` records segment `index` as complete.
pub open spec fn records(s: Seq<u8>, index: nat) -> bool {
    recorded_before(s, index, s.len() as int + 1)
}

/// The completion marks of `n` segments according to the sidecar text `s`.
/// Indices of `n` or more are ignored.
pub open spec fn sidecar_marks(s: Seq<u8>, n: nat) -> Seq<bool> {
    Seq::new(n, |i: int| records(s, i as nat))
}

/// The sidecar line that records segment `index`: its decimal spelling and a line feed.
pub open spec fn record_line(index: nat) -> Seq<u8> {
    ascii_bytes(decimal(index)).push(10)
}

/// Writer and reader agree: after the line of segment `index` is appended to a sidecar
/// that is empty or ends with a line feed, the sidecar records `index` and what it
/// recorded before, and nothing else.
pub proof fn lemma_append_records(prefix: Seq<u8>, index: nat, other: nat)
    requires
        prefix.len() == 0 || prefix.last() == 10,
        index <= usize::MAX,
    ensures
        records(prefix + record_line(index), other) <==> (other == index || records(prefix, other)),
{
    let digits = ascii_bytes(decimal(index));
    let text = prefix + record_line(index);
    let a = prefix.len() as int;
    let b = a + digits.len();
    let max = usize::MAX as nat;
    lemma_decimal_parses(index, max);
    assert(text.len() == b + 1);
    assert(text[b] == 10);
    assert forall|k: int| a <= k < b implies is_digit(#[trigger] text[k]) by {
        assert(text[k] == digits[k - a]);
    }
    assert forall|k: int| 0 <= k < a implies #[trigger] text[k] == prefix[k] by {}
    assert(is_line(text, a, b)) by {
        if a > 0 {
            assert(text[a - 1] == prefix[a - 1]);
        }
        assert forall|k: int| a <= k < b implies text[k] != 10 by {
            assert(is_digit(text[k]));
        }
    }
    assert(line_text(text, a, b) =~= digits) by {
        assert(is_digit(text[b - 1]));
    }
    assert(line_records(text, a, b, index));
    if records(prefix, other) {
        let (a2, b2) = choose|a2: int, b2: int|
            b2 < prefix.len() + 1 && #[trigger] line_records(prefix, a2, b2, other);
        if b2 == prefix.len() {
            if a2 < b2 {
                assert(prefix[b2 - 1] != 10);
            }
            assert(line_text(prefix, a2, b2) =~= Seq::<u8>::empty());
        } else {
            assert(text[b2] == prefix[b2]);
            assert(is_line(text, a2, b2)) by {
                if a2 > 0 {
                    assert(text[a2 - 1] == prefix[a2 - 1]);
                }
                assert forall|k: int| a2 <= k < b2 implies text[k] != 10 by {
                    assert(text[k] == prefix[k]);
                }
            }
            if a2 < b2 {
                assert(text[b2 - 1] == prefix[b2 - 1]);
            }
            assert(line_text(text, a2, b2) =~= line_text(prefix, a2, b2));
            assert(line_records(text, a2, b2, other));
        }
    }
    if records(text, other) && other != index {
        let (a2, b2) = choose|a2: int, b2: int|
            b2 < text.len() + 1 && #[trigger] line_records(text, a2, b2, other);
        if b2 == text.len() {
            if a2 < b2 {
                assert(text[b2 - 1] != 10);
            }
            assert(line_text(text, a2, b2) =~= Seq::<u8>::empty());
        } else if b2 >= a {
            lemma_line_unique(text, a, b, a2, b2);
        } else {
            assert(prefix[b2] == text[b2]);
            assert(is_line(prefix, a2, b2)) by {
                if a2 > 0 {
                    assert(text[a2 - 1] == prefix[a2 - 1]);
                }
                assert forall|k: int| a2 <= k < b2 implies prefix[k] != 10 by {
                    assert(text[k] == prefix[k]);
                }
            }
            if a2 < b2 {
                assert(text[b2 - 1] == prefix[b2 - 1]);
            }
            assert(line_text(prefix, a2, b2) =~= line_text(text, a2, b2));
            assert(line_records(prefix, a2, b2, other));
        }
    }
}

proof fn lemma_line_unique(s: Seq<u8>, a: int, i: int, a2: int, b2: int)
    requires
        is_line(s, a, i),
        is_line(s, a2, b2),
        a <= b2 <= i,
    ensures
        a2 == a,
        b2 == i,
{
    if b2 < i {
        assert(s[b2] != 10);
    }
    if a2 < a {
        assert(s[a - 1] == 10);
    } else if a2 > a {
        assert(s[a2 - 1] == 10);
    }
}

/// Marks in `done` the segment that the line `[a, b)` of `content` spells, if it spells one.
fn mark_line(content: &[u8], a: usize, b: usize, done: &mut Vec<bool>)
    requires
        is_line(content@, a as int, b as int),
        forall|idx: int|
            0 <= idx < old(done)@.len() ==> (old(done)@[idx] <==> recorded_before(
                content@,
                idx as nat,
                a as int,
            )),
    ensures
        final(done)@.len() == old(done)@.len(),
        forall|idx: int|
            0 <= idx < final(done)@.len() ==> (final(done)@[idx] <==> recorded_before(
                content@,
                idx as nat,
                b + 1,
            )),
{
    let ghost s = content@;
    let end = if a < b && b < content.len() && content[b - 1] == 13 {
        b - 1
    } else {
        b
    };
    let text = slice_subrange(content, a, end);
    assert(text@ == line_text(s, a as int, b as int));
    let parsed = parse_usize(text);
    let ghost before = done@;
    match parsed {
        Some(index) => {
            if index < done.len() {
                done.set(index, true);
            }
        },
        None => {},
    }
    assert forall|idx: int| 0 <= idx < done@.len() implies (done@[idx] <==> recorded_before(
        s,
        idx as nat,
        b + 1,
    )) by {
        let here = parsed == Some(idx as usize);
        if here {
            assert(line_records(s, a as int, b as int, idx as nat));
        }
        if recorded_before(s, idx as nat, a as int) {
            let (a2, b2) = choose|a2: int, b2: int|
                b2 < a && #[trigger] line_records(s, a2, b2, idx as nat);
            assert(b2 < b + 1 && line_records(s, a2, b2, idx as nat));
        }
        if recorded_before(s, idx as nat, b + 1) {
            let (a2, b2) = choose|a2: int, b2: int|
                b2 < b + 1 && #[trigger] line_records(s, a2, b2, idx as nat);
            if b2 >= a {
                lemma_line_unique(s, a as int, b as int, a2, b2);
                assert(here);
            } else {
                assert(b2 < a && line_records(s, a2, b2, idx as nat));
            }
        }
    }
}

/// Reads the sidecar text: for each of `n` segments, whether it is recorded complete.
pub fn parse_sidecar(content: &[u8], n: usize) -> (done: Vec<bool>)
    ensures
        done@ == sidecar_marks(content@, n as nat),
{
    let ghost s = content@;
    let mut done = fresh_marks(n);
    let len = content.len();
    let mut a: usize = 0;
    let mut i: usize = 0;
    assert forall|idx: int| 0 <= idx < n implies (#[trigger] done@[idx] <==> recorded_before(
        s,
        idx as nat,
        0,
    )) by {
        if recorded_before(s, idx as nat, 0) {
            let (a2, b2) = choose|a2: int, b2: int|
                b2 < 0 && #[trigger] line_records(s, a2, b2, idx as nat);
        }
    }
    while i < len
        invariant
            s == content@,
            len == s.len(),
            a <= i <= len,
            a == 0 || s[a - 1] == 10,
            forall|j: int| a <= j < i ==> s[j] != 10,
            done@.len() == n,
            forall|idx: int|
                0 <= idx < n ==> (done@[idx] <==> recorded_before(s, idx as nat, a as int)),
        decreases len - i,
    {
        if content[i] == 10 {
            mark_line(content, a, i, &mut done);
            a = i + 1;
        }
        i = i + 1;
    }
    mark_line(content, a, len, &mut done);
    assert(done@ =~= sidecar_marks(s, n as nat));
    done
}

/// Whether `done` marks nothing.
pub open spec fn none_marked(done: Seq<bool>) -> bool {
    forall|i: int| 0 <= i < done.len() ==> !#[trigger] done[i]
}

/// Completion marks for `n` segments with nothing complete.
pub fn fresh_marks(n: usize) -> (done: Vec<bool>)
    ensures
        done@.len() == n,
        none_marked(done@),
{
    let mut done: Vec<bool> = Vec::new();
    let mut k: usize = 0;
    while k < n
        invariant
            k <= n,
            done@.len() == k,
            none_marked(done@),
        decreases n - k,
    {
        done.push(false);
        k = k + 1;
    }
    done
}

/// Number of bytes in the inclusive range `r`.
pub open spec fn range_len(r: (u64, u64)) -> nat {
    (r.1 - r.0 + 1) as nat
}

/// Bytes held by the first `k` ranges.
pub open spec fn total_bytes(ranges: Seq<(u64, u64)>, k: nat) -> nat
    decreases k,
{
    if k == 0 {
        0
    } else {
        total_bytes(ranges, (k - 1) as nat) + range_len(ranges[k - 1])
    }
}

/// Bytes held by those of the first `k` ranges whose mark equals `mark`.
pub open spec fn bytes_with_mark(
    ranges: Seq<(u64, u64)>,
    done: Seq<bool>,
    mark: bool,
    k: nat,
) -> nat
    decreases k,
{
    if k == 0 {
        0
    } else {
        bytes_with_mark(ranges, done, mark, (k - 1) as nat) + if done[k - 1] == mark {
            range_len(ranges[k - 1])
        } else {
            0
        }
    }
}

/// Whether every range is non-empty as an inclusive range.
pub open spec fn ranges_ordered(ranges: Seq<(u64, u64)>) -> bool {
    forall|i: int| 0 <= i < ranges.len() ==> (#[trigger] ranges[i]).0 <= ranges[i].1
}

/// Complete and missing bytes add up to all bytes.
pub proof fn lemma_marks_split_bytes(ranges: Seq<(u64, u64)>, done: Seq<bool>, k: nat)
    requires
        k <= ranges.len(),
        done.len() == ranges.len(),
    ensures
        bytes_with_mark(ranges, done, true, k) + bytes_with_mark(ranges, done, false, k)
            == total_bytes(ranges, k),
    decreases k,
{
    if k > 0 {
        lemma_marks_split_bytes(ranges, done, (k - 1) as nat);
    }
}

/// Bytes grow with the number of ranges counted.
pub proof fn lemma_total_bytes_monotone(ranges: Seq<(u64, u64)>, j: nat, k: nat)
    requires
        j <= k,
    ensures
        total_bytes(ranges, j) <= total_bytes(ranges, k),
    decreases k,
{
    if j < k {
        lemma_total_bytes_monotone(ranges, j, (k - 1) as nat);
    }
}

/// Bytes already on disk according to the marks: the sum of the sizes of the complete segments.
pub fn completed_bytes(ranges: &Vec<(u64, u64)>, done: &Vec<bool>) -> (r: u64)
    requires
        done@.len() == ranges@.len(),
        ranges_ordered(ranges@),
        total_bytes(ranges@, ranges@.len()) <= u64::MAX,
    ensures
        r == bytes_with_mark(ranges@, done@, true, ranges@.len()),
{
    let mut sum: u64 = 0;
    let mut i: usize = 0;
    let n = ranges.len();
    while i < n
        invariant
            n == ranges@.len(),
            done@.len() == n,
            i <= n,
            ranges_ordered(ranges@),
            total_bytes(ranges@, n as nat) <= u64::MAX,
            sum == bytes_with_mark(ranges@, done@, true, i as nat),
        decreases n - i,
    {
        proof {
            lemma_marks_split_bytes(ranges@, done@, (i + 1) as nat);
            lemma_total_bytes_monotone(ranges@, (i + 1) as nat, n as nat);
        }
        if done[i] {
            let r = ranges[i];
            sum = sum + (r.1 - r.0 + 1);
        }
        i = i + 1;
    }
    sum
}

/// Whether `pending` lists, in increasing order of index, exactly the segments that
/// `done` does not mark, each with its range.
pub open spec fn is_pending_list(
    pending: Seq<(usize, (u64, u64))>,
    ranges: Seq<(u64, u64)>,
    done: Seq<bool>,
) -> bool {
    &&& forall|j: int|
        0 <= j < pending.len() ==> {
            &&& (#[trigger] pending[j]).0 < ranges.len()
            &&& !done[pending[j].0 as int]
            &&& pending[j].1 == ranges[pending[j].0 as int]
        }
    &&& forall|j: int, k: int|
        0 <= j < k < pending.len() ==> (#[trigger] pending[j]).0 < (#[trigger] pending[k]).0
    &&& forall|i: int|
        0 <= i < ranges.len() && !#[trigger] done[i] ==> exists|j: int|
            0 <= j < pending.len() && (#[trigger] pending[j]).0 == i
}

/// The segments still to download: those not marked complete, in order, with their index.
pub fn pending_segments(ranges: &Vec<(u64, u64)>, done: &Vec<bool>) -> (pending: Vec<
    (usize, (u64, u64)),
>)
    requires
        done@.len() == ranges@.len(),
    ensures
        is_pending_list(pending@, ranges@, done@),
{
    let mut pending: Vec<(usize, (u64, u64))> = Vec::new();
    let n = ranges.len();
    let mut i: usize = 0;
    while i < n
        invariant
            n == ranges@.len(),
            done@.len() == n,
            i <= n,
            forall|j: int|
                0 <= j < pending@.len() ==> {
                    &&& (#[trigger] pending@[j]).0 < i
                    &&& !done@[pending@[j].0 as int]
                    &&& pending@[j].1 == ranges@[pending@[j].0 as int]
                },
            forall|j: int, k: int|
                0 <= j < k < pending@.len() ==> (#[trigger] pending@[j]).0 < (
                #[trigger] pending@[k]).0,
            forall|m: int|
                0 <= m < i && !#[trigger] done@[m] ==> exists|j: int|
                    0 <= j < pending@.len() && (#[trigger] pending@[j]).0 == m,
        decreases n - i,
    {
        if !done[i] {
            let ghost before = pending@;
            pending.push((i, ranges[i]));
            assert forall|m: int| 0 <= m < i + 1 && !#[trigger] done@[m] implies exists|j: int|
                0 <= j < pending@.len() && (#[trigger] pending@[j]).0 == m by {
                if m < i {
                    let j = choose|j: int| 0 <= j < before.len() && (#[trigger] before[j]).0 == m;
                    assert(pending@[j] == before[j]);
                } else {
                    assert(pending@[before.len() as int].0 == m);
                }
            }
        }
        i = i + 1;
    }
    pending
}

} // verus!
