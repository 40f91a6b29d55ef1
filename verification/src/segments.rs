//! Partition of a remote resource into contiguous byte-range segments.

use vstd::prelude::*;

verus! {

/// Number of segments of size `seg` needed to cover `size` bytes: `ceil(size / seg)`.
pub open spec fn segment_count(size: nat, seg: nat) -> nat
    recommends
        seg > 0,
{
    ((size + seg - 1) / (seg as int)) as nat
}

/// First byte offset of segment `i`.
pub open spec fn segment_start(i: nat, seg: nat) -> nat {
    i * seg
}

/// Last byte offset (inclusive) of segment `i`; the last segment is truncated.
pub open spec fn segment_end(i: nat, size: nat, seg: nat) -> nat
    recommends
        seg > 0,
        i < segment_count(size, seg),
{
    if (i + 1) * seg <= size {
        ((i + 1) * seg - 1) as nat
    } else {
        (size - 1) as nat
    }
}

/// Number of bytes in segment `i`.
pub open spec fn segment_len(i: nat, size: nat, seg: nat) -> nat
    recommends
        seg > 0,
        i < segment_count(size, seg),
{
    (segment_end(i, size, seg) + 1 - segment_start(i, seg)) as nat
}

/// Total bytes covered by the first `k` segments.
pub open spec fn covered_bytes(k: nat, size: nat, seg: nat) -> nat
    decreases k,
{
    if k == 0 {
        0
    } else {
        covered_bytes((k - 1) as nat, size, seg) + segment_len((k - 1) as nat, size, seg)
    }
}

/// `segment_count` is the ceiling of `size / seg`: the least `n` with `n * seg >= size`.
pub proof fn lemma_segment_count_is_ceiling(size: nat, seg: nat)
    requires
        seg > 0,
    ensures
        segment_count(size, seg) * seg >= size,
        segment_count(size, seg) > 0 ==> (segment_count(size, seg) - 1) * seg < size,
        size == 0 <==> segment_count(size, seg) == 0,
{
    let n = segment_count(size, seg) as int;
    let s = seg as int;
    let t = size + seg - 1;
    assert(t == s * (t / s) + t % s) by {
        vstd::arithmetic::div_mod::lemma_fundamental_div_mod(t, s);
    }
    assert(0 <= t % s < s) by {
        vstd::arithmetic::div_mod::lemma_mod_bound(t, s);
    }
    assert(t / s >= 0) by {
        vstd::arithmetic::div_mod::lemma_div_pos_is_pos(t, s);
    }
    assert(n == t / s);
    assert(n * s == s * n) by (nonlinear_arith);
    assert((n - 1) * s == n * s - s) by (nonlinear_arith);
    if size == 0 {
        assert(t < s);
        assert(n == 0) by {
            vstd::arithmetic::div_mod::lemma_basic_div(t, s);
        }
    } else {
        assert(n != 0) by {
            if n == 0 {
                assert(s * n == 0) by (nonlinear_arith)
                    requires
                        n == 0,
                ;
            }
        }
    }
}

/// Every segment index below the count names a non-empty range inside the resource.
pub proof fn lemma_segment_bounds(i: nat, size: nat, seg: nat)
    requires
        seg > 0,
        i < segment_count(size, seg),
    ensures
        segment_start(i, seg) <= segment_end(i, size, seg) < size,
        1 <= segment_len(i, size, seg) <= seg,
        i + 1 < segment_count(size, seg) ==> segment_len(i, size, seg) == seg,
        i + 1 < segment_count(size, seg) ==> (i + 1) * seg < size,
{
    lemma_segment_count_is_ceiling(size, seg);
    let n = segment_count(size, seg) as int;
    let s = seg as int;
    let ii = i as int;
    assert(ii * s <= (n - 1) * s) by (nonlinear_arith)
        requires
            ii <= n - 1,
            s > 0,
    ;
    assert((ii + 1) * s == ii * s + s) by (nonlinear_arith);
    if i + 1 < segment_count(size, seg) {
        assert((ii + 1) * s <= (n - 1) * s) by (nonlinear_arith)
            requires
                ii + 1 <= n - 1,
                s > 0,
        ;
    }
}

/// Consecutive segments touch: each starts one byte after the previous one ends.
pub proof fn lemma_segments_contiguous(i: nat, size: nat, seg: nat)
    requires
        seg > 0,
        i + 1 < segment_count(size, seg),
    ensures
        segment_start((i + 1) as nat, seg) == segment_end(i, size, seg) + 1,
{
    lemma_segment_bounds(i, size, seg);
    assert((i + 1) * seg >= 1) by (nonlinear_arith)
        requires
            seg > 0,
    ;
}

/// The first `k` segments cover exactly the bytes before the start of segment `k`.
pub proof fn lemma_covered_prefix(k: nat, size: nat, seg: nat)
    requires
        seg > 0,
        k <= segment_count(size, seg),
    ensures
        k < segment_count(size, seg) ==> covered_bytes(k, size, seg) == k * seg,
        k == segment_count(size, seg) ==> covered_bytes(k, size, seg) == size,
    decreases k,
{
    lemma_segment_count_is_ceiling(size, seg);
    if k > 0 {
        let j = (k - 1) as nat;
        lemma_covered_prefix(j, size, seg);
        lemma_segment_bounds(j, size, seg);
        let s = seg as int;
        let jj = j as int;
        assert((jj + 1) * s == jj * s + s) by (nonlinear_arith);
        if k == segment_count(size, seg) {
            assert(covered_bytes(j, size, seg) == j * seg);
            assert(segment_end(j, size, seg) == size - 1) by {
                if (j + 1) * seg <= size {
                    assert((j + 1) * seg == size);
                }
            }
        }
    } else {
        assert(0 * (seg as int) == 0) by (nonlinear_arith);
    }
}

/// The segments partition `[0, size)`: their number is `ceil(size / seg)`, their
/// lengths sum to `size`, and every byte offset lies in exactly one segment.
pub proof fn lemma_segments_partition(size: nat, seg: nat)
    requires
        seg > 0,
    ensures
        segment_count(size, seg) * seg >= size,
        segment_count(size, seg) > 0 ==> (segment_count(size, seg) - 1) * seg < size,
        covered_bytes(segment_count(size, seg), size, seg) == size,
        forall|b: nat|
            b < size ==> {
                &&& (#[trigger] segment_of(b, seg)) < segment_count(size, seg)
                &&& segment_start(segment_of(b, seg), seg) <= b <= segment_end(
                    segment_of(b, seg),
                    size,
                    seg,
                )
            },
        forall|b: nat, i: nat|
            b < size && i < segment_count(size, seg) && segment_start(i, seg) <= b
                <= #[trigger] segment_end(i, size, seg) ==> i == #[trigger] segment_of(b, seg),
{
    lemma_segment_count_is_ceiling(size, seg);
    lemma_covered_prefix(segment_count(size, seg), size, seg);
    assert forall|b: nat| b < size implies {
        &&& (#[trigger] segment_of(b, seg)) < segment_count(size, seg)
        &&& segment_start(segment_of(b, seg), seg) <= b <= segment_end(
            segment_of(b, seg),
            size,
            seg,
        )
    } by {
        lemma_segment_of(b, size, seg);
    }
    assert forall|b: nat, i: nat|
        b < size && i < segment_count(size, seg) && segment_start(i, seg) <= b
            <= #[trigger] segment_end(i, size, seg) implies i == #[trigger] segment_of(
        b,
        seg,
    ) by {
        lemma_segment_unique(b, i, size, seg);
    }
}

/// Index of the segment that holds byte offset `b`.
pub open spec fn segment_of(b: nat, seg: nat) -> nat
    recommends
        seg > 0,
{
    (b / seg) as nat
}

/// Byte `b` of the resource lies in segment `segment_of(b, seg)`.
pub proof fn lemma_segment_of(b: nat, size: nat, seg: nat)
    requires
        seg > 0,
        b < size,
    ensures
        segment_of(b, seg) < segment_count(size, seg),
        segment_start(segment_of(b, seg), seg) <= b <= segment_end(segment_of(b, seg), size, seg),
{
    lemma_segment_count_is_ceiling(size, seg);
    let s = seg as int;
    let bi = b as int;
    let q = bi / s;
    let n = segment_count(size, seg) as int;
    assert(bi == s * q + bi % s) by {
        vstd::arithmetic::div_mod::lemma_fundamental_div_mod(bi, s);
    }
    assert(0 <= bi % s < s) by {
        vstd::arithmetic::div_mod::lemma_mod_bound(bi, s);
    }
    assert(q >= 0) by {
        vstd::arithmetic::div_mod::lemma_div_pos_is_pos(bi, s);
    }
    assert(q * s == s * q) by (nonlinear_arith);
    assert((q + 1) * s == q * s + s) by (nonlinear_arith);
    assert(q < n) by {
        if q >= n {
            assert(q * s >= n * s) by (nonlinear_arith)
                requires
                    q >= n,
                    s > 0,
            ;
        }
    }
}

/// A byte lies in no segment other than `segment_of(b, seg)`.
pub proof fn lemma_segment_unique(b: nat, i: nat, size: nat, seg: nat)
    requires
        seg > 0,
        b < size,
        i < segment_count(size, seg),
        segment_start(i, seg) <= b <= segment_end(i, size, seg),
    ensures
        i == segment_of(b, seg),
{
    lemma_segment_of(b, size, seg);
    let s = seg as int;
    let q = segment_of(b, seg) as int;
    let ii = i as int;
    assert((q + 1) * s == q * s + s) by (nonlinear_arith);
    assert((ii + 1) * s == ii * s + s) by (nonlinear_arith);
    if ii < q {
        assert((ii + 1) * s <= q * s) by (nonlinear_arith)
            requires
                ii + 1 <= q,
                s > 0,
        ;
    } else if ii > q {
        assert((q + 1) * s <= ii * s) by (nonlinear_arith)
            requires
                q + 1 <= ii,
                s > 0,
        ;
    }
}

} // verus!
