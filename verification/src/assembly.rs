//! What segment writes do to the destination: whatever their order, a file that holds
//! every segment is the resource.

use vstd::prelude::*;
use crate::fetcher::{is_segment_plan, Fetcher, SegmentedPlan};
use crate::resume::{is_pending_list, records};
use crate::segments::{
    lemma_segment_bounds, lemma_segment_of, segment_count, segment_end, segment_of,
    segment_start,
};

verus! {

/// The file after `data` is written at byte offset `start`.
pub open spec fn write_at(file: Seq<u8>, start: int, data: Seq<u8>) -> Seq<u8>
    recommends
        0 <= start,
        start + data.len() <= file.len(),
{
    Seq::new(
        file.len(),
        |b: int|
            if start <= b < start + data.len() {
                data[b - start]
            } else {
                file[b]
            },
    )
}

/// The bytes of segment `i` of the resource `remote`.
pub open spec fn segment_bytes(remote: Seq<u8>, i: nat, seg: nat) -> Seq<u8>
    recommends
        seg > 0,
        i < segment_count(remote.len(), seg),
{
    remote.subrange(segment_start(i, seg) as int, segment_end(i, remote.len(), seg) as int + 1)
}

/// Whether `file` holds segment `i` of `remote` at its place.
pub open spec fn holds_segment(file: Seq<u8>, remote: Seq<u8>, i: nat, seg: nat) -> bool {
    forall|b: int|
        segment_start(i, seg) <= b <= segment_end(i, remote.len(), seg) ==> #[trigger] file[b]
            == remote[b]
}

/// The file after segment `i` of `remote` is written at its place.
pub open spec fn write_segment(file: Seq<u8>, remote: Seq<u8>, i: nat, seg: nat) -> Seq<u8> {
    write_at(file, segment_start(i, seg) as int, segment_bytes(remote, i, seg))
}

/// The file after the first `k` segments named in `order` are written, one after the other.
pub open spec fn after_writes(
    file: Seq<u8>,
    remote: Seq<u8>,
    seg: nat,
    order: Seq<nat>,
    k: nat,
) -> Seq<u8>
    decreases k,
{
    if k == 0 {
        file
    } else {
        write_segment(after_writes(file, remote, seg, order, (k - 1) as nat), remote, order[k - 1], seg)
    }
}

/// Writing a segment puts it in place and leaves every other segment as it was.
pub proof fn lemma_write_segment(file: Seq<u8>, remote: Seq<u8>, i: nat, j: nat, seg: nat)
    requires
        seg > 0,
        file.len() == remote.len(),
        i < segment_count(remote.len(), seg),
        j < segment_count(remote.len(), seg),
    ensures
        write_segment(file, remote, i, seg).len() == file.len(),
        holds_segment(write_segment(file, remote, i, seg), remote, i, seg),
        holds_segment(file, remote, j, seg) ==> holds_segment(
            write_segment(file, remote, i, seg),
            remote,
            j,
            seg,
        ),
{
    let size = remote.len();
    lemma_segment_bounds(i, size, seg);
    lemma_segment_bounds(j, size, seg);
    let after = write_segment(file, remote, i, seg);
    let data = segment_bytes(remote, i, seg);
    let start = segment_start(i, seg) as int;
    assert(data.len() == segment_end(i, size, seg) + 1 - start);
    assert forall|b: int| start <= b <= segment_end(i, size, seg) implies #[trigger] after[b]
        == remote[b] by {
        assert(data[b - start] == remote[b]);
    }
    if holds_segment(file, remote, j, seg) {
        assert forall|b: int|
            segment_start(j, seg) <= b <= segment_end(j, size, seg) implies #[trigger] after[b]
            == remote[b] by {
            if start <= b < start + data.len() {
                assert(data[b - start] == remote[b]);
            } else {
                assert(file[b] == remote[b]);
            }
        }
    }
}

/// A file of the right size that holds every segment is the resource.
pub proof fn lemma_all_segments_is_resource(file: Seq<u8>, remote: Seq<u8>, seg: nat)
    requires
        seg > 0,
        file.len() == remote.len(),
        forall|i: nat| i < segment_count(remote.len(), seg) ==> holds_segment(file, remote, i, seg),
    ensures
        file == remote,
{
    assert forall|b: int| 0 <= b < file.len() implies file[b] == remote[b] by {
        lemma_segment_of(b as nat, remote.len(), seg);
        let i = segment_of(b as nat, seg);
        assert(holds_segment(file, remote, i, seg));
    }
    assert(file =~= remote);
}

/// Segments may be written in any order, and more than once: after the writes the file
/// holds every segment that it held before or that was written.
pub proof fn lemma_after_writes(
    file: Seq<u8>,
    remote: Seq<u8>,
    seg: nat,
    order: Seq<nat>,
    k: nat,
)
    requires
        seg > 0,
        file.len() == remote.len(),
        k <= order.len(),
        forall|m: int| 0 <= m < order.len() ==> #[trigger] order[m] < segment_count(remote.len(), seg),
    ensures
        after_writes(file, remote, seg, order, k).len() == remote.len(),
        forall|i: nat|
            i < segment_count(remote.len(), seg) && holds_segment(file, remote, i, seg)
                ==> holds_segment(after_writes(file, remote, seg, order, k), remote, i, seg),
        forall|m: int|
            0 <= m < k ==> holds_segment(
                after_writes(file, remote, seg, order, k),
                remote,
                #[trigger] order[m],
                seg,
            ),
    decreases k,
{
    if k > 0 {
        let prev = after_writes(file, remote, seg, order, (k - 1) as nat);
        let cur = after_writes(file, remote, seg, order, k);
        let i = order[k - 1];
        lemma_after_writes(file, remote, seg, order, (k - 1) as nat);
        lemma_write_segment(prev, remote, i, i, seg);
        assert forall|j: nat|
            j < segment_count(remote.len(), seg) && holds_segment(
                file,
                remote,
                j,
                seg,
            ) implies holds_segment(cur, remote, j, seg) by {
            lemma_write_segment(prev, remote, i, j, seg);
        }
        assert forall|m: int| 0 <= m < k implies holds_segment(
            cur,
            remote,
            #[trigger] order[m],
            seg,
        ) by {
            lemma_write_segment(prev, remote, i, order[m], seg);
        }
    }
}

/// The segment indices of a list of pending segments, in the order of the list.
pub open spec fn pending_indices(pending: Seq<(usize, (u64, u64))>) -> Seq<nat> {
    Seq::new(pending.len(), |j: int| pending[j].0 as nat)
}

/// Resuming completes the download: where the destination has the size of the resource
/// and holds every segment marked complete, writing the pending segments, and no others,
/// makes it byte for byte the resource. No pending segment is one marked complete.
pub proof fn lemma_resume_completes(
    file: Seq<u8>,
    remote: Seq<u8>,
    seg: nat,
    ranges: Seq<(u64, u64)>,
    done: Seq<bool>,
    pending: Seq<(usize, (u64, u64))>,
)
    requires
        seg > 0,
        file.len() == remote.len(),
        is_segment_plan(ranges, remote.len(), seg),
        done.len() == ranges.len(),
        is_pending_list(pending, ranges, done),
        forall|i: int| 0 <= i < done.len() && done[i] ==> holds_segment(file, remote, i as nat, seg),
    ensures
        after_writes(file, remote, seg, pending_indices(pending), pending.len()) == remote,
        forall|j: int| 0 <= j < pending.len() ==> !done[(#[trigger] pending[j]).0 as int],
{
    let order = pending_indices(pending);
    assert forall|m: int| 0 <= m < order.len() implies #[trigger] order[m] < segment_count(
        remote.len(),
        seg,
    ) by {
        assert(pending[m].0 < ranges.len());
    }
    lemma_after_writes(file, remote, seg, order, order.len());
    let end = after_writes(file, remote, seg, order, order.len());
    assert forall|i: nat| i < segment_count(remote.len(), seg) implies holds_segment(
        end,
        remote,
        i,
        seg,
    ) by {
        if done[i as int] {
            assert(holds_segment(file, remote, i, seg));
        } else {
            let j = choose|j: int| 0 <= j < pending.len() && (#[trigger] pending[j]).0 == i;
            assert(order[j] == i);
        }
    }
    lemma_all_segments_is_resource(end, remote, seg);
}

/// A planned download completes the file: where the destination, extended to the size
/// of the resource, holds every segment that the plan takes as complete, writing the
/// plan's pending segments makes it byte for byte the resource. Beside a destination
/// of full size, no segment that the sidecar records is downloaded again.
pub proof fn lemma_plan_completes(
    plan: SegmentedPlan,
    fetcher: Fetcher,
    existing_size: Option<u64>,
    sidecar: Option<Seq<u8>>,
    file: Seq<u8>,
    remote: Seq<u8>,
)
    requires
        fetcher.spec_segment_size() > 0,
        remote.len() <= u64::MAX,
        plan.is_plan_for(&fetcher, existing_size, remote.len() as u64, sidecar),
        file.len() == remote.len(),
        forall|i: int|
            0 <= i < plan.done@.len() && plan.done@[i] ==> holds_segment(
                file,
                remote,
                i as nat,
                fetcher.spec_segment_size() as nat,
            ),
    ensures
        after_writes(
            file,
            remote,
            fetcher.spec_segment_size() as nat,
            pending_indices(plan.pending@),
            plan.pending@.len(),
        ) == remote,
        existing_size == Some(remote.len() as u64) && sidecar.is_some() ==> forall|j: int|
            0 <= j < plan.pending@.len() ==> !records(
                sidecar.unwrap(),
                (#[trigger] plan.pending@[j]).0 as nat,
            ),
{
    lemma_resume_completes(
        file,
        remote,
        fetcher.spec_segment_size() as nat,
        plan.ranges@,
        plan.done@,
        plan.pending@,
    );
    if existing_size == Some(remote.len() as u64) && sidecar.is_some() {
        assert forall|j: int| 0 <= j < plan.pending@.len() implies !records(
            sidecar.unwrap(),
            (#[trigger] plan.pending@[j]).0 as nat,
        ) by {
            let i = plan.pending@[j].0 as int;
            assert(!plan.done@[i]);
        }
    }
}

} // verus!
