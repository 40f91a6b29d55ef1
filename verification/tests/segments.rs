use yt_dlp::error::Error;
use yt_dlp::fetcher::{
    destination_complete, needs_segments, segment_ranges, segments_needed, FetchPlan, Fetcher,
    HeadInfo,
};
use yt_dlp::resume::{completed_bytes, fresh_marks, parse_sidecar, pending_segments};

const MIB: u64 = 1024 * 1024;

fn head(accept_ranges: bool, content_length: Option<&str>) -> HeadInfo {
    HeadInfo {
        accept_ranges,
        content_length: content_length.map(|s| s.as_bytes().to_vec()),
    }
}

#[test]
fn twelve_mebibytes_in_five_mebibyte_segments() {
    let ranges = segment_ranges(12 * MIB, 5 * MIB);
    assert_eq!(
        ranges,
        vec![
            (0, 5 * MIB - 1),
            (5 * MIB, 10 * MIB - 1),
            (10 * MIB, 12 * MIB - 1)
        ]
    );
    let sizes: Vec<u64> = ranges.iter().map(|r| r.1 - r.0 + 1).collect();
    assert_eq!(sizes, vec![5 * MIB, 5 * MIB, 2 * MIB]);
}

#[test]
fn segment_count_is_the_ceiling() {
    assert_eq!(segments_needed(0, 7), 0);
    assert_eq!(segments_needed(1, 7), 1);
    assert_eq!(segments_needed(7, 7), 1);
    assert_eq!(segments_needed(8, 7), 2);
    assert_eq!(segments_needed(14, 7), 2);
    assert_eq!(segments_needed(15, 7), 3);
    assert_eq!(segments_needed(u64::MAX, 1), u64::MAX);
    assert_eq!(segments_needed(u64::MAX, u64::MAX), 1);
}

#[test]
fn segments_cover_every_byte_once() {
    for size in 0u64..60 {
        for seg in 1u64..12 {
            let ranges = segment_ranges(size, seg);
            assert_eq!(ranges.len() as u64, (size + seg - 1) / seg);
            let mut next = 0u64;
            let mut total = 0u64;
            for (start, end) in &ranges {
                assert_eq!(*start, next);
                assert!(start <= end);
                assert!(end - start + 1 <= seg);
                total += end - start + 1;
                next = end + 1;
            }
            assert_eq!(next, size);
            assert_eq!(total, size);
        }
    }
}

#[test]
fn exact_multiple_has_no_short_segment() {
    assert_eq!(segment_ranges(10, 5), vec![(0, 4), (5, 9)]);
    assert_eq!(segment_ranges(3, 5), vec![(0, 2)]);
    assert_eq!(segment_ranges(0, 5), Vec::<(u64, u64)>::new());
}

#[test]
fn fetcher_defaults_and_builders() {
    let fetcher = Fetcher::new("http://example.com/file");
    assert_eq!(fetcher.url(), "http://example.com/file");
    assert_eq!(fetcher.parallel_segments(), 4);
    assert_eq!(fetcher.segment_size(), 5 * 1024 * 1024);
    assert_eq!(fetcher.retry_attempts(), 3);
    let fetcher = fetcher
        .with_parallel_segments(8)
        .with_segment_size(1024)
        .with_retry_attempts(5);
    assert_eq!(fetcher.url(), "http://example.com/file");
    assert_eq!(fetcher.parallel_segments(), 8);
    assert_eq!(fetcher.segment_size(), 1024);
    assert_eq!(fetcher.retry_attempts(), 5);
}

#[test]
fn optimal_segments_follow_size_buckets() {
    let fetcher = Fetcher::new("http://example.com/file");
    assert_eq!(fetcher.calculate_optimal_segments(0), 0);
    assert_eq!(fetcher.calculate_optimal_segments(1), 1);
    assert_eq!(fetcher.calculate_optimal_segments(10 * MIB - 1), 1);
    assert_eq!(fetcher.calculate_optimal_segments(10 * MIB), 2);
    assert_eq!(fetcher.calculate_optimal_segments(12 * MIB), 2);
    assert_eq!(fetcher.calculate_optimal_segments(50 * MIB), 4);
    assert_eq!(fetcher.calculate_optimal_segments(100 * MIB), 8);
    assert_eq!(fetcher.calculate_optimal_segments(500 * MIB), 12);
    assert_eq!(fetcher.calculate_optimal_segments(1000 * MIB), 16);
    assert_eq!(fetcher.calculate_optimal_segments(2000 * MIB), 24);
    assert_eq!(fetcher.calculate_optimal_segments(5000 * MIB), 24);
}

#[test]
fn optimal_segments_never_exceed_the_segment_count() {
    let fetcher = Fetcher::new("u").with_segment_size(64 * 1024 * 1024);
    assert_eq!(fetcher.calculate_optimal_segments(100 * MIB), 2);
    assert_eq!(fetcher.calculate_optimal_segments(64 * MIB), 1);
}

#[test]
fn sidecar_lists_one_index_per_line() {
    assert_eq!(parse_sidecar(b"0\n2\n", 3), vec![true, false, true]);
    assert_eq!(parse_sidecar(b"1", 3), vec![false, true, false]);
    assert_eq!(parse_sidecar(b"", 2), vec![false, false]);
    assert_eq!(parse_sidecar(b"\n\n", 2), vec![false, false]);
    assert_eq!(parse_sidecar(b"1\n1\n1\n", 2), vec![false, true]);
}

#[test]
fn sidecar_ignores_what_is_no_index() {
    assert_eq!(parse_sidecar(b"3\n7\n", 3), vec![false, false, false]);
    assert_eq!(parse_sidecar(b"x\n-1\n 2\n1 \n", 3), vec![false, false, false]);
    assert_eq!(parse_sidecar(b"+1\n", 3), vec![false, true, false]);
    assert_eq!(parse_sidecar(b"99999999999999999999999999\n0\n", 1), vec![true]);
    assert_eq!(parse_sidecar(b"0\n1", 0), Vec::<bool>::new());
}

#[test]
fn sidecar_accepts_carriage_return_before_line_feed() {
    assert_eq!(parse_sidecar(b"0\r\n2\r\n", 3), vec![true, false, true]);
    assert_eq!(parse_sidecar(b"1\r", 3), vec![false, false, false]);
}

#[test]
fn fresh_marks_mark_nothing() {
    assert_eq!(fresh_marks(3), vec![false, false, false]);
    assert_eq!(fresh_marks(0), Vec::<bool>::new());
}

#[test]
fn completed_bytes_sum_the_done_segments() {
    let ranges = segment_ranges(12, 5);
    assert_eq!(completed_bytes(&ranges, &vec![false, false, false]), 0);
    assert_eq!(completed_bytes(&ranges, &vec![true, false, false]), 5);
    assert_eq!(completed_bytes(&ranges, &vec![false, false, true]), 2);
    assert_eq!(completed_bytes(&ranges, &vec![true, true, true]), 12);
}

#[test]
fn pending_segments_are_those_not_done() {
    let ranges = segment_ranges(12, 5);
    assert_eq!(
        pending_segments(&ranges, &vec![true, false, false]),
        vec![(1, (5, 9)), (2, (10, 11))]
    );
    assert_eq!(
        pending_segments(&ranges, &vec![false, true, false]),
        vec![(0, (0, 4)), (2, (10, 11))]
    );
    assert_eq!(pending_segments(&ranges, &vec![true, true, true]), vec![]);
}

#[test]
fn resume_downloads_only_unrecorded_segments_and_completes_the_file() {
    let remote: Vec<u8> = (0u8..23).map(|b| b.wrapping_mul(7).wrapping_add(1)).collect();
    let fetcher = Fetcher::new("u").with_segment_size(5);
    let total = remote.len() as u64;
    // An interrupted transfer left segments 0 and 3 on disk and recorded them.
    let mut file = vec![0u8; remote.len()];
    file[0..5].copy_from_slice(&remote[0..5]);
    file[15..20].copy_from_slice(&remote[15..20]);
    let plan = fetcher.plan_segments(total, Some(total), Some(b"0\n3\n"));
    assert_eq!(plan.done, vec![true, false, false, true, false]);
    assert_eq!(plan.initial_bytes, 10);
    let indices: Vec<usize> = plan.pending.iter().map(|p| p.0).collect();
    assert_eq!(indices, vec![1, 2, 4]);
    // Writes may land in any order.
    for (_, (start, end)) in plan.pending.iter().rev() {
        let (s, e) = (*start as usize, *end as usize);
        file[s..=e].copy_from_slice(&remote[s..=e]);
    }
    assert_eq!(file, remote);
}

#[test]
fn plan_without_ranges_or_length_is_simple() {
    let fetcher = Fetcher::new("u");
    let plan = fetcher.plan_fetch(&head(false, Some("100")), None, None);
    assert!(matches!(plan, Ok(FetchPlan::Simple)));
    let plan = fetcher.plan_fetch(&head(true, None), Some(5), None);
    assert!(matches!(plan, Ok(FetchPlan::Simple)));
}

#[test]
fn plan_rejects_a_content_length_that_is_no_number() {
    let fetcher = Fetcher::new("u");
    for bad in ["", "abc", "12x", "-5", "1.5", " 7", "18446744073709551616"] {
        let plan = fetcher.plan_fetch(&head(true, Some(bad)), None, None);
        assert!(matches!(plan, Err(Error::Unknown(_))));
    }
}

#[test]
fn plan_short_circuits_when_destination_has_full_size() {
    let fetcher = Fetcher::new("u");
    let plan = fetcher.plan_fetch(&head(true, Some("1000")), Some(1000), None);
    assert!(matches!(plan, Ok(FetchPlan::AlreadyComplete)));
    let plan = fetcher.plan_fetch(&head(true, Some("0")), Some(0), None);
    assert!(matches!(plan, Ok(FetchPlan::AlreadyComplete)));
    assert!(destination_complete(Some(1000), 1000, false));
    assert!(!destination_complete(Some(1000), 1000, true));
    assert!(!destination_complete(Some(999), 1000, false));
    assert!(!destination_complete(None, 1000, false));
}

#[test]
fn a_complete_file_counts_whatever_the_segment_size() {
    let fetcher = Fetcher::new("u").with_segment_size(0);
    assert!(!needs_segments(&head(true, Some("1000")), Some(1000), false));
    let plan = fetcher.plan_fetch(&head(true, Some("1000")), Some(1000), None);
    assert!(matches!(plan, Ok(FetchPlan::AlreadyComplete)));
    assert!(!needs_segments(&head(false, Some("1000")), None, false));
    let plan = fetcher.plan_fetch(&head(false, Some("1000")), None, None);
    assert!(matches!(plan, Ok(FetchPlan::Simple)));
    assert!(!needs_segments(&head(true, Some("x")), None, false));
    assert!(matches!(fetcher.plan_fetch(&head(true, Some("x")), None, None), Err(Error::Unknown(_))));
    assert!(needs_segments(&head(true, Some("1000")), None, false));
    assert!(needs_segments(&head(true, Some("1000")), Some(1000), true));
    assert!(needs_segments(&head(true, Some("1000")), Some(7), false));
}

#[test]
fn an_interrupted_download_is_resumed_from_its_sidecar() {
    let remote: Vec<u8> = (0u8..23).map(|b| b.wrapping_mul(5).wrapping_add(3)).collect();
    let fetcher = Fetcher::new("u").with_segment_size(5);
    // The file was extended to full size; segments 1 and 4 were written and recorded.
    let mut file = vec![0u8; remote.len()];
    file[5..10].copy_from_slice(&remote[5..10]);
    file[20..23].copy_from_slice(&remote[20..23]);
    let plan = fetcher.plan_fetch(&head(true, Some("23")), Some(23), Some(b"1\n4\n"));
    let plan = match plan {
        Ok(FetchPlan::Segmented(plan)) => plan,
        _ => panic!("expected a segmented plan"),
    };
    assert!(plan.resume_existing);
    assert_eq!(plan.total_bytes, 23);
    assert_eq!(plan.done, vec![false, true, false, false, true]);
    assert_eq!(plan.initial_bytes, 8);
    assert_eq!(plan.pending, vec![(0, (0, 4)), (2, (10, 14)), (3, (15, 19))]);
    for (_, (start, end)) in &plan.pending {
        let (s, e) = (*start as usize, *end as usize);
        file[s..=e].copy_from_slice(&remote[s..=e]);
    }
    assert_eq!(file, remote);
}

#[test]
fn a_sidecar_that_records_everything_leaves_nothing_to_fetch() {
    let fetcher = Fetcher::new("u").with_segment_size(5);
    match fetcher.plan_fetch(&head(true, Some("12")), Some(12), Some(b"0\n1\n2\n")) {
        Ok(FetchPlan::Segmented(plan)) => {
            assert_eq!(plan.done, vec![true, true, true]);
            assert!(plan.pending.is_empty());
            assert_eq!(plan.initial_bytes, 12);
            assert_eq!(plan.parallel, 0);
        }
        _ => panic!("expected a segmented plan"),
    }
}

#[test]
fn plan_for_a_new_destination_downloads_everything() {
    let fetcher = Fetcher::new("u");
    let plan = fetcher.plan_fetch(&head(true, Some("12582912")), None, None);
    match plan {
        Ok(FetchPlan::Segmented(plan)) => {
            assert_eq!(plan.total_bytes, 12 * MIB);
            assert!(!plan.resume_existing);
            assert_eq!(plan.ranges.len(), 3);
            assert_eq!(plan.done, vec![false, false, false]);
            assert_eq!(plan.pending.len(), 3);
            assert_eq!(plan.pending[2], (2, (10 * MIB, 12 * MIB - 1)));
            assert_eq!(plan.initial_bytes, 0);
            assert_eq!(plan.parallel, 2);
        }
        _ => panic!("expected a segmented plan"),
    }
}

#[test]
fn plan_ignores_a_sidecar_beside_a_file_of_another_size() {
    let fetcher = Fetcher::new("u").with_segment_size(5);
    let plan = fetcher.plan_fetch(&head(true, Some("12")), Some(7), Some(b"0\n1\n"));
    match plan {
        Ok(FetchPlan::Segmented(plan)) => {
            assert!(plan.resume_existing);
            assert_eq!(plan.done, vec![false, false, false]);
            assert_eq!(plan.initial_bytes, 0);
            assert_eq!(plan.pending.len(), 3);
            assert_eq!(plan.parallel, 1);
        }
        _ => panic!("expected a segmented plan"),
    }
}

#[test]
fn plan_of_an_empty_resource_has_no_segments() {
    let fetcher = Fetcher::new("u");
    match fetcher.plan_fetch(&head(true, Some("0")), None, None) {
        Ok(FetchPlan::Segmented(plan)) => {
            assert!(plan.ranges.is_empty());
            assert!(plan.pending.is_empty());
            assert_eq!(plan.parallel, 0);
        }
        _ => panic!("expected a segmented plan"),
    }
}

#[test]
fn parallelism_is_capped_by_configuration_and_work() {
    let fetcher = Fetcher::new("u").with_segment_size(MIB as usize).with_parallel_segments(3);
    let plan = fetcher.plan_segments(600 * MIB, None, None);
    assert_eq!(plan.parallel, 3);
    let fetcher = fetcher.with_parallel_segments(100);
    let plan = fetcher.plan_segments(600 * MIB, None, None);
    assert_eq!(plan.parallel, 12);
}

#[test]
fn stream_fetcher_uses_eight_segments() {
    let fetcher = Fetcher::for_stream("http://example.com/stream");
    assert_eq!(fetcher.url(), "http://example.com/stream");
    assert_eq!(fetcher.parallel_segments(), 8);
    assert_eq!(fetcher.segment_size(), 5 * 1024 * 1024);
    assert_eq!(fetcher.retry_attempts(), 3);
}
