use dry_core::contour::{stitch_segments, StitchedPath};

fn k(n: i64) -> (i64, i64) {
    (n * 1000, -n)
}

fn path(steps: Vec<(usize, bool)>, seed: usize) -> StitchedPath {
    StitchedPath { steps, seed }
}

#[test]
fn no_segments_make_no_paths() {
    assert!(stitch_segments(&Vec::new()).is_empty());
}

#[test]
fn separate_segments_are_separate_paths() {
    let segs = vec![(k(0), k(1)), (k(5), k(6))];
    assert_eq!(stitch_segments(&segs), vec![path(vec![(0, false)], 0), path(vec![(1, false)], 0)]);
}

#[test]
fn a_chain_listed_out_of_order_is_walked_both_ways_from_its_first_segment() {
    let segs = vec![(k(1), k(2)), (k(0), k(1)), (k(2), k(3))];
    assert_eq!(stitch_segments(&segs), vec![path(vec![(1, false), (0, false), (2, false)], 1)]);
}

#[test]
fn a_segment_met_at_its_far_end_is_walked_backwards() {
    let segs = vec![(k(0), k(1)), (k(2), k(1))];
    assert_eq!(stitch_segments(&segs), vec![path(vec![(0, false), (1, true)], 0)]);
}

#[test]
fn at_a_branch_the_lowest_free_segment_is_taken() {
    let segs = vec![(k(0), k(1)), (k(0), k(2)), (k(0), k(3))];
    assert_eq!(
        stitch_segments(&segs),
        vec![path(vec![(1, true), (0, false)], 1), path(vec![(2, false)], 0)]
    );
}

#[test]
fn a_closed_loop_is_one_path() {
    let segs = vec![(k(0), k(1)), (k(1), k(2)), (k(2), k(0))];
    assert_eq!(stitch_segments(&segs), vec![path(vec![(0, false), (1, false), (2, false)], 0)]);
}

#[test]
fn every_segment_is_taken_once_and_paths_are_chains() {
    let segs = vec![
        (k(3), k(4)),
        (k(9), k(8)),
        (k(4), k(5)),
        (k(1), k(2)),
        (k(8), k(7)),
        (k(2), k(3)),
        (k(5), k(1)),
    ];
    let ps = stitch_segments(&segs);
    let mut seen = vec![0; segs.len()];
    for p in &ps {
        for w in p.steps.windows(2) {
            let end = if w[0].1 { segs[w[0].0].0 } else { segs[w[0].0].1 };
            let start = if w[1].1 { segs[w[1].0].1 } else { segs[w[1].0].0 };
            assert_eq!(end, start);
        }
        for &(i, _) in &p.steps {
            seen[i] += 1;
        }
    }
    assert!(seen.iter().all(|&c| c == 1));
    assert_eq!(ps.len(), 2);
}
