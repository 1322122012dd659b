use seam_checker::status::{classify_point, summarize_points, PointFilter, PointStatus, RangeStatus};

#[test]
fn points_rejected_by_both_edges_are_gaps() {
    assert_eq!(classify_point(false, false, PointFilter::Unfiltered), PointStatus::Gap);
    assert_eq!(classify_point(false, false, PointFilter::Gaps), PointStatus::Gap);
    assert_eq!(classify_point(false, false, PointFilter::Overlaps), PointStatus::Clean);
}

#[test]
fn points_accepted_by_both_edges_are_overlaps() {
    assert_eq!(classify_point(true, true, PointFilter::Unfiltered), PointStatus::Overlap);
    assert_eq!(classify_point(true, true, PointFilter::Overlaps), PointStatus::Overlap);
    assert_eq!(classify_point(true, true, PointFilter::Gaps), PointStatus::Clean);
}

#[test]
fn points_accepted_by_one_edge_are_clean() {
    assert_eq!(classify_point(true, false, PointFilter::Unfiltered), PointStatus::Clean);
    assert_eq!(classify_point(false, true, PointFilter::Unfiltered), PointStatus::Clean);
}

#[test]
fn range_summary_counts_interesting_points() {
    let points = vec![PointStatus::Clean, PointStatus::Gap, PointStatus::Clean, PointStatus::Gap];
    assert_eq!(
        summarize_points(&points),
        (2, RangeStatus::Checked { has_gap: true, has_overlap: false })
    );
    let mixed = vec![PointStatus::Overlap, PointStatus::Gap];
    assert_eq!(
        summarize_points(&mixed),
        (2, RangeStatus::Checked { has_gap: true, has_overlap: true })
    );
    assert_eq!(
        summarize_points(&vec![]),
        (0, RangeStatus::Checked { has_gap: false, has_overlap: false })
    );
}
