use seam_checker::edge::{Edge, Orientation, ProjectedPoint, ProjectionAxis, WallNormal};
use seam_checker::interval::{bits_of_key, key_of_bits, key_of_int, next_representable, Interval};
use seam_checker::processor::{SeamOutput, SeamPoints, SeamProcessor, SeamRequest, DEFAULT_SEGMENT_LENGTH};
use seam_checker::progress::SeamProgress;
use seam_checker::seam::Seam;
use seam_checker::status::{PointFilter, RangeStatus};
use seam_checker::sweep::{next_segment, Segment, SegmentPlanner};

const CLEAN: RangeStatus = RangeStatus::Checked { has_gap: false, has_overlap: false };
const GAP: RangeStatus = RangeStatus::Checked { has_gap: true, has_overlap: false };

fn x_facing(positive: bool) -> WallNormal {
    WallNormal { x_dominant: true, x_positive: positive, z_nonpositive: true }
}

fn half_open(start: i32, end: i32) -> Interval {
    Interval { start, end, closed: false }
}

/// The order key of a float.
fn k(x: f32) -> i32 {
    key_of_bits(x.to_bits())
}

/// The half-open range between two floats, as keys.
fn hk(a: f32, b: f32) -> Interval {
    half_open(k(a), k(b))
}

/// The segments that sweep the remaining range of `progress`, stepping in
/// floating point as a worker does.
fn plan_of(progress: &SeamProgress) -> Vec<Segment> {
    let remaining = progress.remaining();
    let length = f32::from_bits(progress.segment_length());
    let mut planner = SegmentPlanner::new(remaining.start, remaining.end);
    let mut out = Vec::new();
    while let Some(start) = planner.next_start() {
        let stepped = f32::from_bits(bits_of_key(start)) + length;
        out.push(planner.advance(k(stepped)));
    }
    out
}

fn test_seam() -> Seam {
    Seam::between(([0, 0, 0], [0, 0, 100]), x_facing(true), ([0, 0, 100], [0, 0, 0]), x_facing(false))
        .unwrap()
}

#[test]
fn vertical_x_edge_projects_onto_z() {
    let normal = x_facing(true);
    assert_eq!(ProjectionAxis::of_wall(&normal), ProjectionAxis::X);
    assert_eq!(Orientation::of_wall(&normal), Orientation::Positive);
    let edge = Edge::new(([0, 0, 100], [0, 100, 100]), normal);
    assert_eq!(edge.projection_axis, ProjectionAxis::X);
    assert_eq!(edge.orientation, Orientation::Positive);
    assert_eq!(edge.vertex1, ProjectedPoint { w: 100, y: 0 });
    assert_eq!(edge.vertex2, ProjectedPoint { w: 100, y: 100 });
    assert!(edge.is_vertical());
}

#[test]
fn orientation_follows_normal_axis() {
    let z_wall = WallNormal { x_dominant: false, x_positive: true, z_nonpositive: false };
    assert_eq!(ProjectionAxis::of_wall(&z_wall), ProjectionAxis::Z);
    assert_eq!(Orientation::of_wall(&z_wall), Orientation::Negative);
    let z_wall2 = WallNormal { x_dominant: false, x_positive: false, z_nonpositive: true };
    assert_eq!(Orientation::of_wall(&z_wall2), Orientation::Positive);
    assert_eq!(Orientation::of_wall(&x_facing(false)), Orientation::Negative);
    assert_eq!(ProjectionAxis::X.name(), "x");
    assert_eq!(ProjectionAxis::Z.name(), "z");
}

#[test]
fn projection_keeps_the_other_coordinates() {
    let p = [1i16, 2, 3];
    assert_eq!(ProjectedPoint::project(p, ProjectionAxis::X), ProjectedPoint { w: 3, y: 2 });
    assert_eq!(ProjectedPoint::project(p, ProjectionAxis::Z), ProjectedPoint { w: 1, y: 2 });
    let px = ProjectedPoint::project(p, ProjectionAxis::X);
    assert_eq!([p[0], px.y, px.w], p);
    let pz = ProjectedPoint::project(p, ProjectionAxis::Z);
    assert_eq!([pz.w, pz.y, p[2]], p);
}

#[test]
fn edge_ranges_are_ordered() {
    let z_wall = WallNormal { x_dominant: false, x_positive: false, z_nonpositive: true };
    let edge = Edge::new(([50, 30, 7], [-20, -10, 7]), z_wall);
    assert!(!edge.is_vertical());
    assert_eq!(edge.w_range(), Interval { start: k(-20.0), end: k(50.0), closed: true });
    assert_eq!(edge.y_range(), Interval { start: k(-10.0), end: k(30.0), closed: true });
}

#[test]
fn interval_operations() {
    assert_eq!(Interval::inclusive(5, -3), Interval { start: -3, end: 5, closed: true });
    assert_eq!(Interval::inclusive_exclusive(5, -3), half_open(-3, 5));
    assert!(half_open(4, 4).is_empty());
    assert!(!Interval::inclusive(4, 4).is_empty());
    assert_eq!(Interval::inclusive(-3, 5).count(), 9);
    assert_eq!(half_open(-3, 5).count(), 8);
    assert_eq!(half_open(5, -3).count(), 0);
    let dead_zone = hk(-1.0, 1.0);
    let (left, right) = Interval::inclusive(k(-10.0), k(10.0)).cut_out(&dead_zone);
    assert_eq!(left, hk(-10.0, -1.0));
    assert_eq!(right, Interval { start: k(1.0), end: k(10.0), closed: true });
    let (left, right) = Interval::inclusive(k(3.0), k(10.0)).cut_out(&dead_zone);
    assert!(left.is_empty());
    assert_eq!(right, Interval { start: k(3.0), end: k(10.0), closed: true });
    assert_eq!(next_representable(-1), 0);
}

#[test]
fn sweep_of_symmetric_range() {
    let progress = SeamProgress::new(hk(-50.0, 50.0), 20.0f32.to_bits());
    let segments = plan_of(&progress);
    let expected = vec![
        Segment { range: hk(-50.0, -30.0), skipped: false },
        Segment { range: hk(-30.0, -10.0), skipped: false },
        Segment { range: hk(-10.0, -1.0), skipped: false },
        Segment { range: hk(-1.0, 1.0), skipped: true },
        Segment { range: hk(1.0, 21.0), skipped: false },
        Segment { range: hk(21.0, 41.0), skipped: false },
        Segment { range: hk(41.0, 50.0), skipped: false },
    ];
    assert_eq!(segments, expected);

    let mut progress = progress;
    for segment in &segments {
        progress.record_segment(*segment, CLEAN);
    }
    assert!(progress.is_complete());
    assert_eq!(
        progress.segments(),
        vec![
            (hk(-50.0, -1.0), CLEAN),
            (hk(-1.0, 1.0), RangeStatus::Skipped),
            (hk(1.0, 50.0), CLEAN),
            (hk(50.0, 50.0), RangeStatus::Unchecked),
        ]
    );
}

#[test]
fn segments_partition_the_range() {
    let cases = [(-50.0f32, 50.0f32, 20.0f32), (2.0, 2.0001, 0.0), (2.0, 97.0, 13.0), (-1000.0, -2.0, 333.0), (-1.0, 0.0, 5.0)];
    for (start, end, len) in cases {
        let segments = plan_of(&SeamProgress::new(hk(start, end), len.to_bits()));
        assert_eq!(segments[0].range.start, k(start));
        assert_eq!(segments[segments.len() - 1].range.end, k(end));
        for pair in segments.windows(2) {
            assert_eq!(pair[0].range.end, pair[1].range.start);
        }
        for s in &segments {
            assert!(s.range.start < s.range.end);
            let meets = s.range.start < k(1.0) && s.range.end > k(-1.0);
            assert_eq!(s.skipped, meets);
        }
    }
    // A zero step still advances one representable float at a time.
    let tiny = plan_of(&SeamProgress::new(hk(2.0, 2.0001), 0));
    assert_eq!(tiny.len() as i32, k(2.0001) - k(2.0));
    assert!(SegmentPlanner::new(k(5.0), k(5.0)).next_start().is_none());
}

#[test]
fn zero_segment_length_still_advances() {
    let next_float = f32::from_bits(10.0f32.to_bits() + 1);
    assert_eq!(
        next_segment(k(10.0), k(20.0), k(10.0)),
        Segment { range: half_open(k(10.0), k(next_float)), skipped: false }
    );
    assert_eq!(next_segment(k(-5.0), k(20.0), k(95.0)), Segment { range: hk(-5.0, -1.0), skipped: false });
    assert_eq!(next_segment(0, k(20.0), k(100.0)), Segment { range: hk(0.0, 1.0), skipped: true });
    assert_eq!(next_segment(k(-1.0), 0, k(99.0)), Segment { range: hk(-1.0, 0.0), skipped: true });
}

#[test]
fn integer_keys_match_float_bits() {
    for v in [0i16, 1, -1, 2, 3, 7, 100, -100, 255, 1000, -20, 12345, i16::MAX, i16::MIN] {
        assert_eq!(key_of_int(v), k(v as f32), "{v}");
    }
    assert_eq!(k(-0.0), 0);
    assert_eq!(bits_of_key(k(-3.5)), (-3.5f32).to_bits());
    assert_eq!(next_representable(k(1.0)), k(f32::from_bits(1.0f32.to_bits() + 1)));
}

#[test]
fn runs_merge_only_with_equal_status() {
    let mut progress = SeamProgress::new(Interval::inclusive(10, 59), 10);
    assert_eq!(progress.remaining(), half_open(10, 60));
    progress.complete_segment(half_open(10, 20), CLEAN);
    progress.complete_segment(half_open(20, 30), CLEAN);
    progress.complete_segment(half_open(30, 40), GAP);
    progress.complete_segment(half_open(40, 40), CLEAN);
    progress.complete_segment(half_open(40, 50), CLEAN);
    assert!(!progress.is_complete());
    assert_eq!(
        progress.segments(),
        vec![
            (half_open(10, 30), CLEAN),
            (half_open(30, 40), GAP),
            (half_open(40, 50), CLEAN),
            (half_open(50, 60), RangeStatus::Unchecked),
        ]
    );
}

#[test]
fn seam_requires_opposite_facing_overlapping_edges() {
    let seam = test_seam();
    assert_eq!(seam.w_range(), Interval { start: 0, end: k(100.0), closed: true });
    let same = Seam::between(([0, 0, 0], [0, 0, 100]), x_facing(true), ([0, 0, 100], [0, 0, 0]), x_facing(true));
    assert!(same.is_none());
    let apart = Seam::between(([0, 0, 0], [0, 0, 100]), x_facing(true), ([0, 0, 200], [0, 0, 100]), x_facing(false));
    assert!(apart.is_none());
    let z_wall = WallNormal { x_dominant: false, x_positive: false, z_nonpositive: false };
    let axes = Seam::between(([0, 0, 0], [0, 0, 100]), x_facing(true), ([0, 0, 100], [0, 0, 0]), z_wall);
    assert!(axes.is_none());
    let partial = Seam::between(([0, 0, 0], [0, 0, 100]), x_facing(true), ([0, 0, 150], [0, 0, 40]), x_facing(false))
        .unwrap();
    assert_eq!(partial.w_range(), Interval { start: k(40.0), end: k(100.0), closed: true });
}

#[test]
fn update_schedules_unchecked_seams() {
    let seam = test_seam();
    let mut processor = SeamProcessor::new();
    let mut queue = Vec::new();
    processor.set_active_seams(vec![seam], &mut queue);
    assert_eq!(processor.active_seams(), &[seam]);
    assert_eq!(queue, vec![SeamRequest::unfocused(seam, PointFilter::Unfiltered)]);
    assert_eq!(queue[0].segment_length, DEFAULT_SEGMENT_LENGTH);
    assert_eq!(processor.remaining_seams(), 1);

    // Pending work is not scheduled twice.
    processor.set_active_seams(vec![seam], &mut queue);
    assert_eq!(queue.len(), 1);

    // Work for a seam that disappeared is dropped.
    processor.set_active_seams(vec![], &mut queue);
    assert!(queue.is_empty());
}

#[test]
fn background_output_is_recorded() {
    let seam = test_seam();
    let mut processor = SeamProcessor::new();
    let mut queue = Vec::new();
    processor.set_active_seams(vec![seam], &mut queue);
    let request = queue[0];
    let mut progress = SeamProgress::new(request.w_range, request.segment_length);
    for segment in plan_of(&progress) {
        progress.record_segment(segment, CLEAN);
    }
    processor.receive(request, SeamOutput::Segments(progress));
    assert!(processor.seam_progress(&seam).is_complete());
    assert_eq!(processor.remaining_seams(), 0);

    // Stale outputs under another filter are ignored, whatever their shape.
    let stale = SeamRequest::unfocused(seam, PointFilter::Overlaps);
    processor.receive(stale, SeamOutput::Points(SeamPoints { points: vec![] }));
    assert!(processor.seam_progress(&seam).is_complete());
    let other = SeamRequest::unfocused(seam, PointFilter::Gaps);
    processor.receive(other, SeamOutput::Segments(SeamProgress::new(seam.w_range(), 20)));
    assert!(processor.seam_progress(&seam).is_complete());

    queue.clear();
    processor.set_active_seams(vec![seam], &mut queue);
    assert!(queue.is_empty());
}

#[test]
fn filter_change_restarts_all_progress() {
    let seam = test_seam();
    let mut processor = SeamProcessor::new();
    let mut queue = Vec::new();
    processor.set_active_seams(vec![seam], &mut queue);
    let request = queue[0];
    let mut progress = SeamProgress::new(request.w_range, request.segment_length);
    for segment in plan_of(&progress) {
        progress.record_segment(segment, GAP);
    }
    processor.receive(request, SeamOutput::Segments(progress));
    assert_eq!(processor.remaining_seams(), 0);

    processor.set_filter(PointFilter::Gaps, &mut queue);
    assert_eq!(processor.filter(), PointFilter::Gaps);
    assert!(queue.is_empty());
    let fresh = processor.seam_progress(&seam);
    assert_eq!(fresh.segments(), vec![(half_open(0, k(100.0) + 1), RangeStatus::Unchecked)]);
    assert_eq!(processor.remaining_seams(), 1);

    processor.set_active_seams(vec![seam], &mut queue);
    assert_eq!(queue, vec![SeamRequest::unfocused(seam, PointFilter::Gaps)]);
}

fn segments_of(output: &SeamOutput) -> Vec<(Interval, RangeStatus)> {
    match output {
        SeamOutput::Segments(p) => p.segments(),
        SeamOutput::Points(_) => panic!("expected segments"),
    }
}

#[test]
fn focused_query_is_idempotent() {
    let seam = test_seam();
    let mut processor = SeamProcessor::new();
    let mut queue = vec![SeamRequest::unfocused(seam, PointFilter::Unfiltered)];
    let range = hk(10.0, 30.0);
    let five = 5.0f32.to_bits();
    let first = processor.focused_seam_progress(&seam, range, five, &mut queue);
    let expected = SeamRequest::focused(seam, range, five, PointFilter::Unfiltered);
    assert_eq!(queue, vec![expected]);
    assert_eq!(segments_of(&first), vec![(range, RangeStatus::Unchecked)]);

    queue.push(SeamRequest::unfocused(seam, PointFilter::Unfiltered));
    let second = processor.focused_seam_progress(&seam, range, five, &mut queue);
    assert_eq!(segments_of(&second), segments_of(&first));
    assert_eq!(queue.len(), 2);

    // An output for the focused request is adopted.
    let mut progress = SeamProgress::new(range, five);
    for segment in plan_of(&progress) {
        progress.record_segment(segment, GAP);
    }
    processor.receive(expected, SeamOutput::Segments(progress));
    let third = processor.focused_seam_progress(&seam, range, five, &mut queue);
    assert_eq!(
        segments_of(&third),
        vec![(range, GAP), (hk(30.0, 30.0), RangeStatus::Unchecked)]
    );

    // A different focused request keeps what is known and replaces the queue.
    let wider = hk(0.0, 40.0);
    let fourth = processor.focused_seam_progress(&seam, wider, five, &mut queue);
    assert_eq!(segments_of(&fourth), segments_of(&third));
    assert_eq!(queue, vec![SeamRequest::focused(seam, wider, five, PointFilter::Unfiltered)]);

    // The old focused request is now stale.
    processor.receive(expected, SeamOutput::Segments(SeamProgress::new(range, five)));
    let fifth = processor.focused_seam_progress(&seam, wider, five, &mut queue);
    assert_eq!(segments_of(&fifth), segments_of(&third));
}

#[test]
fn focused_requests_record_points_below_limit() {
    let seam = test_seam();
    let focused = SeamRequest::focused(seam, half_open(0, 10), 1, PointFilter::Unfiltered);
    assert!(focused.records_points(500));
    assert!(!focused.records_points(501));
    assert!(!SeamRequest::unfocused(seam, PointFilter::Unfiltered).records_points(0));
}

#[test]
fn record_all_folds_in_order() {
    let mut progress = SeamProgress::new(hk(-5.0, 25.0), 10.0f32.to_bits());
    let segments = plan_of(&progress);
    assert_eq!(segments.len(), 5);
    let statuses = vec![GAP, CLEAN, CLEAN, CLEAN, CLEAN];
    let snapshots = progress.record_all(&segments, &statuses);
    assert_eq!(snapshots.len(), 5);
    assert_eq!(
        snapshots[0].segments(),
        vec![(hk(-5.0, -1.0), GAP), (hk(-1.0, 25.0), RangeStatus::Unchecked)]
    );
    assert_eq!(
        snapshots[1].segments(),
        vec![
            (hk(-5.0, -1.0), GAP),
            (hk(-1.0, 1.0), RangeStatus::Skipped),
            (hk(1.0, 25.0), RangeStatus::Unchecked),
        ]
    );
    assert!(progress.is_complete());
    assert_eq!(
        progress.segments(),
        vec![
            (hk(-5.0, -1.0), GAP),
            (hk(-1.0, 1.0), RangeStatus::Skipped),
            (hk(1.0, 25.0), CLEAN),
            (hk(25.0, 25.0), RangeStatus::Unchecked),
        ]
    );
    assert_eq!(snapshots[4].segments(), progress.segments());
}
