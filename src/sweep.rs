use vstd::prelude::*;

use crate::interval::{DEAD_ZONE_END, DEAD_ZONE_START, Interval};

verus! {

/// One step of a sweep over a seam's domain: a half-open sub-range, and
/// whether it lies in the dead zone and so is skipped rather than checked.
#[derive(Debug, Clone, Copy, PartialEq, Eq, Structural, Hash)]
pub struct Segment {
    pub range: Interval,
    pub skipped: bool,
}

pub open spec fn in_dead_zone(x: int) -> bool {
    DEAD_ZONE_START <= x < DEAD_ZONE_END
}

pub open spec fn min_int(a: int, b: int) -> int {
    if a <= b {
        a
    } else {
        b
    }
}

pub open spec fn max_int(a: int, b: int) -> int {
    if a <= b {
        b
    } else {
        a
    }
}

/// Where the segment that starts at `start` ends, sweeping towards `end`, when
/// one segment length past `start` is `stepped`: a start in the dead zone runs to
/// the end of the zone; any other start advances to `stepped`, or at least to
/// the next representable value, and never crosses into the dead zone nor past
/// `end`.
pub open spec fn split_point(start: int, end: int, stepped: int) -> int {
    if in_dead_zone(start) {
        min_int(DEAD_ZONE_END as int, end)
    } else {
        let s = min_int(max_int(stepped, start + 1), end);
        if start < DEAD_ZONE_START && s > DEAD_ZONE_START {
            DEAD_ZONE_START as int
        } else {
            s
        }
    }
}

pub open spec fn segment_at(start: int, end: int, stepped: int) -> Segment {
    Segment {
        range: Interval {
            start: start as i32,
            end: split_point(start, end, stepped) as i32,
            closed: false,
        },
        skipped: in_dead_zone(start),
    }
}

/// `segments` cover `[start, end)` exactly, left to right: the first starts at
/// `start`, each ends where the next begins, the last ends at `end`, and none is
/// empty.
pub open spec fn partitions(segments: Seq<Segment>, start: int, end: int) -> bool {
    &&& segments.len() == 0 <==> start >= end
    &&& segments.len() > 0 ==> segments[0].range.start == start && segments.last().range.end
        == end
    &&& forall|i: int|
        0 <= i < segments.len() ==> !(#[trigger] segments[i]).range.closed
            && segments[i].range.start < segments[i].range.end
    &&& forall|i: int|
        0 <= i < segments.len() - 1 ==> (#[trigger] segments[i]).range.end == segments[i
            + 1].range.start
}

/// A segment is skipped exactly when it meets the dead zone `[-1, 1)`, and a
/// skipped segment lies wholly inside it.
pub open spec fn respects_dead_zone(segments: Seq<Segment>) -> bool {
    forall|i: int|
        0 <= i < segments.len() ==> ((#[trigger] segments[i]).skipped
            <==> segments[i].range.meets_dead_zone()) && (segments[i].skipped ==> DEAD_ZONE_START
            <= segments[i].range.start && segments[i].range.end <= DEAD_ZONE_END)
}

/// The segment that starts at `start`, sweeping towards `end`, where `stepped`
/// is one segment length past `start`.
pub fn next_segment(start: i32, end: i32, stepped: i32) -> (r: Segment)
    requires
        start < end,
    ensures
        r == segment_at(start as int, end as int, stepped as int),
        start < r.range.end <= end,
{
    if DEAD_ZONE_START <= start && start < DEAD_ZONE_END {
        let split = if DEAD_ZONE_END <= end {
            DEAD_ZONE_END
        } else {
            end
        };
        Segment { range: Interval { start, end: split, closed: false }, skipped: true }
    } else {
        let advanced = if stepped > start {
            stepped
        } else {
            start + 1
        };
        let mut split = if advanced <= end {
            advanced
        } else {
            end
        };
        if start < DEAD_ZONE_START && split > DEAD_ZONE_START {
            split = DEAD_ZONE_START;
        }
        Segment { range: Interval { start, end: split, closed: false }, skipped: false }
    }
}

/// The abstract state of a sweep plan.
pub struct PlannerView {
    pub origin: int,
    pub next: int,
    pub end: int,
    /// The segments planned so far.
    pub planned: Seq<Segment>,
}

impl PlannerView {
    /// The planned segments cover `[origin, next)` exactly and respect the dead
    /// zone, and `next` has not passed `end`.
    pub open spec fn wf(self) -> bool {
        &&& partitions(self.planned, self.origin, self.next)
        &&& respects_dead_zone(self.planned)
        &&& self.planned.len() > 0 ==> self.next <= self.end
        &&& self.planned.len() == 0 ==> self.next == self.origin
    }
}

/// Plans the segments of a sweep left to right, one at a time. Each step is
/// given where one segment length past the current start lands, which the
/// caller computes in floating point.
pub struct SegmentPlanner {
    next: i32,
    end: i32,
    origin: Ghost<int>,
    planned: Ghost<Seq<Segment>>,
}

impl View for SegmentPlanner {
    type V = PlannerView;

    closed spec fn view(&self) -> PlannerView {
        PlannerView {
            origin: self.origin@,
            next: self.next as int,
            end: self.end as int,
            planned: self.planned@,
        }
    }
}

impl SegmentPlanner {
    /// A plan for the half-open range `[start, end)`.
    pub fn new(start: i32, end: i32) -> (r: Self)
        ensures
            r@.wf(),
            r@.origin == start,
            r@.next == start,
            r@.end == end,
            r@.planned.len() == 0,
    {
        let r = SegmentPlanner {
            next: start,
            end,
            origin: Ghost(start as int),
            planned: Ghost(Seq::empty()),
        };
        r
    }

    /// Where the next segment starts, unless the plan is done.
    pub fn next_start(&self) -> (r: Option<i32>)
        ensures
            r == if self@.next < self@.end {
                Some(self@.next as i32)
            } else {
                None
            },
    {
        if self.next < self.end {
            Some(self.next)
        } else {
            None
        }
    }

    /// Plans the next segment, where `stepped` is one segment length past its
    /// start.
    pub fn advance(&mut self, stepped: i32) -> (r: Segment)
        requires
            old(self)@.wf(),
            old(self)@.next < old(self)@.end,
        ensures
            r == segment_at(old(self)@.next, old(self)@.end, stepped as int),
            final(self)@ == (PlannerView {
                next: r.range.end as int,
                planned: old(self)@.planned.push(r),
                ..old(self)@
            }),
            final(self)@.wf(),
    {
        let r = next_segment(self.next, self.end, stepped);
        proof {
            let old_planned = self.planned@;
            let planned = old_planned.push(r);
            if in_dead_zone(self.next as int) {
                assert(r.range.contains(self.next as int));
            } else if r.range.meets_dead_zone() {
                let x = choose|x: int| #[trigger]
                    r.range.contains(x) && DEAD_ZONE_START <= x < DEAD_ZONE_END;
                assert(false);
            }
            assert forall|i: int| 0 <= i < planned.len() - 1 implies (#[trigger] planned[i]).range.end
                == planned[i + 1].range.start by {
                assert(planned[i] == old_planned[i]);
                if i + 1 < old_planned.len() {
                    assert(planned[i + 1] == old_planned[i + 1]);
                }
            }
            assert forall|i: int| 0 <= i < planned.len() implies !(#[trigger] planned[i]).range.closed
                && planned[i].range.start < planned[i].range.end by {
                if i < old_planned.len() {
                    assert(planned[i] == old_planned[i]);
                }
            }
            assert forall|i: int| 0 <= i < planned.len() implies ((#[trigger] planned[i]).skipped
                <==> planned[i].range.meets_dead_zone()) && (planned[i].skipped ==> DEAD_ZONE_START
                <= planned[i].range.start && planned[i].range.end <= DEAD_ZONE_END) by {
                if i < old_planned.len() {
                    assert(planned[i] == old_planned[i]);
                }
            }
            self.planned = Ghost(planned);
        }
        self.next = r.range.end;
        r
    }
}

/// A finished plan covers its whole range exactly, left to right, and respects
/// the dead zone: so concatenating the planned segments gives back the swept
/// range with no gap and no overlap, and no segment that meets the dead zone is
/// handed to a check.
pub proof fn lemma_finished_plan_partitions(p: PlannerView)
    requires
        p.wf(),
        p.next >= p.end,
    ensures
        partitions(p.planned, p.origin, if p.origin <= p.end {
            p.end
        } else {
            p.origin
        }),
        respects_dead_zone(p.planned),
{
}

} // verus!
