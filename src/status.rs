use vstd::prelude::*;

verus! {

/// What is known of a sub-range of a seam's domain.
#[derive(Debug, Clone, Copy, PartialEq, Eq, Structural, Hash)]
pub enum RangeStatus {
    Unchecked,
    /// Deliberately left out of checking (the dead zone).
    Skipped,
    Checked { has_gap: bool, has_overlap: bool },
}

/// The classification of one sampled point of a seam.
#[derive(Debug, Clone, Copy, PartialEq, Eq, Structural, Hash)]
pub enum PointStatus {
    /// Nothing of note at this point.
    Clean,
    Gap,
    Overlap,
}

/// Which points a seam check reports as interesting.
#[derive(Debug, Clone, Copy, PartialEq, Eq, Structural, Hash)]
pub enum PointFilter {
    /// Every gap and overlap is reported.
    Unfiltered,
    Gaps,
    Overlaps,
}

/// How a point is classified from whether each edge of its seam accepts it:
/// rejected by both is a gap, accepted by both an overlap, unless the filter
/// leaves that kind out.
pub open spec fn classify_spec(accepted1: bool, accepted2: bool, filter: PointFilter) -> PointStatus {
    if !accepted1 && !accepted2 && filter != PointFilter::Overlaps {
        PointStatus::Gap
    } else if accepted1 && accepted2 && filter != PointFilter::Gaps {
        PointStatus::Overlap
    } else {
        PointStatus::Clean
    }
}

pub fn classify_point(accepted1: bool, accepted2: bool, filter: PointFilter) -> (r: PointStatus)
    ensures
        r == classify_spec(accepted1, accepted2, filter),
{
    if !accepted1 && !accepted2 && filter != PointFilter::Overlaps {
        PointStatus::Gap
    } else if accepted1 && accepted2 && filter != PointFilter::Gaps {
        PointStatus::Overlap
    } else {
        PointStatus::Clean
    }
}

/// The number of points among `points` that are not clean.
pub open spec fn interesting_count(points: Seq<PointStatus>) -> nat
    decreases points.len(),
{
    if points.len() == 0 {
        0
    } else {
        interesting_count(points.drop_last()) + if points.last() == PointStatus::Clean {
            0nat
        } else {
            1nat
        }
    }
}

/// The status of a checked range from the statuses of its points, with the
/// number of interesting points: it has a gap, or an overlap, exactly when one
/// of its points does.
pub fn summarize_points(points: &Vec<PointStatus>) -> (r: (usize, RangeStatus))
    ensures
        r.0 == interesting_count(points@),
        r.1 == (RangeStatus::Checked {
            has_gap: points@.contains(PointStatus::Gap),
            has_overlap: points@.contains(PointStatus::Overlap),
        }),
{
    let mut count: usize = 0;
    let mut has_gap = false;
    let mut has_overlap = false;
    let mut i: usize = 0;
    while i < points.len()
        invariant
            i <= points.len(),
            count == interesting_count(points@.subrange(0, i as int)),
            count <= i,
            has_gap == points@.subrange(0, i as int).contains(PointStatus::Gap),
            has_overlap == points@.subrange(0, i as int).contains(PointStatus::Overlap),
        decreases points.len() - i,
    {
        let ghost before = points@.subrange(0, i as int);
        let ghost after = points@.subrange(0, i as int + 1);
        proof {
            assert(after.drop_last() =~= before);
            assert(after =~= before.push(points@[i as int]));
            if before.contains(PointStatus::Gap) {
                let k = choose|k: int| 0 <= k < before.len() && before[k] == PointStatus::Gap;
                assert(after[k] == PointStatus::Gap);
            }
            if before.contains(PointStatus::Overlap) {
                let k = choose|k: int| 0 <= k < before.len() && before[k] == PointStatus::Overlap;
                assert(after[k] == PointStatus::Overlap);
            }
            if after.contains(PointStatus::Gap) && points@[i as int] != PointStatus::Gap {
                let k = choose|k: int| 0 <= k < after.len() && after[k] == PointStatus::Gap;
                assert(before[k] == PointStatus::Gap);
            }
            if after.contains(PointStatus::Overlap) && points@[i as int] != PointStatus::Overlap {
                let k = choose|k: int| 0 <= k < after.len() && after[k] == PointStatus::Overlap;
                assert(before[k] == PointStatus::Overlap);
            }
            if points@[i as int] == PointStatus::Gap {
                assert(after[i as int] == PointStatus::Gap);
            }
            if points@[i as int] == PointStatus::Overlap {
                assert(after[i as int] == PointStatus::Overlap);
            }
        }
        match points[i] {
            PointStatus::Gap => {
                count = count + 1;
                has_gap = true;
            },
            PointStatus::Overlap => {
                count = count + 1;
                has_overlap = true;
            },
            PointStatus::Clean => {},
        }
        i = i + 1;
    }
    assert(points@.subrange(0, i as int) =~= points@);
    (count, RangeStatus::Checked { has_gap, has_overlap })
}

} // verus!
