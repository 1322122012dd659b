use vstd::prelude::*;

use crate::interval::Interval;
use crate::status::RangeStatus;
use crate::sweep::{partitions, Segment};

verus! {

/// The abstract state of a seam's sweep.
pub struct ProgressView {
    pub segment_length: nat,
    /// Where the sweep began.
    pub origin: int,
    /// The resolved runs, left to right.
    pub complete: Seq<(Interval, RangeStatus)>,
    /// The half-open range still to be swept.
    pub remaining: Interval,
}

impl ProgressView {
    /// The runs are non-empty half-open ranges that start at the origin, follow
    /// one another without gap or overlap up to the start of the remaining range,
    /// carry a resolved status, and no two neighbours share a status.
    pub open spec fn wf(self) -> bool {
        &&& !self.remaining.closed
        &&& self.complete.len() == 0 ==> self.remaining.start == self.origin
        &&& self.complete.len() > 0 ==> self.complete[0].0.start == self.origin
            && self.complete.last().0.end == self.remaining.start
        &&& forall|i: int|
            0 <= i < self.complete.len() ==> !(#[trigger] self.complete[i]).0.closed
                && self.complete[i].0.start < self.complete[i].0.end && self.complete[i].1
                != RangeStatus::Unchecked
        &&& forall|i: int|
            0 <= i < self.complete.len() - 1 ==> (#[trigger] self.complete[i]).0.end
                == self.complete[i + 1].0.start && self.complete[i].1 != self.complete[i + 1].1
    }

    /// The state after the half-open `range`, which starts where the remaining
    /// range starts, is resolved with `status`: it extends the last run when that
    /// run has the same status, and otherwise becomes a run of its own.
    pub open spec fn record(self, range: Interval, status: RangeStatus) -> ProgressView {
        if range.start >= range.end {
            self
        } else {
            let complete = if self.complete.len() > 0 && self.complete.last().1 == status {
                self.complete.update(
                    self.complete.len() - 1,
                    (
                        Interval {
                            start: self.complete.last().0.start,
                            end: range.end,
                            closed: false,
                        },
                        status,
                    ),
                )
            } else {
                self.complete.push((range, status))
            };
            ProgressView {
                complete,
                remaining: Interval { start: range.end, ..self.remaining },
                ..self
            }
        }
    }

    pub open spec fn is_complete(self) -> bool {
        self.remaining.is_empty_spec()
    }
}

/// The progress of a sweep of `range` that has not started yet.
pub open spec fn fresh_progress(range: Interval, segment_length: u32) -> ProgressView {
    ProgressView {
        segment_length: segment_length as nat,
        origin: range.start as int,
        complete: seq![],
        remaining: SeamProgress::half_open(range),
    }
}

/// The status a planned segment is recorded with: skipped in the dead zone,
/// otherwise what its check gave.
pub open spec fn status_for(segment: Segment, checked: RangeStatus) -> RangeStatus {
    if segment.skipped {
        RangeStatus::Skipped
    } else {
        checked
    }
}

/// The state after the first `k` segments are recorded in order, each with its
/// status.
pub open spec fn recorded(
    p: ProgressView,
    segments: Seq<Segment>,
    statuses: Seq<RangeStatus>,
    k: nat,
) -> ProgressView
    decreases k,
{
    if k == 0 {
        p
    } else {
        recorded(p, segments, statuses, (k - 1) as nat).record(
            segments[k - 1].range,
            status_for(segments[k - 1], statuses[k - 1]),
        )
    }
}

/// The runs of a well-formed progress state are sorted: every run ends no later
/// than any run after it starts, and all of them lie between the origin and the
/// remaining range.
pub proof fn lemma_runs_sorted(p: ProgressView)
    requires
        p.wf(),
    ensures
        forall|i: int, j: int|
            0 <= i < j < p.complete.len() ==> (#[trigger] p.complete[i]).0.end <= (#[trigger] p.complete[j]).0.start,
        forall|i: int|
            0 <= i < p.complete.len() ==> p.origin <= (#[trigger] p.complete[i]).0.start
                && p.complete[i].0.end <= p.remaining.start,
{
    assert forall|i: int, j: int| 0 <= i < j < p.complete.len() implies (#[trigger] p.complete[i]).0.end
        <= (#[trigger] p.complete[j]).0.start by {
        lemma_runs_ordered_from(p, i, j);
    }
    assert forall|i: int| 0 <= i < p.complete.len() implies p.origin <= (
    #[trigger] p.complete[i]).0.start && p.complete[i].0.end <= p.remaining.start by {
        if i > 0 {
            lemma_runs_ordered_from(p, 0, i);
        }
        if i < p.complete.len() - 1 {
            lemma_runs_ordered_from(p, i, p.complete.len() - 1);
        }
    }
}

proof fn lemma_runs_ordered_from(p: ProgressView, i: int, j: int)
    requires
        p.wf(),
        0 <= i < j < p.complete.len(),
    ensures
        p.complete[i].0.end <= p.complete[j].0.start,
    decreases j - i,
{
    if j > i + 1 {
        lemma_runs_ordered_from(p, i + 1, j);
        assert(p.complete[i + 1].0.start < p.complete[i + 1].0.end);
    }
    assert(p.complete[i].0.end == p.complete[i + 1].0.start);
}

/// Recording a resolved range keeps a progress state well formed.
pub proof fn lemma_record_preserves_wf(p: ProgressView, range: Interval, status: RangeStatus)
    requires
        p.wf(),
        !range.closed,
        range.start == p.remaining.start,
        status != RangeStatus::Unchecked,
    ensures
        p.record(range, status).wf(),
{
    let q = p.record(range, status);
    if range.start < range.end {
        if p.complete.len() > 0 && p.complete.last().1 == status {
            assert forall|i: int| 0 <= i < q.complete.len() - 1 implies (#[trigger] q.complete[i]).0.end
                == q.complete[i + 1].0.start && q.complete[i].1 != q.complete[i + 1].1 by {
                assert(q.complete[i] == p.complete[i]);
            }
            assert forall|i: int| 0 <= i < q.complete.len() implies !(#[trigger] q.complete[i]).0.closed
                && q.complete[i].0.start < q.complete[i].0.end && q.complete[i].1
                != RangeStatus::Unchecked by {
                if i < q.complete.len() - 1 {
                    assert(q.complete[i] == p.complete[i]);
                }
            }
        } else {
            assert forall|i: int| 0 <= i < q.complete.len() - 1 implies (#[trigger] q.complete[i]).0.end
                == q.complete[i + 1].0.start && q.complete[i].1 != q.complete[i + 1].1 by {
                assert(q.complete[i] == p.complete[i]);
            }
            assert forall|i: int| 0 <= i < q.complete.len() implies !(#[trigger] q.complete[i]).0.closed
                && q.complete[i].0.start < q.complete[i].0.end && q.complete[i].1
                != RangeStatus::Unchecked by {
                if i < q.complete.len() - 1 {
                    assert(q.complete[i] == p.complete[i]);
                }
            }
        }
    }
}

fn copy_runs(runs: &Vec<(Interval, RangeStatus)>) -> (r: Vec<(Interval, RangeStatus)>)
    ensures
        r@ == runs@,
{
    let mut r: Vec<(Interval, RangeStatus)> = Vec::new();
    let mut i: usize = 0;
    while i < runs.len()
        invariant
            i <= runs.len(),
            r@ == runs@.subrange(0, i as int),
        decreases runs.len() - i,
    {
        r.push(runs[i]);
        i = i + 1;
        assert(r@ =~= runs@.subrange(0, i as int));
    }
    assert(r@ =~= runs@);
    r
}

/// The incremental sweep state of one seam: the resolved runs in run-length
/// form, and the range still to be swept.
#[derive(Clone)]
pub struct SeamProgress {
    segment_length: u32,
    complete: Vec<(Interval, RangeStatus)>,
    remaining: Interval,
    origin: Ghost<int>,
}

impl View for SeamProgress {
    type V = ProgressView;

    closed spec fn view(&self) -> ProgressView {
        ProgressView {
            segment_length: self.segment_length as nat,
            origin: self.origin@,
            complete: self.complete@,
            remaining: self.remaining,
        }
    }
}

impl SeamProgress {
    /// The half-open range that holds the same floats as `range`.
    pub open spec fn half_open(range: Interval) -> Interval {
        Interval {
            start: range.start,
            end: if range.closed && range.start <= range.end {
                (range.end + 1) as i32
            } else {
                range.end
            },
            closed: false,
        }
    }

    /// A sweep of `range` that has not started yet.
    pub fn new(range: Interval, segment_length: u32) -> (r: Self)
        requires
            range.closed ==> range.end < i32::MAX,
        ensures
            r@ == fresh_progress(range, segment_length),
            r@.wf(),
    {
        let end = if range.closed && range.start <= range.end {
            range.end + 1
        } else {
            range.end
        };
        let r = SeamProgress {
            segment_length,
            complete: Vec::new(),
            remaining: Interval { start: range.start, end, closed: false },
            origin: Ghost(range.start as int),
        };
        assert(r@.complete =~= seq![]);
        r
    }

    /// A copy of this state.
    pub fn snapshot(&self) -> (r: Self)
        ensures
            r@ == self@,
    {
        let complete = copy_runs(&self.complete);
        SeamProgress {
            segment_length: self.segment_length,
            complete,
            remaining: self.remaining,
            origin: Ghost(self.origin@),
        }
    }

    pub fn segment_length(&self) -> (r: u32)
        ensures
            r == self@.segment_length,
    {
        self.segment_length
    }

    /// The range still to be swept.
    pub fn remaining(&self) -> (r: Interval)
        ensures
            r == self@.remaining,
    {
        self.remaining
    }

    /// Every run, resolved ones first, then the remaining range as unchecked.
    pub fn segments(&self) -> (r: Vec<(Interval, RangeStatus)>)
        ensures
            r@ == self@.complete.push((self@.remaining, RangeStatus::Unchecked)),
    {
        let mut r = copy_runs(&self.complete);
        r.push((self.remaining, RangeStatus::Unchecked));
        r
    }

    pub fn is_complete(&self) -> (r: bool)
        ensures
            r == self@.is_complete(),
    {
        self.remaining.is_empty()
    }

    /// Resolves the half-open `range`, which starts where the remaining range
    /// starts, with `status`.
    pub fn complete_segment(&mut self, range: Interval, status: RangeStatus)
        requires
            old(self)@.wf(),
            !range.closed,
            range.start == old(self)@.remaining.start,
            status != RangeStatus::Unchecked,
        ensures
            final(self)@ == old(self)@.record(range, status),
            final(self)@.wf(),
    {
        proof {
            lemma_record_preserves_wf(self@, range, status);
        }
        if range.start < range.end {
            let n = self.complete.len();
            if n > 0 && self.complete[n - 1].1 == status {
                let merged = Interval { start: self.complete[n - 1].0.start, end: range.end, closed: false };
                self.complete.set(n - 1, (merged, status));
            } else {
                self.complete.push((range, status));
            }
            self.remaining = Interval { start: range.end, end: self.remaining.end, closed: false };
        }
    }

    /// Records the checked statuses of segments that cover the remaining range,
    /// left to right,
    /// giving the state after each one.
    pub fn record_all(&mut self, segments: &Vec<Segment>, statuses: &Vec<RangeStatus>) -> (r: Vec<
        SeamProgress,
    >)
        requires
            old(self)@.wf(),
            partitions(segments@, old(self)@.remaining.start as int, old(self)@.remaining.end as int),
            statuses@.len() == segments@.len(),
            forall|i: int| 0 <= i < statuses@.len() ==> statuses@[i] != RangeStatus::Unchecked,
        ensures
            final(self)@ == recorded(old(self)@, segments@, statuses@, segments@.len()),
            final(self)@.wf(),
            final(self)@.is_complete(),
            r@.len() == segments@.len(),
            forall|k: int| 0 <= k < r@.len() ==> (#[trigger] r@[k])@.wf(),
            forall|k: int|
                0 <= k < r@.len() ==> (#[trigger] r@[k])@ == recorded(
                    old(self)@,
                    segments@,
                    statuses@,
                    (k + 1) as nat,
                ),
    {
        let ghost p0 = self@;
        let mut snapshots: Vec<SeamProgress> = Vec::new();
        let mut i: usize = 0;
        while i < segments.len()
            invariant
                i <= segments@.len() == statuses@.len(),
                partitions(segments@, p0.remaining.start as int, p0.remaining.end as int),
                forall|j: int| 0 <= j < statuses@.len() ==> statuses@[j] != RangeStatus::Unchecked,
                forall|j: int|
                    0 <= j < segments@.len() ==> !(#[trigger] segments@[j]).range.closed
                        && segments@[j].range.start < segments@[j].range.end,
                forall|j: int|
                    0 <= j < segments@.len() - 1 ==> (#[trigger] segments@[j]).range.end
                        == segments@[j + 1].range.start,
                segments@.len() > 0 ==> segments@[0].range.start == p0.remaining.start,
                segments@.len() > 0 ==> segments@.last().range.end == p0.remaining.end,
                segments@.len() == 0 ==> p0.remaining.start >= p0.remaining.end,
                self@ == recorded(p0, segments@, statuses@, i as nat),
                self@.wf(),
                self@.remaining.end == p0.remaining.end,
                i < segments@.len() ==> self@.remaining.start == segments@[i as int].range.start,
                i == segments@.len() && i > 0 ==> self@.remaining.start
                    == segments@.last().range.end,
                i == 0 ==> self@.remaining.start == p0.remaining.start,
                snapshots@.len() == i,
                forall|k: int| 0 <= k < i ==> (#[trigger] snapshots@[k])@.wf(),
                forall|k: int|
                    0 <= k < i ==> (#[trigger] snapshots@[k])@ == recorded(
                        p0,
                        segments@,
                        statuses@,
                        (k + 1) as nat,
                    ),
            decreases segments.len() - i,
        {
            self.record_segment(segments[i], statuses[i]);
            snapshots.push(self.snapshot());
            i = i + 1;
        }
        snapshots
    }

    /// Resolves a planned segment: a skipped one as skipped, any other with the
    /// status its check gave.
    pub fn record_segment(&mut self, segment: Segment, checked: RangeStatus)
        requires
            old(self)@.wf(),
            !segment.range.closed,
            segment.range.start == old(self)@.remaining.start,
            checked != RangeStatus::Unchecked,
        ensures
            final(self)@ == old(self)@.record(
                segment.range,
                if segment.skipped {
                    RangeStatus::Skipped
                } else {
                    checked
                },
            ),
            final(self)@.wf(),
    {
        let status = if segment.skipped {
            RangeStatus::Skipped
        } else {
            checked
        };
        self.complete_segment(segment.range, status);
    }
}

} // verus!
