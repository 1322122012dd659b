use vstd::prelude::*;

use crate::edge::ProjectedPoint;
use crate::interval::Interval;
use crate::progress::{fresh_progress, ProgressView, SeamProgress};
use crate::seam::Seam;
use crate::status::{PointFilter, PointStatus};
use crate::walls::{all_seams, find_seams, Wall};

verus! {

/// The segment length of background sweeps: the bit pattern of the float 20.0.
pub const DEFAULT_SEGMENT_LENGTH: u32 = 0x41a0_0000;

/// Above this many interesting points a focused sweep reports runs rather than
/// individual points.
pub const MAX_POINTS_RECORDED_INDIVIDUALLY: usize = 500;

/// Relies on `std::time::Instant::now`: the current time of the monotonic
/// clock, of which nothing is promised.
#[verifier::external_body]
fn now() -> (r: std::time::Instant) {
    std::time::Instant::now()
}

/// One unit of scheduled work. Two requests are the same request exactly when
/// all their fields are equal.
#[derive(Debug, Clone, Copy, PartialEq, Eq, Structural, Hash)]
pub struct SeamRequest {
    pub seam: Seam,
    pub w_range: Interval,
    pub segment_length: u32,
    pub is_focused: bool,
    pub filter: PointFilter,
}

impl SeamRequest {
    pub open spec fn unfocused_spec(seam: Seam, filter: PointFilter) -> SeamRequest {
        SeamRequest {
            seam,
            w_range: seam.w_range_spec(),
            segment_length: DEFAULT_SEGMENT_LENGTH,
            is_focused: false,
            filter,
        }
    }

    pub open spec fn focused_spec(
        seam: Seam,
        w_range: Interval,
        segment_length: u32,
        filter: PointFilter,
    ) -> SeamRequest {
        SeamRequest { seam, w_range, segment_length, is_focused: true, filter }
    }

    /// A background request that sweeps the whole seam.
    pub fn unfocused(seam: Seam, filter: PointFilter) -> (r: Self)
        ensures
            r == Self::unfocused_spec(seam, filter),
    {
        let w_range = seam.w_range();
        SeamRequest {
            seam,
            w_range,
            segment_length: DEFAULT_SEGMENT_LENGTH,
            is_focused: false,
            filter,
        }
    }

    /// An interactive request over the given range.
    pub fn focused(seam: Seam, w_range: Interval, segment_length: u32, filter: PointFilter) -> (r:
        Self)
        ensures
            r == Self::focused_spec(seam, w_range, segment_length, filter),
    {
        SeamRequest { seam, w_range, segment_length, is_focused: true, filter }
    }

    /// Whether a sweep for this request that found `num_interesting_points`
    /// reports individual points rather than runs.
    pub fn records_points(&self, num_interesting_points: usize) -> (r: bool)
        ensures
            r == (self.is_focused && num_interesting_points <= MAX_POINTS_RECORDED_INDIVIDUALLY),
    {
        self.is_focused && num_interesting_points <= MAX_POINTS_RECORDED_INDIVIDUALLY
    }
}

/// Individually sampled points of a seam, with each coordinate held as the bit
/// pattern of a 32-bit float.
#[derive(Debug, Clone)]
pub struct SeamPoints {
    pub points: Vec<(ProjectedPoint<u32>, PointStatus)>,
}

/// What a sweep reports.
#[derive(Clone)]
pub enum SeamOutput {
    Points(SeamPoints),
    Segments(SeamProgress),
}

pub enum OutputView {
    Points(Seq<(ProjectedPoint<u32>, PointStatus)>),
    Segments(ProgressView),
}

impl View for SeamOutput {
    type V = OutputView;

    open spec fn view(&self) -> OutputView {
        match self {
            SeamOutput::Points(p) => OutputView::Points(p.points@),
            SeamOutput::Segments(p) => OutputView::Segments(p@),
        }
    }
}

impl SeamOutput {
    /// A copy of this output.
    pub fn snapshot(&self) -> (r: Self)
        ensures
            r@ == self@,
    {
        match self {
            SeamOutput::Points(p) => {
                let mut points: Vec<(ProjectedPoint<u32>, PointStatus)> = Vec::new();
                let mut i: usize = 0;
                while i < p.points.len()
                    invariant
                        i <= p.points.len(),
                        points@ == p.points@.subrange(0, i as int),
                    decreases p.points.len() - i,
                {
                    points.push(p.points[i]);
                    i = i + 1;
                    assert(points@ =~= p.points@.subrange(0, i as int));
                }
                assert(points@ =~= p.points@);
                SeamOutput::Points(SeamPoints { points })
            },
            SeamOutput::Segments(p) => SeamOutput::Segments(p.snapshot()),
        }
    }
}

/// The progress recorded for `seam`: the last entry for it.
pub open spec fn lookup(entries: Seq<(Seam, ProgressView)>, seam: Seam) -> Option<ProgressView>
    decreases entries.len(),
{
    if entries.len() == 0 {
        None
    } else if entries.last().0 == seam {
        Some(entries.last().1)
    } else {
        lookup(entries.drop_last(), seam)
    }
}

/// The requests of `queue` whose seam is still among `active`, in order.
pub open spec fn retained(queue: Seq<SeamRequest>, active: Seq<Seam>) -> Seq<SeamRequest>
    decreases queue.len(),
{
    if queue.len() == 0 {
        seq![]
    } else {
        let prev = retained(queue.drop_last(), active);
        if active.contains(queue.last().seam) {
            prev.push(queue.last())
        } else {
            prev
        }
    }
}

/// A background request for each seam of `seams` that has no recorded progress,
/// in order.
pub open spec fn unfocused_for(
    entries: Seq<(Seam, ProgressView)>,
    seams: Seq<Seam>,
    filter: PointFilter,
) -> Seq<SeamRequest>
    decreases seams.len(),
{
    if seams.len() == 0 {
        seq![]
    } else {
        let prev = unfocused_for(entries, seams.drop_last(), filter);
        if lookup(entries, seams.last()) is None {
            prev.push(SeamRequest::unfocused_spec(seams.last(), filter))
        } else {
            prev
        }
    }
}

/// The abstract state of the engine.
pub struct ProcessorView {
    /// The seams found in the current wall geometry.
    pub active: Seq<Seam>,
    /// Background progress per seam.
    pub progress: Seq<(Seam, ProgressView)>,
    /// The current focused request and what is known of it.
    pub focused: Option<(SeamRequest, OutputView)>,
    pub filter: PointFilter,
}

impl ProcessorView {
    /// Each seam has at most one progress entry, and each entry is a well-formed
    /// sweep that starts where the seam's domain starts.
    pub open spec fn wf(self) -> bool {
        &&& forall|i: int|
            0 <= i < self.progress.len() ==> (#[trigger] self.progress[i]).1.wf()
                && self.progress[i].1.origin == self.progress[i].0.w_range_spec().start
        &&& forall|i: int, j: int|
            0 <= i < j < self.progress.len() ==> (#[trigger] self.progress[i]).0 != (
            #[trigger] self.progress[j]).0
    }

    /// The progress of `seam`: what was recorded, or else a sweep of its whole
    /// domain that has not started.
    pub open spec fn progress_of(self, seam: Seam) -> ProgressView {
        match lookup(self.progress, seam) {
            Some(p) => p,
            None => fresh_progress(seam.w_range_spec(), DEFAULT_SEGMENT_LENGTH),
        }
    }

    /// The number of seams among `seams` whose sweep is not complete.
    pub open spec fn incomplete_count(self, seams: Seq<Seam>) -> nat
        decreases seams.len(),
    {
        if seams.len() == 0 {
            0
        } else {
            self.incomplete_count(seams.drop_last()) + if self.progress_of(
                seams.last(),
            ).is_complete() {
                0nat
            } else {
                1nat
            }
        }
    }

    /// The focused query for `seam` over `w_range` in steps of `segment_length`:
    /// the state after it, what it returns, and whether it replaces the queue
    /// with its request. A repeated query returns what is known; a new one
    /// starts from what is known of the same seam, or from nothing.
    pub open spec fn focused_query(
        self,
        seam: Seam,
        w_range: Interval,
        segment_length: u32,
    ) -> (ProcessorView, OutputView, bool) {
        let request = SeamRequest::focused_spec(seam, w_range, segment_length, self.filter);
        let known = match self.focused {
            Some(f) => if f.0.seam == seam {
                f.1
            } else {
                OutputView::Segments(fresh_progress(w_range, segment_length))
            },
            None => OutputView::Segments(fresh_progress(w_range, segment_length)),
        };
        match self.focused {
            Some(f) => if f.0 == request {
                (self, known, false)
            } else {
                (ProcessorView { focused: Some((request, known)), ..self }, known, true)
            },
            None => (ProcessorView { focused: Some((request, known)), ..self }, known, true),
        }
    }

    /// The state after a change of filter: all progress is dropped.
    pub open spec fn with_filter(self, filter: PointFilter) -> ProcessorView {
        ProcessorView { progress: seq![], focused: None, filter, ..self }
    }
}

/// Asking the focused query twice in a row with the same seam, range and
/// segment length, with no sweep output in between, gives the same answer and
/// leaves the state and the queue as the first query left them.
pub proof fn lemma_focused_query_idempotent(
    v: ProcessorView,
    seam: Seam,
    w_range: Interval,
    segment_length: u32,
)
    ensures
        ({
            let (v1, o1, _) = v.focused_query(seam, w_range, segment_length);
            let (v2, o2, replaced) = v1.focused_query(seam, w_range, segment_length);
            v2 == v1 && o2 == o1 && !replaced
        }),
{
}

/// After a change of filter every seam's progress starts over: none is
/// recorded, and the next refresh, finding the queue empty, schedules a
/// background request under the new filter for every active seam.
pub proof fn lemma_filter_change_restarts(v: ProcessorView, filter: PointFilter, seam: Seam)
    ensures
        v.with_filter(filter).progress_of(seam) == fresh_progress(
            seam.w_range_spec(),
            DEFAULT_SEGMENT_LENGTH,
        ),
        v.with_filter(filter).focused is None,
        unfocused_for(v.with_filter(filter).progress, v.active, filter).len() == v.active.len(),
        forall|i: int|
            0 <= i < v.active.len() ==> #[trigger] unfocused_for(
                v.with_filter(filter).progress,
                v.active,
                filter,
            )[i] == SeamRequest::unfocused_spec(v.active[i], filter),
{
    lemma_unfocused_for_all(v.active, filter);
}

proof fn lemma_unfocused_for_all(seams: Seq<Seam>, filter: PointFilter)
    ensures
        unfocused_for(seq![], seams, filter).len() == seams.len(),
        forall|i: int|
            0 <= i < seams.len() ==> #[trigger] unfocused_for(seq![], seams, filter)[i]
                == SeamRequest::unfocused_spec(seams[i], filter),
    decreases seams.len(),
{
    if seams.len() > 0 {
        lemma_unfocused_for_all(seams.drop_last(), filter);
        let prev = unfocused_for(seq![], seams.drop_last(), filter);
        assert forall|i: int| 0 <= i < seams.len() implies #[trigger] unfocused_for(
            seq![],
            seams,
            filter,
        )[i] == SeamRequest::unfocused_spec(seams[i], filter) by {
            if i < seams.len() - 1 {
                assert(seams.drop_last()[i] == seams[i]);
            }
        }
    }
}

proof fn lemma_lookup_last(entries: Seq<(Seam, ProgressView)>, seam: Seam, i: int)
    requires
        0 <= i < entries.len(),
        entries[i].0 == seam,
        forall|j: int| i < j < entries.len() ==> (#[trigger] entries[j]).0 != seam,
    ensures
        lookup(entries, seam) == Some(entries[i].1),
    decreases entries.len(),
{
    if i < entries.len() - 1 {
        assert(entries[entries.len() - 1].0 != seam);
        let prev = entries.drop_last();
        assert forall|j: int| i < j < prev.len() implies (#[trigger] prev[j]).0 != seam by {
            assert(prev[j] == entries[j]);
        }
        lemma_lookup_last(prev, seam, i);
    }
}

proof fn lemma_lookup_none(entries: Seq<(Seam, ProgressView)>, seam: Seam)
    requires
        forall|j: int| 0 <= j < entries.len() ==> (#[trigger] entries[j]).0 != seam,
    ensures
        lookup(entries, seam) is None,
    decreases entries.len(),
{
    if entries.len() > 0 {
        assert(entries[entries.len() - 1].0 != seam);
        let prev = entries.drop_last();
        assert forall|j: int| 0 <= j < prev.len() implies (#[trigger] prev[j]).0 != seam by {
            assert(prev[j] == entries[j]);
        }
        lemma_lookup_none(prev, seam);
    }
}

proof fn lemma_lookup_update_other(
    entries: Seq<(Seam, ProgressView)>,
    i: int,
    entry: (Seam, ProgressView),
    seam: Seam,
)
    requires
        0 <= i < entries.len(),
        entries[i].0 != seam,
        entry.0 != seam,
    ensures
        lookup(entries.update(i, entry), seam) == lookup(entries, seam),
    decreases entries.len(),
{
    let e2 = entries.update(i, entry);
    if i < entries.len() - 1 {
        assert(e2.drop_last() =~= entries.drop_last().update(i, entry));
        lemma_lookup_update_other(entries.drop_last(), i, entry, seam);
    } else {
        assert(e2.drop_last() =~= entries.drop_last());
    }
}

/// The engine's decisions: which seams are active, what progress each has,
/// what the focused request is, and which requests the worker is to run.
pub struct SeamProcessor {
    active_seams: Vec<Seam>,
    progress: Vec<(Seam, SeamProgress)>,
    focused_seam: Option<(SeamRequest, SeamOutput)>,
    filter: PointFilter,
}

impl View for SeamProcessor {
    type V = ProcessorView;

    closed spec fn view(&self) -> ProcessorView {
        ProcessorView {
            active: self.active_seams@,
            progress: self.progress@.map_values(|e: (Seam, SeamProgress)| (e.0, e.1@)),
            focused: match self.focused_seam {
                Some(f) => Some((f.0, f.1@)),
                None => None,
            },
            filter: self.filter,
        }
    }
}

fn contains_seam(seams: &Vec<Seam>, seam: &Seam) -> (r: bool)
    ensures
        r == seams@.contains(*seam),
{
    let mut i: usize = 0;
    while i < seams.len()
        invariant
            i <= seams.len(),
            forall|j: int| 0 <= j < i ==> seams@[j] != *seam,
        decreases seams.len() - i,
    {
        if seams[i] == *seam {
            return true;
        }
        i = i + 1;
    }
    false
}

impl SeamProcessor {
    pub fn new() -> (r: Self)
        ensures
            r@.active.len() == 0,
            r@.progress.len() == 0,
            r@.focused is None,
            r@.filter == PointFilter::Unfiltered,
            r@.wf(),
    {
        let r = SeamProcessor {
            active_seams: Vec::new(),
            progress: Vec::new(),
            focused_seam: None,
            filter: PointFilter::Unfiltered,
        };
        assert(r@.progress =~= seq![]);
        r
    }

    /// The index of the last progress entry for `seam`.
    fn find_entry(&self, seam: &Seam) -> (r: Option<usize>)
        ensures
            match r {
                Some(i) => i < self@.progress.len() && self@.progress[i as int].0 == *seam
                    && forall|j: int|
                    i < j < self@.progress.len() ==> (#[trigger] self@.progress[j]).0 != *seam,
                None => forall|j: int|
                    0 <= j < self@.progress.len() ==> (#[trigger] self@.progress[j]).0 != *seam,
            },
    {
        let mut i: usize = self.progress.len();
        while i > 0
            invariant
                i <= self.progress.len(),
                self@.progress.len() == self.progress@.len(),
                forall|j: int|
                    i <= j < self@.progress.len() ==> (#[trigger] self@.progress[j]).0 != *seam,
            decreases i,
        {
            if self.progress[i - 1].0 == *seam {
                return Some(i - 1);
            }
            i = i - 1;
        }
        None
    }

    pub fn active_seams(&self) -> (r: &[Seam])
        ensures
            r@ == self@.active,
    {
        self.active_seams.as_slice()
    }

    pub fn filter(&self) -> (r: PointFilter)
        ensures
            r == self@.filter,
    {
        self.filter
    }

    /// The progress of `seam`: the recorded one, or else a background sweep of
    /// its whole domain that has not started.
    pub fn seam_progress(&self, seam: &Seam) -> (r: SeamProgress)
        requires
            self@.wf(),
        ensures
            r@ == self@.progress_of(*seam),
            r@.wf(),
            r@.origin == seam.w_range_spec().start,
    {
        match self.find_entry(seam) {
            Some(i) => {
                proof {
                    lemma_lookup_last(self@.progress, *seam, i as int);
                    assert(self@.progress[i as int].1.wf());
                }
                self.progress[i].1.snapshot()
            },
            None => {
                proof {
                    lemma_lookup_none(self@.progress, *seam);
                }
                SeamProgress::new(seam.w_range(), DEFAULT_SEGMENT_LENGTH)
            },
        }
    }

    /// The number of active seams whose sweep is not complete.
    pub fn remaining_seams(&self) -> (r: usize)
        requires
            self@.wf(),
        ensures
            r == self@.incomplete_count(self@.active),
    {
        let mut count: usize = 0;
        let mut i: usize = 0;
        while i < self.active_seams.len()
            invariant
                self@.wf(),
                i <= self.active_seams.len(),
                self@.active == self.active_seams@,
                count == self@.incomplete_count(self@.active.subrange(0, i as int)),
                count <= i,
            decreases self.active_seams.len() - i,
        {
            let progress = self.seam_progress(&self.active_seams[i]);
            let done = progress.is_complete();
            proof {
                let s = self@.active.subrange(0, i as int + 1);
                assert(s.drop_last() =~= self@.active.subrange(0, i as int));
                assert(s.last() == self@.active[i as int]);
            }
            if !done {
                count = count + 1;
            }
            i = i + 1;
        }
        assert(self@.active.subrange(0, i as int) =~= self@.active);
        count
    }

    /// What is known of the focused request for `seam` over `w_range` in steps
    /// of `segment_length`. A request unlike the current focused one becomes the
    /// focused request and replaces the whole queue.
    pub fn focused_seam_progress(
        &mut self,
        seam: &Seam,
        w_range: Interval,
        segment_length: u32,
        queue: &mut Vec<SeamRequest>,
    ) -> (r: SeamOutput)
        requires
            w_range.closed ==> w_range.end < i32::MAX,
        ensures
            ({
                let (v, out, replaced) = old(self)@.focused_query(*seam, w_range, segment_length);
                &&& final(self)@ == v
                &&& r@ == out
                &&& final(queue)@ == if replaced {
                    seq![SeamRequest::focused_spec(*seam, w_range, segment_length, old(self)@.filter)]
                } else {
                    old(queue)@
                }
            }),
    {
        let request = SeamRequest::focused(*seam, w_range, segment_length, self.filter);
        let mut progress = SeamOutput::Segments(SeamProgress::new(w_range, segment_length));
        match &self.focused_seam {
            Some(focused) => {
                if focused.0.seam == *seam {
                    progress = focused.1.snapshot();
                }
                if focused.0 == request {
                    return progress;
                }
            },
            None => {},
        }
        let kept = progress.snapshot();
        self.focused_seam = Some((request, kept));
        queue.clear();
        queue.push(request);
        assert(queue@ =~= seq![request]);
        progress
    }

    /// Takes one output of the worker for `request`. Outputs under another
    /// filter, and focused outputs for a request that is no longer the focused
    /// one, are stale and dropped. A background output replaces the seam's
    /// recorded progress.
    pub fn receive(&mut self, request: SeamRequest, output: SeamOutput)
        requires
            old(self)@.wf(),
            request.filter == old(self)@.filter && !request.is_focused ==> (output@ matches OutputView::Segments(p)
                && p.wf() && p.origin == request.seam.w_range_spec().start),
        ensures
            final(self)@.wf(),
            final(self)@.active == old(self)@.active,
            final(self)@.filter == old(self)@.filter,
            request.filter != old(self)@.filter ==> final(self)@ == old(self)@,
            request.filter == old(self)@.filter && request.is_focused ==> final(self)@ == (
            ProcessorView {
                focused: match old(self)@.focused {
                    Some(f) => if f.0 == request {
                        Some((request, output@))
                    } else {
                        Some(f)
                    },
                    None => None,
                },
                ..old(self)@
            }),
            request.filter == old(self)@.filter && !request.is_focused ==> {
                &&& final(self)@.focused == old(self)@.focused
                &&& output@ matches OutputView::Segments(p) && final(self)@.progress_of(request.seam)
                    == p
                &&& forall|s: Seam|
                    s != request.seam ==> lookup(final(self)@.progress, s) == lookup(
                        old(self)@.progress,
                        s,
                    )
            },
    {
        if request.filter != self.filter {
            return;
        }
        if request.is_focused {
            let matches_focused = match &self.focused_seam {
                Some(focused) => focused.0 == request,
                None => false,
            };
            if matches_focused {
                self.focused_seam = Some((request, output));
            }
            return;
        }
        match output {
            SeamOutput::Segments(progress) => {
                let ghost old_v = self@;
                let ghost p = progress@;
                let found = self.find_entry(&request.seam);
                match found {
                    Some(i) => {
                        self.progress.set(i, (request.seam, progress));
                        proof {
                            let entries = self@.progress;
                            assert(entries =~= old_v.progress.update(i as int, (request.seam, p)));
                            lemma_lookup_last(entries, request.seam, i as int);
                            assert forall|s: Seam| s != request.seam implies lookup(entries, s)
                                == lookup(old_v.progress, s) by {
                                lemma_lookup_update_other(old_v.progress, i as int, (request.seam, p), s);
                            }
                        }
                    },
                    None => {
                        self.progress.push((request.seam, progress));
                        proof {
                            let entries = self@.progress;
                            assert(entries =~= old_v.progress.push((request.seam, p)));
                            assert(entries.drop_last() =~= old_v.progress);
                        }
                    },
                }
            },
            SeamOutput::Points(_) => {},
        }
    }

    /// Replaces the filter. Progress made under the old filter means nothing
    /// under the new one: all of it is dropped, and so is all queued work.
    pub fn set_filter(&mut self, filter: PointFilter, queue: &mut Vec<SeamRequest>)
        ensures
            final(self)@ == old(self)@.with_filter(filter),
            final(self)@.wf(),
            final(queue)@.len() == 0,
    {
        self.filter = filter;
        self.focused_seam = None;
        self.progress = Vec::new();
        queue.clear();
        assert(self@.progress =~= seq![]);
    }

    /// Re-derives the active seams from the current walls, under the search's
    /// time budget; a search that runs out of time leaves no seam active until
    /// the next update. Then schedules work as `set_active_seams` does.
    pub fn update(&mut self, walls: &Vec<Wall>, queue: &mut Vec<SeamRequest>)
        requires
            old(self)@.wf(),
        ensures
            final(self)@.active == all_seams(walls@, walls@.len()) || final(self)@.active.len()
                == 0,
            walls@.len() <= 1 ==> final(self)@.active == all_seams(walls@, walls@.len()),
            final(self)@ == (ProcessorView { active: final(self)@.active, ..old(self)@ }),
            final(self)@.wf(),
            final(queue)@ == if retained(old(queue)@, final(self)@.active).len() > 0 {
                retained(old(queue)@, final(self)@.active)
            } else {
                unfocused_for(old(self)@.progress, final(self)@.active, old(self)@.filter)
            },
    {
        let started = now();
        let active = match find_seams(walls, &started) {
            Some(seams) => seams,
            None => Vec::new(),
        };
        self.set_active_seams(active, queue);
    }

    /// Takes the seams found in the current geometry. Queued requests for seams
    /// no longer active are dropped; if none is left, a background request is
    /// queued for each active seam with no recorded progress.
    pub fn set_active_seams(&mut self, active_seams: Vec<Seam>, queue: &mut Vec<SeamRequest>)
        requires
            old(self)@.wf(),
        ensures
            final(self)@ == (ProcessorView { active: active_seams@, ..old(self)@ }),
            final(self)@.wf(),
            final(queue)@ == if retained(old(queue)@, active_seams@).len() > 0 {
                retained(old(queue)@, active_seams@)
            } else {
                unfocused_for(old(self)@.progress, active_seams@, old(self)@.filter)
            },
    {
        self.active_seams = active_seams;
        let ghost v = self@;
        let mut kept: Vec<SeamRequest> = Vec::new();
        let mut i: usize = 0;
        while i < queue.len()
            invariant
                i <= queue.len(),
                kept@ == retained(queue@.subrange(0, i as int), self.active_seams@),
            decreases queue.len() - i,
        {
            let request = queue[i];
            proof {
                let s = queue@.subrange(0, i as int + 1);
                assert(s.drop_last() =~= queue@.subrange(0, i as int));
            }
            if contains_seam(&self.active_seams, &request.seam) {
                kept.push(request);
            }
            i = i + 1;
        }
        assert(queue@.subrange(0, i as int) =~= queue@);
        if kept.len() == 0 {
            let mut j: usize = 0;
            while j < self.active_seams.len()
                invariant
                    self@ == v,
                    v.active == self.active_seams@,
                    j <= self.active_seams.len(),
                    kept@ == unfocused_for(v.progress, v.active.subrange(0, j as int), v.filter),
                decreases self.active_seams.len() - j,
            {
                let seam = self.active_seams[j];
                let found = self.find_entry(&seam);
                proof {
                    let s = v.active.subrange(0, j as int + 1);
                    assert(s.drop_last() =~= v.active.subrange(0, j as int));
                    match found {
                        Some(k) => lemma_lookup_last(v.progress, seam, k as int),
                        None => lemma_lookup_none(v.progress, seam),
                    }
                }
                if found.is_none() {
                    kept.push(SeamRequest::unfocused(seam, self.filter));
                }
                j = j + 1;
            }
            assert(v.active.subrange(0, j as int) =~= v.active);
        }
        *queue = kept;
    }
}

} // verus!
