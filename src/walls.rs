use vstd::prelude::*;

use crate::edge::WallNormal;
use crate::seam::Seam;

verus! {

/// `std::time::Instant`, carried through unchanged.
#[verifier::external_type_specification]
#[verifier::external_body]
pub struct ExInstant(std::time::Instant);

/// The time budget for one search for seams, in milliseconds.
pub const SEARCH_BUDGET_MS: u64 = 1000;

/// Relies on `std::time::Instant::elapsed`: the whole milliseconds that have
/// passed since `started`. It depends on the clock, so nothing is promised of
/// the answer.
#[verifier::external_body]
fn elapsed_ms(started: &std::time::Instant) -> (r: u128) {
    started.elapsed().as_millis()
}

/// Whether a search that has run for `elapsed_ms` milliseconds is past its
/// time budget.
pub fn over_budget(elapsed_ms: u128) -> (r: bool)
    ensures
        r == (elapsed_ms > SEARCH_BUDGET_MS as u128),
{
    elapsed_ms > SEARCH_BUDGET_MS as u128
}

/// A near-vertical collision triangle.
#[derive(Debug, Clone, Copy, PartialEq, Eq, Hash)]
pub struct Wall {
    pub vertex1: [i16; 3],
    pub vertex2: [i16; 3],
    pub vertex3: [i16; 3],
    pub normal: WallNormal,
}

impl Wall {
    /// The `k`-th edge, in the order of the triangle's winding.
    pub open spec fn edge_spec(self, k: int) -> ([i16; 3], [i16; 3]) {
        if k == 0 {
            (self.vertex1, self.vertex2)
        } else if k == 1 {
            (self.vertex2, self.vertex3)
        } else {
            (self.vertex3, self.vertex1)
        }
    }

    pub fn edge(&self, k: usize) -> (r: ([i16; 3], [i16; 3]))
        requires
            k < 3,
        ensures
            r == self.edge_spec(k as int),
    {
        if k == 0 {
            (self.vertex1, self.vertex2)
        } else if k == 1 {
            (self.vertex2, self.vertex3)
        } else {
            (self.vertex3, self.vertex1)
        }
    }

    pub open spec fn low(self, axis: int) -> int {
        min3(self.vertex1@[axis] as int, self.vertex2@[axis] as int, self.vertex3@[axis] as int)
    }

    pub open spec fn high(self, axis: int) -> int {
        max3(self.vertex1@[axis] as int, self.vertex2@[axis] as int, self.vertex3@[axis] as int)
    }

    /// The smallest and largest value of the wall's vertices on `axis`.
    fn bounds(&self, axis: usize) -> (r: (i16, i16))
        requires
            axis < 3,
        ensures
            r.0 == self.low(axis as int),
            r.1 == self.high(axis as int),
    {
        let a = self.vertex1[axis];
        let b = self.vertex2[axis];
        let c = self.vertex3[axis];
        let lo_ab = if a <= b {
            a
        } else {
            b
        };
        let hi_ab = if a <= b {
            b
        } else {
            a
        };
        let lo = if lo_ab <= c {
            lo_ab
        } else {
            c
        };
        let hi = if hi_ab >= c {
            hi_ab
        } else {
            c
        };
        (lo, hi)
    }
}

pub open spec fn min3(a: int, b: int, c: int) -> int {
    if a <= b && a <= c {
        a
    } else if b <= c {
        b
    } else {
        c
    }
}

pub open spec fn max3(a: int, b: int, c: int) -> int {
    if a >= b && a >= c {
        a
    } else if b >= c {
        b
    } else {
        c
    }
}

/// Whether the bounding boxes of two walls touch or overlap on every axis, so
/// that the walls may share a seam.
pub open spec fn boxes_touch(a: Wall, b: Wall) -> bool {
    forall|axis: int| 0 <= axis < 3 ==> a.low(axis) <= b.high(axis) && b.low(axis) <= a.high(axis)
}

/// The bounding boxes of two walls touch or overlap on every axis.
pub fn walls_touch(a: &Wall, b: &Wall) -> (r: bool)
    ensures
        r == boxes_touch(*a, *b),
{
    let mut axis: usize = 0;
    while axis < 3
        invariant
            axis <= 3,
            forall|k: int| 0 <= k < axis ==> a.low(k) <= b.high(k) && b.low(k) <= a.high(k),
        decreases 3 - axis,
    {
        let (a_lo, a_hi) = a.bounds(axis);
        let (b_lo, b_hi) = b.bounds(axis);
        if a_lo > b_hi || b_lo > a_hi {
            return false;
        }
        axis = axis + 1;
    }
    true
}

/// The seam of the `k`-th of the nine pairs of edges of two walls, edges of
/// `a` in the outer order, as a sequence of zero or one seams.
pub open spec fn pair_seam(a: Wall, b: Wall, k: int) -> Seq<Seam> {
    match Seam::between_spec(a.edge_spec(k / 3), a.normal, b.edge_spec(k % 3), b.normal) {
        Some(s) => seq![s],
        None => seq![],
    }
}

/// The seams of the first `k` pairs of edges of two walls.
pub open spec fn pair_seams_upto(a: Wall, b: Wall, k: nat) -> Seq<Seam>
    decreases k,
{
    if k == 0 {
        seq![]
    } else {
        pair_seams_upto(a, b, (k - 1) as nat) + pair_seam(a, b, k - 1)
    }
}

/// The seams between walls `walls[i]`, for `i < n`, and `walls[j]`, taking only
/// pairs whose bounding boxes touch.
pub open spec fn seams_with(walls: Seq<Wall>, j: int, n: nat) -> Seq<Seam>
    decreases n,
{
    if n == 0 {
        seq![]
    } else {
        seams_with(walls, j, (n - 1) as nat) + if boxes_touch(walls[n - 1], walls[j]) {
            pair_seams_upto(walls[n - 1], walls[j], 9)
        } else {
            seq![]
        }
    }
}

/// The seams among the first `n` walls: for each wall, those it forms with the
/// walls before it.
pub open spec fn all_seams(walls: Seq<Wall>, n: nat) -> Seq<Seam>
    decreases n,
{
    if n == 0 {
        seq![]
    } else {
        all_seams(walls, (n - 1) as nat) + seams_with(walls, n - 1, (n - 1) as nat)
    }
}

/// The seams that two walls form, each edge of `a` against each edge of `b`.
pub fn seams_between(a: &Wall, b: &Wall) -> (r: Vec<Seam>)
    ensures
        r@ == pair_seams_upto(*a, *b, 9),
{
    let mut out: Vec<Seam> = Vec::new();
    let mut k: usize = 0;
    while k < 9
        invariant
            k <= 9,
            out@ == pair_seams_upto(*a, *b, k as nat),
        decreases 9 - k,
    {
        let found = Seam::between(a.edge(k / 3), a.normal, b.edge(k % 3), b.normal);
        match found {
            Some(s) => {
                out.push(s);
                assert(out@ =~= pair_seams_upto(*a, *b, k as nat) + seq![s]);
            },
            None => {
                assert(out@ =~= pair_seams_upto(*a, *b, k as nat) + seq![]);
            },
        }
        k = k + 1;
    }
    out
}

/// Finds the seams among `walls`, checking pairs whose bounding boxes touch.
/// Gives up, with `None`, once the search has run past its time budget counted
/// from `started`: a pool of walls that takes that long is likely corrupt.
pub fn find_seams(walls: &Vec<Wall>, started: &std::time::Instant) -> (r: Option<Vec<Seam>>)
    ensures
        r matches Some(s) ==> s@ == all_seams(walls@, walls@.len()),
        walls@.len() <= 1 ==> r is Some,
{
    let mut out: Vec<Seam> = Vec::new();
    let mut j: usize = 0;
    while j < walls.len()
        invariant
            j <= walls.len(),
            out@ == all_seams(walls@, j as nat),
        decreases walls.len() - j,
    {
        let ghost before = out@;
        let mut i: usize = 0;
        while i < j
            invariant
                i <= j < walls.len(),
                out@ == before + seams_with(walls@, j as int, i as nat),
            decreases j - i,
        {
            if over_budget(elapsed_ms(started)) {
                return None;
            }
            if walls_touch(&walls[i], &walls[j]) {
                let mut found = seams_between(&walls[i], &walls[j]);
                out.append(&mut found);
            }
            proof {
                assert(seams_with(walls@, j as int, (i + 1) as nat) == seams_with(
                    walls@,
                    j as int,
                    i as nat,
                ) + if boxes_touch(walls@[i as int], walls@[j as int]) {
                    pair_seams_upto(walls@[i as int], walls@[j as int], 9)
                } else {
                    seq![]
                });
                assert(out@ =~= before + seams_with(walls@, j as int, (i + 1) as nat));
            }
            i = i + 1;
        }
        j = j + 1;
    }
    Some(out)
}

} // verus!
