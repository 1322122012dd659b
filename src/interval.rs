use vstd::prelude::*;

verus! {

/// A range of coordinates, either closed `[start, end]` or half-open
/// `[start, end)`. A coordinate is the order key of a finite 32-bit float (see
/// `key_of_bits`): keys order as the floats do, and consecutive keys are
/// consecutive representable floats.
#[derive(Debug, Clone, Copy, PartialEq, Eq, Structural, Hash)]
pub struct Interval {
    pub start: i32,
    pub end: i32,
    /// Whether `end` belongs to the range.
    pub closed: bool,
}

/// The key of the float `1.0`.
pub const KEY_OF_ONE: i32 = 1065353216;

/// The band around the origin that is never checked: the half-open `[-1, 1)`,
/// as keys.
pub const DEAD_ZONE_START: i32 = -1065353216;
pub const DEAD_ZONE_END: i32 = 1065353216;

pub const SIGN_BIT: u32 = 0x8000_0000;

/// The order key of the float with bit pattern `bits`: the bits themselves for
/// a positive sign, their magnitude negated for a negative one. Both zeros get
/// key 0.
pub open spec fn bits_key(bits: u32) -> int {
    if bits < SIGN_BIT {
        bits as int
    } else {
        -((bits - SIGN_BIT) as int)
    }
}

/// The order key of the float with bit pattern `bits`.
pub fn key_of_bits(bits: u32) -> (r: i32)
    requires
        bits & 0x7fff_ffff <= 0x7f80_0000,
    ensures
        r == bits_key(bits),
{
    let magnitude = bits & 0x7fff_ffff;
    assert(magnitude == if bits < SIGN_BIT { bits } else { (bits - SIGN_BIT) as u32 }) by (bit_vector)
        requires
            magnitude == bits & 0x7fff_ffff,
    ;
    if bits < SIGN_BIT {
        magnitude as i32
    } else {
        -(magnitude as i32)
    }
}

/// The bit pattern of the float whose order key is `key`; a key of 0 gives the
/// positive zero.
pub fn bits_of_key(key: i32) -> (r: u32)
    requires
        key > i32::MIN,
    ensures
        key >= 0 ==> r == key,
        key < 0 ==> r == SIGN_BIT + (-key) as u32,
        bits_key(r) == key,
{
    if key >= 0 {
        key as u32
    } else {
        SIGN_BIT + (-key) as u32
    }
}

pub open spec fn pow2(n: nat) -> nat
    decreases n,
{
    if n == 0 {
        1
    } else {
        2 * pow2((n - 1) as nat)
    }
}

/// A positive integer `m` below `2^24` shifted left until it has 24 bits,
/// with the number of shifts.
pub open spec fn normalize(m: nat, shifts: nat) -> (nat, nat)
    decreases 0x100_0000 - m,
{
    if m == 0 || m >= 0x80_0000 {
        (m, shifts)
    } else {
        normalize(2 * m, shifts + 1)
    }
}

/// The bit pattern of the float equal to the integer `m`, for `0 < m < 2^24`:
/// exponent `23 - shifts` and the normalized value's low 23 bits as mantissa.
pub open spec fn positive_int_bits(m: nat) -> int {
    let (n, shifts) = normalize(m, 0);
    (150 - shifts) * 0x80_0000 + n - 0x80_0000
}

/// The order key of the float equal to the integer `v`.
pub open spec fn int_key(v: int) -> int {
    if v == 0 {
        0
    } else if v > 0 {
        positive_int_bits(v as nat)
    } else {
        -positive_int_bits((-v) as nat)
    }
}

proof fn lemma_pow2_large(s: nat)
    requires
        s >= 23,
    ensures
        pow2(s) >= 0x80_0000,
    decreases s,
{
    if s > 23 {
        lemma_pow2_large((s - 1) as nat);
    } else {
        reveal_with_fuel(pow2, 24);
    }
}

/// The order key of the float equal to `v`; every `i16` is exact as a float.
pub fn key_of_int(v: i16) -> (r: i32)
    ensures
        r == int_key(v as int),
        -0x4c00_0000 <= r <= 0x4c00_0000,
{
    if v == 0 {
        return 0;
    }
    let m: i64 = if v > 0 {
        v as i64
    } else {
        -(v as i64)
    };
    let mut cur: i64 = m;
    let mut shifts: i64 = 0;
    while cur < 0x80_0000
        invariant
            1 <= m <= cur < 0x100_0000,
            0 <= shifts <= 23,
            cur >= pow2(shifts as nat),
            normalize(cur as nat, shifts as nat) == normalize(m as nat, 0),
        decreases 0x100_0000 - cur,
    {
        proof {
            if shifts >= 23 {
                lemma_pow2_large(shifts as nat);
            }
        }
        cur = cur * 2;
        shifts = shifts + 1;
    }
    let scaled: i64 = (150 - shifts) * 0x80_0000;
    assert(127 * 0x80_0000 <= scaled <= 150 * 0x80_0000) by (nonlinear_arith)
        requires
            scaled == (150 - shifts) * 0x80_0000,
            0 <= shifts <= 23,
    ;
    let bits = scaled + cur - 0x80_0000;
    if v > 0 {
        bits as i32
    } else {
        -(bits as i32)
    }
}

impl Interval {
    /// Whether the coordinate `x` lies in the range.
    pub open spec fn contains(self, x: int) -> bool {
        self.start <= x && if self.closed {
            x <= self.end
        } else {
            x < self.end
        }
    }

    pub open spec fn is_empty_spec(self) -> bool {
        if self.closed {
            self.start > self.end
        } else {
            self.start >= self.end
        }
    }

    /// The number of representable floats the range holds.
    pub open spec fn count_spec(self) -> nat {
        if self.is_empty_spec() {
            0
        } else if self.closed {
            (self.end - self.start + 1) as nat
        } else {
            (self.end - self.start) as nat
        }
    }

    /// Whether the range shares a point with the dead zone `[-1, 1)`.
    pub open spec fn meets_dead_zone(self) -> bool {
        exists|x: int| #![trigger self.contains(x)] self.contains(x) && DEAD_ZONE_START <= x
            < DEAD_ZONE_END
    }

    /// The closed range between `a` and `b`, whichever is smaller first.
    pub fn inclusive(a: i32, b: i32) -> (r: Interval)
        ensures
            r.closed,
            r.start == if a <= b { a } else { b },
            r.end == if a <= b { b } else { a },
    {
        if a <= b {
            Interval { start: a, end: b, closed: true }
        } else {
            Interval { start: b, end: a, closed: true }
        }
    }

    /// The half-open range from the smaller of `a` and `b` up to, excluding,
    /// the larger.
    pub fn inclusive_exclusive(a: i32, b: i32) -> (r: Interval)
        ensures
            !r.closed,
            r.start == if a <= b { a } else { b },
            r.end == if a <= b { b } else { a },
    {
        if a <= b {
            Interval { start: a, end: b, closed: false }
        } else {
            Interval { start: b, end: a, closed: false }
        }
    }

    pub fn is_empty(&self) -> (r: bool)
        ensures
            r == self.is_empty_spec(),
            r <==> forall|x: int| !self.contains(x),
    {
        proof {
            if !self.is_empty_spec() {
                assert(self.contains(self.start as int));
            }
        }
        if self.closed {
            self.start > self.end
        } else {
            self.start >= self.end
        }
    }

    /// The number of representable floats in the range.
    pub fn count(&self) -> (r: u64)
        ensures
            r == self.count_spec(),
    {
        if self.is_empty() {
            0
        } else if self.closed {
            (self.end as i64 - self.start as i64 + 1) as u64
        } else {
            (self.end as i64 - self.start as i64) as u64
        }
    }

    /// Removes from this range the points of the half-open range `other`,
    /// giving what is left on its left and on its right.
    pub fn cut_out(&self, other: &Interval) -> (r: (Interval, Interval))
        requires
            !other.closed,
        ensures
            forall|x: int| #[trigger]
                r.0.contains(x) <==> (self.contains(x) && x < other.start),
            forall|x: int| #[trigger]
                r.1.contains(x) <==> (self.contains(x) && x >= other.end),
    {
        let left_end = if self.end < other.start {
            self.end
        } else {
            other.start
        };
        let left = Interval {
            start: self.start,
            end: left_end,
            closed: self.closed && self.end < other.start,
        };
        let right_start = if self.start > other.end {
            self.start
        } else {
            other.end
        };
        let right = Interval { start: right_start, end: self.end, closed: self.closed };
        (left, right)
    }
}

/// The key of the smallest float strictly greater than the one keyed `x`.
pub fn next_representable(x: i32) -> (r: i32)
    requires
        x < i32::MAX,
    ensures
        r == x + 1,
{
    x + 1
}

} // verus!
