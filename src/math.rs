//! Fixed-point vectors and integer helpers shared by the physics code.
use vstd::prelude::*;

verus! {

/// Every coordinate and radius of a valid shape lies in `[-COORD_LIMIT, COORD_LIMIT]`.
/// Coordinates are fixed-point numbers: a caller picks the unit (for instance a
/// millimetre), and all arithmetic stays exact inside this range.
pub const COORD_LIMIT: i64 = 268435456;

/// A 3-vector with integer (fixed-point) components.
#[derive(Clone, Copy, Debug, PartialEq, Eq, Structural)]
pub struct Vec3 {
    pub x: i64,
    pub y: i64,
    pub z: i64,
}

/// Whether `v` is an admissible coordinate.
pub open spec fn in_range(v: int) -> bool {
    -COORD_LIMIT <= v <= COORD_LIMIT
}

/// The square of an integer.
pub open spec fn sq(v: int) -> int {
    v * v
}

impl Vec3 {
    /// Component `i` of the vector (0 is x, 1 is y, anything else is z).
    pub open spec fn axis(self, i: int) -> int {
        if i == 0 {
            self.x as int
        } else if i == 1 {
            self.y as int
        } else {
            self.z as int
        }
    }

    /// All three components are admissible coordinates.
    pub open spec fn in_bounds(self) -> bool {
        in_range(self.x as int) && in_range(self.y as int) && in_range(self.z as int)
    }

    pub fn new(x: i64, y: i64, z: i64) -> (r: Vec3)
        ensures
            r.x == x && r.y == y && r.z == z,
    {
        Vec3 { x, y, z }
    }

    pub fn zero() -> (r: Vec3)
        ensures
            r.x == 0 && r.y == 0 && r.z == 0,
    {
        Vec3 { x: 0, y: 0, z: 0 }
    }
}

/// Squared Euclidean distance between two points.
pub open spec fn dist_sq(a: Vec3, b: Vec3) -> int {
    sq(a.x - b.x) + sq(a.y - b.y) + sq(a.z - b.z)
}

/// The integer square root: the largest `r` with `r * r <= n`.
pub open spec fn is_sqrt_floor(n: int, r: int) -> bool {
    0 <= r && r * r <= n < (r + 1) * (r + 1)
}

/// The floor of the square root of a non-negative integer.
pub open spec fn sqrt_floor(n: int) -> int {
    choose|r: int| is_sqrt_floor(n, r)
}

/// The floor square root is unique.
pub proof fn lemma_sqrt_floor_unique(n: int, r: int)
    requires
        is_sqrt_floor(n, r),
    ensures
        sqrt_floor(n) == r,
{
    let s = sqrt_floor(n);
    assert(is_sqrt_floor(n, s));
    if s < r {
        assert((s + 1) * (s + 1) <= r * r) by (nonlinear_arith)
            requires
                0 <= s < r,
        ;
    } else if r < s {
        assert((r + 1) * (r + 1) <= s * s) by (nonlinear_arith)
            requires
                0 <= r < s,
        ;
    }
}

/// Largest value `isqrt` accepts.
pub const SQRT_INPUT_LIMIT: u64 = 4611686018427387904;

/// Floor of the square root of `n`, by bisection.
pub fn isqrt(n: u64) -> (r: u64)
    requires
        n < SQRT_INPUT_LIMIT,
    ensures
        is_sqrt_floor(n as int, r as int),
        r as int == sqrt_floor(n as int),
        r < 2147483648,
{
    let mut lo: u64 = 0;
    let mut hi: u64 = 2147483648;
    assert(hi * hi == 4611686018427387904);
    while hi - lo > 1
        invariant
            lo < hi <= 2147483648,
            lo * lo <= n,
            n < hi * hi,
        decreases hi - lo,
    {
        let mid: u64 = lo + (hi - lo) / 2;
        assert(mid * mid <= 2147483648 * 2147483648) by (nonlinear_arith)
            requires
                mid < 2147483648,
        ;
        if mid * mid <= n {
            lo = mid;
        } else {
            hi = mid;
        }
    }
    assert(hi == lo + 1);
    proof {
        lemma_sqrt_floor_unique(n as int, lo as int);
    }
    lo
}

/// `1.0` in the fixed-point format of matrix entries (16 fractional bits).
pub const FIXED_ONE: i64 = 65536;

/// Bound on the magnitude of every matrix entry.
pub const MAT_LIMIT: i64 = 140737488355328;

/// `x / d` rounded toward zero, for `d > 0`.
pub open spec fn div_trunc(x: int, d: int) -> int {
    if x >= 0 {
        x / d
    } else {
        -((-x) / d)
    }
}

/// `v` clamped into `[-MAT_LIMIT, MAT_LIMIT]`.
pub open spec fn saturate(v: int) -> int {
    if v < -MAT_LIMIT {
        -MAT_LIMIT as int
    } else if v > MAT_LIMIT {
        MAT_LIMIT as int
    } else {
        v
    }
}

/// Entry `(r, c)` of a column-major 4x4 matrix.
pub open spec fn at(m: Seq<i64>, r: int, c: int) -> int {
    m[c * 4 + r] as int
}

/// Entry `(r, c)` of the fixed-point product `a * b`, saturated to the entry bound.
pub open spec fn product_entry(a: Seq<i64>, b: Seq<i64>, r: int, c: int) -> int {
    saturate(
        div_trunc(
            at(a, r, 0) * at(b, 0, c) + at(a, r, 1) * at(b, 1, c) + at(a, r, 2) * at(b, 2, c) + at(
                a,
                r,
                3,
            ) * at(b, 3, c),
            FIXED_ONE as int,
        ),
    )
}

/// The fixed-point product `a * b`, column-major.
pub open spec fn mat_product(a: Seq<i64>, b: Seq<i64>) -> Seq<i64> {
    Seq::new(16, |i: int| product_entry(a, b, i % 4, i / 4) as i64)
}

/// The identity matrix, column-major.
pub open spec fn identity_entries() -> Seq<i64> {
    Seq::new(16, |i: int| if i % 5 == 0 { FIXED_ONE } else { 0i64 })
}

/// A 4x4 matrix of fixed-point entries (`FIXED_ONE` is `1.0`), stored
/// column by column.
#[derive(Debug, PartialEq, Eq)]
pub struct Mat4 {
    pub cols: Vec<i64>,
}

impl Mat4 {
    /// Sixteen entries, each within `MAT_LIMIT`.
    pub open spec fn wf(&self) -> bool {
        &&& self.cols@.len() == 16
        &&& forall|i: int| 0 <= i < 16 ==> -MAT_LIMIT <= #[trigger] self.cols@[i] <= MAT_LIMIT
    }

    pub fn identity() -> (r: Mat4)
        ensures
            r.cols@ == identity_entries(),
            r.wf(),
    {
        let mut cols: Vec<i64> = Vec::new();
        let mut i: usize = 0;
        while i < 16
            invariant
                i <= 16,
                cols@.len() == i,
                forall|j: int| 0 <= j < i ==> cols@[j] == identity_entries()[j],
            decreases 16 - i,
        {
            if i % 5 == 0 {
                cols.push(FIXED_ONE);
            } else {
                cols.push(0);
            }
            i += 1;
        }
        assert(cols@ =~= identity_entries());
        Mat4 { cols }
    }

    /// Whether the matrix is valid, as `wf` states.
    pub fn is_valid(&self) -> (r: bool)
        ensures
            r == self.wf(),
    {
        if self.cols.len() != 16 {
            return false;
        }
        let mut i: usize = 0;
        while i < 16
            invariant
                i <= 16,
                self.cols@.len() == 16,
                forall|j: int| 0 <= j < i ==> -MAT_LIMIT <= #[trigger] self.cols@[j] <= MAT_LIMIT,
            decreases 16 - i,
        {
            if self.cols[i] < -MAT_LIMIT || self.cols[i] > MAT_LIMIT {
                return false;
            }
            i += 1;
        }
        true
    }

    /// An entry-for-entry copy.
    pub fn copy(&self) -> (r: Mat4)
        ensures
            r.cols@ == self.cols@,
    {
        let mut cols: Vec<i64> = Vec::new();
        let mut i: usize = 0;
        while i < self.cols.len()
            invariant
                i <= self.cols@.len(),
                cols@ == self.cols@.subrange(0, i as int),
            decreases self.cols@.len() - i,
        {
            cols.push(self.cols[i]);
            i += 1;
            assert(cols@ =~= self.cols@.subrange(0, i as int));
        }
        assert(cols@ =~= self.cols@);
        Mat4 { cols }
    }

    /// The matrix with the given column-major entries, if there are sixteen
    /// and each is within `MAT_LIMIT`.
    pub fn from_col_entries(cols: Vec<i64>) -> (r: Option<Mat4>)
        ensures
            r.is_some() <==> (cols@.len() == 16 && forall|i: int|
                0 <= i < 16 ==> -MAT_LIMIT <= #[trigger] cols@[i] <= MAT_LIMIT),
            r.is_some() ==> r.unwrap().cols@ == cols@,
    {
        if cols.len() != 16 {
            return None;
        }
        let mut i: usize = 0;
        while i < 16
            invariant
                i <= 16,
                cols@.len() == 16,
                forall|j: int| 0 <= j < i ==> -MAT_LIMIT <= #[trigger] cols@[j] <= MAT_LIMIT,
            decreases 16 - i,
        {
            if cols[i] < -MAT_LIMIT || cols[i] > MAT_LIMIT {
                return None;
            }
            i += 1;
        }
        Some(Mat4 { cols })
    }

    /// The fixed-point product `self * other`, each entry saturated to
    /// `MAT_LIMIT`.
    pub fn mul(&self, other: &Mat4) -> (r: Mat4)
        requires
            self.wf(),
            other.wf(),
        ensures
            r.cols@ == mat_product(self.cols@, other.cols@),
            r.wf(),
    {
        let mut cols: Vec<i64> = Vec::new();
        let mut i: usize = 0;
        while i < 16
            invariant
                i <= 16,
                self.wf(),
                other.wf(),
                cols@.len() == i,
                forall|j: int|
                    0 <= j < i ==> cols@[j] == product_entry(self.cols@, other.cols@, j % 4, j / 4),
            decreases 16 - i,
        {
            cols.push(product_entry_exec(&self.cols, &other.cols, i % 4, i / 4));
            i += 1;
        }
        assert(cols@ =~= mat_product(self.cols@, other.cols@));
        Mat4 { cols }
    }
}

fn term(a: i64, b: i64) -> (r: i128)
    requires
        -MAT_LIMIT <= a <= MAT_LIMIT,
        -MAT_LIMIT <= b <= MAT_LIMIT,
    ensures
        r == a * b,
        -19807040628566084398385987584 <= r <= 19807040628566084398385987584,
{
    let x = a as i128;
    let y = b as i128;
    assert(-19807040628566084398385987584 <= x * y <= 19807040628566084398385987584) by (nonlinear_arith)
        requires
            -140737488355328 <= x <= 140737488355328,
            -140737488355328 <= y <= 140737488355328,
    ;
    x * y
}

fn product_entry_exec(a: &Vec<i64>, b: &Vec<i64>, r: usize, c: usize) -> (v: i64)
    requires
        a@.len() == 16,
        b@.len() == 16,
        forall|i: int| 0 <= i < 16 ==> -MAT_LIMIT <= #[trigger] a@[i] <= MAT_LIMIT,
        forall|i: int| 0 <= i < 16 ==> -MAT_LIMIT <= #[trigger] b@[i] <= MAT_LIMIT,
        r < 4,
        c < 4,
    ensures
        v == product_entry(a@, b@, r as int, c as int),
        -MAT_LIMIT <= v <= MAT_LIMIT,
{
    let s: i128 = term(a[r], b[c * 4]) + term(a[4 + r], b[c * 4 + 1]) + term(a[8 + r], b[c * 4 + 2])
        + term(a[12 + r], b[c * 4 + 3]);
    let q: i128 = if s >= 0 {
        s / (FIXED_ONE as i128)
    } else {
        -((-s) / (FIXED_ONE as i128))
    };
    if q < -(MAT_LIMIT as i128) {
        -MAT_LIMIT
    } else if q > MAT_LIMIT as i128 {
        MAT_LIMIT
    } else {
        q as i64
    }
}

/// Multiplying by the identity on the left leaves a matrix unchanged.
pub proof fn lemma_identity_mul(m: Seq<i64>)
    requires
        m.len() == 16,
        forall|i: int| 0 <= i < 16 ==> -MAT_LIMIT <= #[trigger] m[i] <= MAT_LIMIT,
    ensures
        mat_product(identity_entries(), m) == m,
{
    let id = identity_entries();
    let p = mat_product(id, m);
    assert forall|i: int| 0 <= i < 16 implies #[trigger] p[i] == m[i] by {
        let r = i % 4;
        let c = i / 4;
        assert(c * 4 + r == i);
        assert(at(id, r, 0) == if r == 0 { FIXED_ONE as int } else { 0 });
        assert(at(id, r, 1) == if r == 1 { FIXED_ONE as int } else { 0 });
        assert(at(id, r, 2) == if r == 2 { FIXED_ONE as int } else { 0 });
        assert(at(id, r, 3) == if r == 3 { FIXED_ONE as int } else { 0 });
        let x = at(m, r, c);
        let (i0, i1, i2, i3) = (at(id, r, 0), at(id, r, 1), at(id, r, 2), at(id, r, 3));
        let (m0, m1, m2, m3) = (at(m, 0, c), at(m, 1, c), at(m, 2, c), at(m, 3, c));
        assert(x == if r == 0 { m0 } else if r == 1 { m1 } else if r == 2 { m2 } else { m3 });
        assert(i0 * m0 + i1 * m1 + i2 * m2 + i3 * m3 == 65536 * x) by (nonlinear_arith)
            requires
                0 <= r < 4,
                i0 == if r == 0 { 65536int } else { 0 },
                i1 == if r == 1 { 65536int } else { 0 },
                i2 == if r == 2 { 65536int } else { 0 },
                i3 == if r == 3 { 65536int } else { 0 },
                x == if r == 0 { m0 } else if r == 1 { m1 } else if r == 2 { m2 } else { m3 },
        ;
        if x >= 0 {
            vstd::arithmetic::div_mod::lemma_div_multiples_vanish(x, 65536);
        } else {
            vstd::arithmetic::div_mod::lemma_div_multiples_vanish(-x, 65536);
        }
    }
    assert(p =~= m);
}

} // verus!
