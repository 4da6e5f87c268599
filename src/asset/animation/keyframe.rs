//! Keyframe sampling: the value of an animated property at a given time.
use vstd::prelude::*;

verus! {

/// `x / d` rounded toward zero, for `d > 0`.
pub open spec fn div_trunc(x: int, d: int) -> int {
    if x >= 0 {
        x / d
    } else {
        -((-x) / d)
    }
}

/// The value `num / den` of the way from `v0` to `v1`, rounded toward `v0`.
pub open spec fn lerp(v0: int, v1: int, num: int, den: int) -> int {
    v0 + div_trunc((v1 - v0) * num, den)
}

/// The first position at or after `i` whose time is later than `t`
/// (`times.len()` when there is none).
pub open spec fn first_after(times: Seq<i64>, t: int, i: int) -> int
    decreases times.len() - i,
{
    if i >= times.len() || i < 0 {
        times.len() as int
    } else if times[i] > t {
        i
    } else {
        first_after(times, t, i + 1)
    }
}

/// The `k`-th keyframe's value tuple of `dim` components.
pub open spec fn frame(values: Seq<i32>, k: int, dim: int) -> Seq<i32> {
    values.subrange(k * dim, (k + 1) * dim)
}

/// The value at `time`: zeros without keyframes; the first or last keyframe
/// outside the time range; otherwise the linear blend of the keyframes
/// bracketing `time`.
pub open spec fn interpolated(times: Seq<i64>, values: Seq<i32>, time: int, dim: int) -> Seq<i32> {
    if times.len() == 0 || values.len() == 0 {
        Seq::new(dim as nat, |i: int| 0i32)
    } else if time <= times[0] {
        frame(values, 0, dim)
    } else if time >= times[times.len() - 1] {
        frame(values, times.len() - 1, dim)
    } else {
        let k = first_after(times, time, 0);
        Seq::new(
            dim as nat,
            |i: int|
                lerp(
                    values[(k - 1) * dim + i] as int,
                    values[k * dim + i] as int,
                    time - times[k - 1],
                    times[k] - times[k - 1],
                ) as i32,
        )
    }
}

proof fn lemma_first_after(times: Seq<i64>, t: int, i: int)
    requires
        0 <= i <= times.len(),
        forall|j: int| 0 <= j < i ==> times[j] <= t,
    ensures
        i <= first_after(times, t, i) <= times.len(),
        forall|j: int| 0 <= j < first_after(times, t, i) ==> times[j] <= t,
        first_after(times, t, i) < times.len() ==> times[first_after(times, t, i)] > t,
    decreases times.len() - i,
{
    if i < times.len() && times[i] <= t {
        lemma_first_after(times, t, i + 1);
    }
}

/// Sampled animation data of one channel: ascending key times (in a time
/// unit of the caller's choice, such as milliseconds) and, for each, a tuple
/// of fixed-point values (3 for translation and scale, 4 for rotation;
/// `FIXED_ONE` is `1.0`).
pub struct KeyFrameData {
    pub times: Vec<i64>,
    pub values: Vec<i32>,
}

impl KeyFrameData {
    /// The value of the channel at `time`, as `interpolated` states.
    pub fn interpolate_keyframe(times: &Vec<i64>, values: &Vec<i32>, time: i64, dimensions: usize) -> (r: Vec<i32>)
        requires
            values.len() == times.len() * dimensions,
        ensures
            r@ == interpolated(times@, values@, time as int, dimensions as int),
            r@.len() == dimensions,
    {
        let dim = dimensions;
        if times.len() == 0 || values.len() == 0 {
            let mut out: Vec<i32> = Vec::new();
            let mut i: usize = 0;
            while i < dim
                invariant
                    i <= dim,
                    out@ == Seq::new(i as nat, |j: int| 0i32),
                decreases dim - i,
            {
                out.push(0);
                i += 1;
                assert(out@ =~= Seq::new(i as nat, |j: int| 0i32));
            }
            return out;
        }
        let n = times.len();
        assert(values.len() == n * dim);
        proof {
            vstd::arithmetic::mul::lemma_mul_is_distributive_add_other_way(dim as int, n as int - 1, 1);
        }
        if time <= times[0] {
            return copy_frame(values, 0, dim);
        }
        if time >= times[n - 1] {
            return copy_frame(values, n - 1, dim);
        }
        let mut k: usize = 0;
        while k < n && times[k] <= time
            invariant
                k <= n,
                n == times.len(),
                forall|j: int| 0 <= j < k ==> times@[j] <= time,
            decreases n - k,
        {
            k += 1;
        }
        proof {
            lemma_first_after(times@, time as int, k as int);
            lemma_first_after(times@, time as int, 0);
            assert(first_after(times@, time as int, 0) == k) by {
                let f = first_after(times@, time as int, 0);
                if f < k {
                    assert(times@[f] <= time);
                } else if k < f {
                    assert(times@[k as int] <= time);
                }
            }
        }
        assert(0 < k < n);
        let t0 = times[k - 1];
        let t1 = times[k];
        let num = time as i128 - t0 as i128;
        let den = t1 as i128 - t0 as i128;
        proof {
            vstd::arithmetic::mul::lemma_mul_is_distributive_add_other_way(dim as int, k as int - 1, 1);
            vstd::arithmetic::mul::lemma_mul_inequality(k as int, n as int - 1, dim as int);
        }
        let base0: usize = (k - 1) * dim;
        let base1: usize = k * dim;
        let mut out: Vec<i32> = Vec::new();
        let mut i: usize = 0;
        while i < dim
            invariant
                i <= dim,
                0 <= num < den,
                den == t1 - t0,
                num == time - t0,
                base0 == (k - 1) * dim,
                base1 == base0 + dim,
                base1 + dim <= values.len(),
                out@.len() == i,
                forall|j: int|
                    0 <= j < i ==> out@[j] == lerp(
                        values@[base0 + j] as int,
                        values@[base1 + j] as int,
                        num as int,
                        den as int,
                    ) as i32,
            decreases dim - i,
        {
            let v = lerp_exec(values[base0 + i], values[base1 + i], num, den);
            out.push(v);
            i += 1;
        }
        let ghost expect = interpolated(times@, values@, time as int, dimensions as int);
        assert(out@ =~= expect);
        out
    }
}

/// The value tuple of keyframe `k`.
fn copy_frame(values: &Vec<i32>, k: usize, dim: usize) -> (r: Vec<i32>)
    requires
        (k + 1) * dim <= values.len(),
    ensures
        r@ == frame(values@, k as int, dim as int),
        r@.len() == dim,
{
    proof {
        vstd::arithmetic::mul::lemma_mul_is_distributive_add_other_way(dim as int, k as int, 1);
    }
    let start: usize = k * dim;
    let mut out: Vec<i32> = Vec::new();
    let mut i: usize = 0;
    while i < dim
        invariant
            i <= dim,
            start == k * dim,
            start + dim <= values.len(),
            out@ == values@.subrange(start as int, start + i),
        decreases dim - i,
    {
        out.push(values[start + i]);
        i += 1;
        assert(out@ =~= values@.subrange(start as int, start + i));
    }
    out
}

/// `v0 + (v1 - v0) * num / den`, rounded toward `v0`; lies between `v0` and `v1`.
fn lerp_exec(v0: i32, v1: i32, num: i128, den: i128) -> (r: i32)
    requires
        0 <= num < den,
        den <= 18446744073709551616,
    ensures
        r == lerp(v0 as int, v1 as int, num as int, den as int),
{
    let d: i128 = v1 as i128 - v0 as i128;
    let m: i128 = if d >= 0 {
        d
    } else {
        -d
    };
    assert(m * num <= m * den) by (nonlinear_arith)
        requires
            0 <= m,
            0 <= num < den,
    ;
    assert(m * den <= 4294967296 * 18446744073709551616) by (nonlinear_arith)
        requires
            0 <= m <= 4294967296,
            0 < den <= 18446744073709551616,
    ;
    assert(0 <= m * num) by (nonlinear_arith)
        requires
            0 <= m,
            0 <= num,
    ;
    let q: i128 = m * num / den;
    proof {
        vstd::arithmetic::div_mod::lemma_div_is_ordered(m * num, m * den, den as int);
        vstd::arithmetic::div_mod::lemma_div_multiples_vanish(m as int, den as int);
        vstd::arithmetic::div_mod::lemma_div_pos_is_pos(m * num, den as int);
        assert(m * den == den * m) by (nonlinear_arith);
        if d < 0 {
            assert(d * num == -(m * num)) by (nonlinear_arith)
                requires
                    m == -d,
            ;
        }
    }
    if d >= 0 {
        (v0 as i128 + q) as i32
    } else {
        (v0 as i128 - q) as i32
    }
}

} // verus!
