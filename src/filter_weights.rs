//! Filter plans: for every output index of one axis, a clamped input span and
//! a row of quantized weights padded to a uniform stride.
use vstd::prelude::*;

verus! {

/// Largest sum of absolute quantized weights that one output may carry; it
/// keeps every accumulator of the fixed-point engine inside `i64`.
pub const MAX_WEIGHT_MASS: i64 = 1099511627776;

/// The input span `[start, start + size)` of one output index.
#[derive(Clone, Copy, Debug, PartialEq, Eq)]
pub struct FilterBounds {
    pub start: usize,
    pub size: usize,
}

impl FilterBounds {
    pub fn new(start: usize, size: usize) -> (r: FilterBounds)
        ensures
            r.start == start,
            r.size == size,
    {
        FilterBounds { start, size }
    }
}

/// Weights of one axis, quantized with `PRECISION` fractional bits.
///
/// Row `i` of `weights` (entries `i * aligned_size .. (i + 1) * aligned_size`)
/// holds the weights of output `i`; its first `bounds[i].size` entries apply to
/// the inputs `bounds[i].start ..`, the rest are zero.
#[derive(Clone, Debug)]
pub struct FilterPlan {
    pub in_size: usize,
    pub out_size: usize,
    pub aligned_size: usize,
    pub bounds: Vec<FilterBounds>,
    pub weights: Vec<i32>,
}

/// `sum_{k < n} w[base + k] * s(k)`: the weighted sum of `n` taps.
pub open spec fn dot(w: Seq<i32>, base: int, n: nat, s: spec_fn(int) -> int) -> int
    decreases n,
{
    if n == 0 {
        0
    } else {
        dot(w, base, (n - 1) as nat, s) + w[base + n - 1] * s(n - 1)
    }
}

/// `sum_{k < n} w[base + k]`.
pub open spec fn weight_sum(w: Seq<i32>, base: int, n: nat) -> int
    decreases n,
{
    if n == 0 {
        0
    } else {
        weight_sum(w, base, (n - 1) as nat) + w[base + n - 1]
    }
}

pub open spec fn abs(x: int) -> int {
    if x < 0 {
        -x
    } else {
        x
    }
}

/// `sum_{k < n} |w[base + k]|`.
pub open spec fn abs_mass(w: Seq<i32>, base: int, n: nat) -> int
    decreases n,
{
    if n == 0 {
        0
    } else {
        abs_mass(w, base, (n - 1) as nat) + abs(w[base + n - 1] as int)
    }
}

impl FilterPlan {
    pub fn new(
        in_size: usize,
        out_size: usize,
        aligned_size: usize,
        bounds: Vec<FilterBounds>,
        weights: Vec<i32>,
    ) -> (r: FilterPlan)
        ensures
            r.in_size == in_size,
            r.out_size == out_size,
            r.aligned_size == aligned_size,
            r.bounds@ == bounds@,
            r.weights@ == weights@,
    {
        FilterPlan { in_size, out_size, aligned_size, bounds, weights }
    }

    /// Start of the weight row of output `i`.
    pub open spec fn row_base(&self, i: int) -> int {
        i * self.aligned_size
    }

    /// The plan is well formed: every span lies inside the input and fits
    /// the stride, weights past a span are zero, and no output carries more
    /// than `MAX_WEIGHT_MASS` of absolute weight.
    pub open spec fn wf(&self) -> bool {
        &&& self.bounds@.len() == self.out_size
        &&& self.weights@.len() == self.out_size * self.aligned_size
        &&& forall|i: int|
            0 <= i < self.out_size ==> {
                &&& (#[trigger] self.bounds@[i]).start + self.bounds@[i].size <= self.in_size
                &&& self.bounds@[i].size <= self.aligned_size
                &&& abs_mass(self.weights@, self.row_base(i), self.bounds@[i].size as nat)
                    <= MAX_WEIGHT_MASS
            }
        &&& forall|i: int, k: int|
            0 <= i < self.out_size && self.bounds@[i].size <= k < self.aligned_size
                ==> #[trigger] self.weights@[self.row_base(i) + k] == 0
    }

    /// Checks `wf`.
    #[verifier::loop_isolation(false)]
    pub fn is_well_formed(&self) -> (r: bool)
        ensures
            r == self.wf(),
    {
        if self.bounds.len() != self.out_size {
            return false;
        }
        let total = match self.out_size.checked_mul(self.aligned_size) {
            Some(t) => t,
            None => {
                assert(self.weights@.len() == self.weights.len());
                return false;
            },
        };
        assert(self.weights@.len() == self.weights.len());
        if self.weights.len() != total {
            return false;
        }
        let a = self.aligned_size;
        let n = self.out_size;
        let mut i: usize = 0;
        while i < n
            invariant
                self.bounds@.len() == n,
                n == self.out_size,
                a == self.aligned_size,
                self.weights@.len() == n * a,
                i <= n,
                forall|j: int|
                    0 <= j < i ==> {
                        &&& (#[trigger] self.bounds@[j]).start + self.bounds@[j].size
                            <= self.in_size
                        &&& self.bounds@[j].size <= self.aligned_size
                        &&& abs_mass(self.weights@, self.row_base(j), self.bounds@[j].size as nat)
                            <= MAX_WEIGHT_MASS
                    },
                forall|j: int, k: int|
                    0 <= j < i && self.bounds@[j].size <= k < self.aligned_size
                        ==> #[trigger] self.weights@[self.row_base(j) + k] == 0,
            decreases n - i,
        {
            let b = self.bounds[i];
            if b.size > a || b.start > self.in_size || b.size > self.in_size - b.start {
                return false;
            }
            proof {
                lemma_row_index(i as int, 0, a as int, n as int);
            }
            let base = i * a;
            let mut k: usize = 0;
            let mut mass: i64 = 0;
            while k < b.size
                invariant
                    self.weights@.len() == n * a,
                    i < n,
                    b.size <= a,
                    base == i * a,
                    k <= b.size,
                    mass == abs_mass(self.weights@, base as int, k as nat),
                    mass <= MAX_WEIGHT_MASS,
                    b == self.bounds@[i as int],
                decreases b.size - k,
            {
                proof {
                    lemma_row_index(i as int, k as int, a as int, n as int);
                }
                let w = self.weights[base + k] as i64;
                let aw = if w < 0 {
                    -w
                } else {
                    w
                };
                mass = mass + aw;
                k = k + 1;
                if mass > MAX_WEIGHT_MASS {
                    proof {
                        assert(self.bounds@[i as int].size == b.size);
                        lemma_mass_prefix(self.weights@, base as int, k as nat, b.size as nat);
                    }
                    return false;
                }
            }
            let mut k: usize = b.size;
            while k < a
                invariant
                    self.weights@.len() == n * a,
                    i < n,
                    b.size <= k <= a,
                    base == i * a,
                    a == self.aligned_size,
                    forall|kk: int| b.size <= kk < k ==> #[trigger] self.weights@[base + kk] == 0,
                    b == self.bounds@[i as int],
                decreases a - k,
            {
                proof {
                    lemma_row_index(i as int, k as int, a as int, n as int);
                }
                if self.weights[base + k] != 0 {
                    return false;
                }
                k = k + 1;
            }
            proof {
                assert(self.bounds@[i as int] == b);
            }
            i = i + 1;
        }
        true
    }
}

/// Index arithmetic of a row-major table with `n` rows of `a` entries.
pub proof fn lemma_row_index(i: int, k: int, a: int, n: int)
    requires
        0 <= i < n,
        0 <= k <= a,
    ensures
        0 <= i * a,
        i * a + k <= n * a,
        k < a ==> i * a + k < n * a,
        i * a + a <= n * a,
{
    assert(0 <= i * a) by (nonlinear_arith)
        requires
            0 <= i,
            0 <= a,
    ;
    assert(i * a + a <= n * a) by (nonlinear_arith)
        requires
            0 <= i < n,
            0 <= a,
    ;
}

/// The absolute mass of a prefix is at most that of the whole row.
pub proof fn lemma_mass_prefix(w: Seq<i32>, base: int, k: nat, n: nat)
    requires
        k <= n,
    ensures
        abs_mass(w, base, k) <= abs_mass(w, base, n),
    decreases n - k,
{
    if k < n {
        lemma_mass_prefix(w, base, k, (n - 1) as nat);
    }
}

/// A prefix of the taps of a well-formed row fits an `i64` accumulator
/// together with the rounding bias.
pub proof fn lemma_tap_sum_fits(
    w: Seq<i32>,
    base: int,
    size: nat,
    k: nat,
    s: spec_fn(int) -> int,
    m: int,
)
    requires
        k <= size,
        abs_mass(w, base, size) <= MAX_WEIGHT_MASS,
        0 <= m <= 65535,
        forall|j: int| 0 <= j < k ==> 0 <= #[trigger] s(j) <= m,
    ensures
        -72057594037927936 <= dot(w, base, k, s) <= 72057594037927936,
{
    lemma_mass_prefix(w, base, k, size);
    lemma_mass_prefix(w, base, 0, k);
    lemma_dot_bound(w, base, k, s, m);
    let am = abs_mass(w, base, k);
    assert(am * m <= 72057594037927936) by (nonlinear_arith)
        requires
            0 <= am <= 1099511627776,
            0 <= m <= 65535,
    ;
}

/// A weighted sum of samples in `[0, m]` is bounded by the absolute mass
/// times `m`.
pub proof fn lemma_dot_bound(w: Seq<i32>, base: int, n: nat, s: spec_fn(int) -> int, m: int)
    requires
        0 <= m,
        forall|k: int| 0 <= k < n ==> 0 <= #[trigger] s(k) <= m,
    ensures
        abs(dot(w, base, n, s)) <= abs_mass(w, base, n) * m,
    decreases n,
{
    if n > 0 {
        lemma_dot_bound(w, base, (n - 1) as nat, s, m);
        let x = w[base + n - 1] as int;
        let v = s(n - 1);
        assert(abs(x * v) <= abs(x) * m) by (nonlinear_arith)
            requires
                0 <= v <= m,
        ;
        assert(abs_mass(w, base, n) * m == abs_mass(w, base, (n - 1) as nat) * m + abs(x) * m)
            by (nonlinear_arith)
            requires
                abs_mass(w, base, n) == abs_mass(w, base, (n - 1) as nat) + abs(x),
        ;
    }
}

} // verus!

verus! {

/// A flat index into `h` rows of `d` entries splits into a row and a column.
pub proof fn lemma_split_index(i: int, d: int, h: int)
    requires
        0 < d,
        0 <= i < h * d,
    ensures
        i == (i / d) * d + i % d,
        0 <= i / d < h,
        0 <= i % d < d,
{
    vstd::arithmetic::div_mod::lemma_fundamental_div_mod(i, d);
    vstd::arithmetic::div_mod::lemma_mod_pos_bound(i, d);
    vstd::arithmetic::div_mod::lemma_div_pos_is_pos(i, d);
    let q = i / d;
    let r = i % d;
    assert(q * d == d * q) by (nonlinear_arith);
    assert(q < h) by (nonlinear_arith)
        requires
            i == q * d + r,
            0 <= r,
            i < h * d,
            0 < d,
    ;
}

} // verus!
