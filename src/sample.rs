//! Sample types and the saturating narrow from an accumulator to a sample.
use vstd::prelude::*;

verus! {

/// Number of fractional bits of a quantized weight.
pub const PRECISION: u32 = 15;

/// Weight value that stands for 1.0.
pub const WEIGHT_ONE: i64 = 32768;

/// Bias added to every accumulator so that the final shift rounds half up.
pub const ROUNDING_CONST: i64 = 16384;

/// The value of a quantized accumulator after the shift by `PRECISION`,
/// clamped into `[0, max_value]`.
pub open spec fn narrow(acc: int, max_value: int) -> int {
    let shifted = acc / 32768;
    if shifted < 0 {
        0
    } else if shifted > max_value {
        max_value
    } else {
        shifted
    }
}

/// Shifts an accumulator right by `PRECISION` bits (rounding toward negative
/// infinity) and clamps it into `[0, max_value]`.
pub fn saturate_narrow(acc: i64, max_value: i64) -> (r: i64)
    requires
        0 <= max_value,
    ensures
        r == narrow(acc as int, max_value as int),
        0 <= r <= max_value,
{
    if acc < 0 {
        assert(acc as int / 32768 < 0);
        0
    } else {
        let shifted = acc / WEIGHT_ONE;
        if shifted > max_value {
            max_value
        } else {
            shifted
        }
    }
}

/// An integer sample type: 8-bit or 16-bit unsigned.
pub trait Sample: Copy {
    /// The sample as a mathematical integer.
    spec fn value(&self) -> int;

    /// Largest value the type holds.
    spec fn type_max() -> int;

    proof fn lemma_value_range(&self)
        ensures
            0 <= self.value() <= Self::type_max(),
    ;

    proof fn lemma_type_max()
        ensures
            0 < Self::type_max() <= 65535,
    ;

    proof fn lemma_value_injective(a: Self, b: Self)
        ensures
            a.value() == b.value() ==> a == b,
    ;

    fn widen(&self) -> (r: i64)
        ensures
            r as int == self.value(),
            0 <= r <= Self::type_max(),
    ;

    fn from_narrowed(v: i64) -> (r: Self)
        requires
            0 <= v <= Self::type_max(),
        ensures
            r.value() == v,
    ;

    fn max_of_type() -> (r: i64)
        ensures
            r == Self::type_max(),
            0 < r <= 65535,
    ;
}

impl Sample for u8 {
    open spec fn value(&self) -> int {
        *self as int
    }

    open spec fn type_max() -> int {
        255
    }

    proof fn lemma_value_range(&self) {
    }

    proof fn lemma_type_max() {
    }

    proof fn lemma_value_injective(a: Self, b: Self) {
    }

    fn widen(&self) -> (r: i64) {
        *self as i64
    }

    fn from_narrowed(v: i64) -> (r: Self) {
        v as u8
    }

    fn max_of_type() -> (r: i64) {
        255
    }
}

impl Sample for u16 {
    open spec fn value(&self) -> int {
        *self as int
    }

    open spec fn type_max() -> int {
        65535
    }

    proof fn lemma_value_range(&self) {
    }

    proof fn lemma_type_max() {
    }

    proof fn lemma_value_injective(a: Self, b: Self) {
    }

    fn widen(&self) -> (r: i64) {
        *self as i64
    }

    fn from_narrowed(v: i64) -> (r: Self) {
        v as u16
    }

    fn max_of_type() -> (r: i64) {
        65535
    }
}

/// The values of a buffer of samples.
pub open spec fn values<T: Sample>(s: Seq<T>) -> Seq<int> {
    s.map_values(|x: T| x.value())
}

/// Buffers with equal values are equal.
pub proof fn lemma_values_injective<T: Sample>(a: Seq<T>, b: Seq<T>)
    requires
        values(a) == values(b),
    ensures
        a == b,
{
    lemma_values_in_range(a);
    lemma_values_in_range(b);
    assert forall|i: int| 0 <= i < a.len() implies a[i] == b[i] by {
        lemma_values_in_range(a);
        lemma_values_in_range(b);
        assert(values(a)[i] == a[i].value());
        assert(values(b)[i] == b[i].value());
        assert(values(a)[i] == values(b)[i]);
        assert(i < b.len());
        assert(a[i].value() == b[i].value());
        T::lemma_value_injective(a[i], b[i]);
    }
    assert(a =~= b);
}

/// Every entry of `img` lies in `[0, m]`.
pub open spec fn in_range(img: Seq<int>, m: int) -> bool {
    forall|i: int| 0 <= i < img.len() ==> 0 <= #[trigger] img[i] <= m
}

pub proof fn lemma_values_in_range<T: Sample>(s: Seq<T>)
    ensures
        values(s).len() == s.len(),
        in_range(values(s), T::type_max()),
        forall|i: int| 0 <= i < s.len() ==> #[trigger] values(s)[i] == s[i].value(),
{
    assert forall|i: int| 0 <= i < values(s).len() implies 0 <= #[trigger] values(s)[i]
        <= T::type_max() by {
        s[i].lemma_value_range();
    }
}

} // verus!
