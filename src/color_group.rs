//! A four-lane accumulator of which the first `channels` lanes carry one pixel.
use crate::sample::{narrow, Sample};
use vstd::prelude::*;

verus! {

#[derive(Clone, Copy, Debug)]
pub struct ColorGroup {
    pub r: i64,
    pub g: i64,
    pub b: i64,
    pub a: i64,
}

impl ColorGroup {
    /// Lane `c` (0 = r, 1 = g, 2 = b, 3 = a).
    pub open spec fn lane(&self, c: int) -> int {
        if c == 0 {
            self.r as int
        } else if c == 1 {
            self.g as int
        } else if c == 2 {
            self.b as int
        } else {
            self.a as int
        }
    }

    pub fn new() -> (r: ColorGroup)
        ensures
            forall|c: int| 0 <= c < 4 ==> #[trigger] r.lane(c) == 0,
    {
        ColorGroup { r: 0, g: 0, b: 0, a: 0 }
    }

    pub fn from_components(r: i64, g: i64, b: i64, a: i64) -> (res: ColorGroup)
        ensures
            res.r == r,
            res.g == g,
            res.b == b,
            res.a == a,
    {
        ColorGroup { r, g, b, a }
    }

    pub fn dup(v: i64) -> (r: ColorGroup)
        ensures
            forall|c: int| 0 <= c < 4 ==> #[trigger] r.lane(c) == v,
    {
        ColorGroup { r: v, g: v, b: v, a: v }
    }

    /// Loads the pixel of `channels` samples at `offset`; other lanes are zero.
    pub fn load<T: Sample>(src: &[T], offset: usize, channels: usize) -> (r: ColorGroup)
        requires
            1 <= channels <= 4,
            offset + channels <= src@.len(),
        ensures
            forall|c: int|
                0 <= c < channels ==> #[trigger] r.lane(c) == src@[offset + c].value(),
            forall|c: int| 0 <= c < channels ==> 0 <= #[trigger] r.lane(c) <= T::type_max(),
    {
        let r0 = src[offset].widen();
        let g0 = if channels > 1 {
            src[offset + 1].widen()
        } else {
            0
        };
        let b0 = if channels > 2 {
            src[offset + 2].widen()
        } else {
            0
        };
        let a0 = if channels > 3 {
            src[offset + 3].widen()
        } else {
            0
        };
        ColorGroup { r: r0, g: g0, b: b0, a: a0 }
    }

    /// Adds `px * w` to each of the first `channels` lanes.
    pub fn mul_add(&mut self, px: &ColorGroup, w: i64, channels: usize)
        requires
            1 <= channels <= 4,
            -2147483648 <= w <= 2147483647,
            forall|c: int| 0 <= c < channels ==> 0 <= #[trigger] px.lane(c) <= 65535,
            forall|c: int|
                0 <= c < channels ==> i64::MIN <= #[trigger] old(self).lane(c) + px.lane(c) * w
                    <= i64::MAX,
        ensures
            forall|c: int|
                0 <= c < channels ==> #[trigger] final(self).lane(c) == old(self).lane(c)
                    + px.lane(c) * w,
            forall|c: int| channels <= c < 4 ==> #[trigger] final(self).lane(c) == old(self).lane(c),
    {
        proof {
            assert(px.lane(0) == px.r);
            assert(old(self).lane(0) == old(self).r);
            assert(old(self).lane(1) == old(self).g);
            assert(old(self).lane(2) == old(self).b);
            assert(old(self).lane(3) == old(self).a);
            lemma_product_fits(px.r as int, w as int);
        }
        self.r = self.r + px.r * w;
        if channels > 1 {
            proof {
                assert(px.lane(1) == px.g);
                lemma_product_fits(px.g as int, w as int);
            }
            self.g = self.g + px.g * w;
        }
        if channels > 2 {
            proof {
                assert(px.lane(2) == px.b);
                lemma_product_fits(px.b as int, w as int);
            }
            self.b = self.b + px.b * w;
        }
        if channels > 3 {
            proof {
                assert(px.lane(3) == px.a);
                lemma_product_fits(px.a as int, w as int);
            }
            self.a = self.a + px.a * w;
        }
    }

    /// Narrows each of the first `channels` lanes; other lanes become zero.
    pub fn saturate_narrow(&self, max_value: i64, channels: usize) -> (r: ColorGroup)
        requires
            1 <= channels <= 4,
            0 <= max_value,
        ensures
            forall|c: int|
                0 <= c < channels ==> #[trigger] r.lane(c) == narrow(self.lane(c), max_value as int),
            forall|c: int| 0 <= c < channels ==> 0 <= #[trigger] r.lane(c) <= max_value,
            forall|c: int| channels <= c < 4 ==> #[trigger] r.lane(c) == 0,
    {
        let r0 = crate::sample::saturate_narrow(self.r, max_value);
        let g0 = if channels > 1 {
            crate::sample::saturate_narrow(self.g, max_value)
        } else {
            0
        };
        let b0 = if channels > 2 {
            crate::sample::saturate_narrow(self.b, max_value)
        } else {
            0
        };
        let a0 = if channels > 3 {
            crate::sample::saturate_narrow(self.a, max_value)
        } else {
            0
        };
        ColorGroup { r: r0, g: g0, b: b0, a: a0 }
    }

    /// Stores the first `channels` lanes at `offset`.
    pub fn store<T: Sample>(&self, dst: &mut Vec<T>, offset: usize, channels: usize)
        requires
            1 <= channels <= 4,
            offset + channels <= old(dst)@.len(),
            forall|c: int| 0 <= c < channels ==> 0 <= #[trigger] self.lane(c) <= T::type_max(),
        ensures
            final(dst)@.len() == old(dst)@.len(),
            forall|c: int|
                0 <= c < channels ==> (#[trigger] final(dst)@[offset + c]).value() == self.lane(
                    c,
                ),
            forall|i: int|
                0 <= i < old(dst)@.len() && !(offset <= i < offset + channels)
                    ==> #[trigger] final(dst)@[i] == old(dst)@[i],
    {
        let _len = dst.len();
        proof {
            assert(self.lane(0) == self.r);
        }
        dst.set(offset, T::from_narrowed(self.r));
        if channels > 1 {
            proof {
                assert(self.lane(1) == self.g);
            }
            dst.set(offset + 1, T::from_narrowed(self.g));
        }
        if channels > 2 {
            proof {
                assert(self.lane(2) == self.b);
            }
            dst.set(offset + 2, T::from_narrowed(self.b));
        }
        if channels > 3 {
            proof {
                assert(self.lane(3) == self.a);
            }
            dst.set(offset + 3, T::from_narrowed(self.a));
        }
    }
}

pub proof fn lemma_product_fits(v: int, w: int)
    requires
        0 <= v <= 65535,
        -2147483648 <= w <= 2147483647,
    ensures
        -140737488355328 <= v * w <= 140737488355328,
{
    assert(-140737488355328 <= v * w <= 140737488355328) by (nonlinear_arith)
        requires
            0 <= v <= 65535,
            -2147483648 <= w <= 2147483647,
    ;
}

} // verus!
