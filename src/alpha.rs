//! Associating and dissociating alpha, in place, on interleaved pixels whose
//! last channel is alpha.
//!
//! Every color sample of a pixel goes through the same rule with the pixel's
//! alpha `a`, and the alpha sample itself is left as it is:
//! - premultiply, 8 bits: `round(s * a / 255)`;
//! - premultiply, `b` bits: `min(floor(s * a / max), max)` with `max = 2^b - 1`;
//! - unpremultiply, 8 bits: `min(floor(s * 255 / a), 255)`;
//! - unpremultiply, `b` bits: `min(floor(s * max / a), 65535)`;
//! and a pixel with `a == 0` is left as it is by the unpremultiply rules.
//! Samples after the last whole pixel are left unchanged.
use crate::filter_weights::lemma_row_index;
use crate::resize_fixed_point::{depth_max, max_for_bit_depth};
use crate::sample::{lemma_values_in_range, values, Sample};
use vstd::prelude::*;

verus! {

/// `round(v / 255)` for `v <= 255 * 255`, computed as
/// `(((v + 128) >> 8) + v + 128) >> 8`, capped at 255.
pub open spec fn div255(v: int) -> int {
    let t = ((v + 128) / 256 + v + 128) / 256;
    if t > 255 {
        255
    } else {
        t
    }
}

fn div_by_255(v: u32) -> (r: i64)
    requires
        v <= 65535,
    ensures
        r == div255(v as int),
        0 <= r <= 255,
{
    let t = ((v + 128) / 256 + v + 128) / 256;
    if t > 255 {
        255
    } else {
        t as i64
    }
}

/// The rule applied to every sample of a pixel.
#[derive(Clone, Copy, Debug, PartialEq, Eq)]
pub enum AlphaRule {
    Premultiply8,
    Unpremultiply8,
    /// With the largest sample value of the bit depth.
    Premultiply16(i64),
    /// With the largest sample value of the bit depth.
    Unpremultiply16(i64),
}

impl AlphaRule {
    pub open spec fn wf(self) -> bool {
        match self {
            AlphaRule::Premultiply16(m) => 1 <= m <= 65535,
            AlphaRule::Unpremultiply16(m) => 1 <= m <= 65535,
            _ => true,
        }
    }

    /// Largest value the rule produces.
    pub open spec fn bound(self) -> int {
        match self {
            AlphaRule::Premultiply8 => 255,
            AlphaRule::Unpremultiply8 => 255,
            _ => 65535,
        }
    }

    /// The new value of sample `s` of a pixel whose alpha is `a`.
    pub open spec fn spec_apply(self, s: int, a: int) -> int {
        match self {
            AlphaRule::Premultiply8 => div255(s * a),
            AlphaRule::Unpremultiply8 => if a == 0 {
                s
            } else if s * 255 / a > 255 {
                255
            } else {
                s * 255 / a
            },
            AlphaRule::Premultiply16(m) => if s * a / (m as int) > m {
                m as int
            } else {
                s * a / (m as int)
            },
            AlphaRule::Unpremultiply16(m) => if a == 0 {
                s
            } else if s * m / a > 65535 {
                65535
            } else {
                s * m / a
            },
        }
    }

    fn apply(self, s: i64, a: i64) -> (r: i64)
        requires
            self.wf(),
            0 <= s <= self.bound(),
            0 <= a <= self.bound(),
        ensures
            r == self.spec_apply(s as int, a as int),
            0 <= r <= self.bound(),
    {
        match self {
            AlphaRule::Premultiply8 => {
                proof {
                    assert(0 <= s * a <= 65025) by (nonlinear_arith)
                        requires
                            0 <= s <= 255,
                            0 <= a <= 255,
                    ;
                }
                div_by_255((s * a) as u32)
            },
            AlphaRule::Unpremultiply8 => {
                if a == 0 {
                    s
                } else {
                    let v = s * 255 / a;
                    if v > 255 {
                        255
                    } else {
                        v
                    }
                }
            },
            AlphaRule::Premultiply16(m) => {
                proof {
                    assert(0 <= s * a <= 65535 * 65535) by (nonlinear_arith)
                        requires
                            0 <= s <= 65535,
                            0 <= a <= 65535,
                    ;
                }
                let v = s * a / m;
                if v > m {
                    m
                } else {
                    v
                }
            },
            AlphaRule::Unpremultiply16(m) => {
                if a == 0 {
                    s
                } else {
                    proof {
                        assert(0 <= s * m <= 65535 * 65535) by (nonlinear_arith)
                            requires
                                0 <= s <= 65535,
                                1 <= m <= 65535,
                        ;
                        assert(0 <= (s * m) as int / (a as int)) by (nonlinear_arith)
                            requires
                                0 <= s * m,
                                0 < a,
                        ;
                    }
                    let v = s * m / a;
                    if v > 65535 {
                        65535
                    } else {
                        v
                    }
                }
            },
        }
    }
}

/// Sample `k` of a pixel of `channels` samples after `rule`, where `s` is its
/// old value and `a` the pixel's alpha: the rule for a color sample, the
/// alpha sample unchanged.
pub open spec fn pixel_sample(rule: AlphaRule, s: int, a: int, k: int, channels: int) -> int {
    if k < channels - 1 {
        rule.spec_apply(s, a)
    } else {
        s
    }
}

/// `new` is `old` with `rule` applied to every color sample of every whole
/// pixel of `channels` samples, the last of which is alpha.
pub open spec fn alpha_rule_applied(
    old: Seq<int>,
    new: Seq<int>,
    channels: int,
    rule: AlphaRule,
) -> bool {
    &&& new.len() == old.len()
    &&& forall|q: int, k: int|
        0 <= q < old.len() as int / channels && 0 <= k < channels ==> #[trigger] new[q * channels + k]
            == pixel_sample(
                rule,
                old[q * channels + k],
                old[q * channels + channels - 1],
                k,
                channels,
            )
    &&& forall|i: int|
        (old.len() as int / channels) * channels <= i < old.len() ==> #[trigger] new[i] == old[i]
}

/// Applies `rule` to every whole pixel of `in_place`.
#[verifier::loop_isolation(false)]
pub fn apply_alpha_rule<T: Sample>(in_place: &mut [T], channels: usize, rule: AlphaRule)
    requires
        2 <= channels <= 4,
        rule.wf(),
        rule.bound() <= T::type_max(),
        T::type_max() <= rule.bound(),
    ensures
        alpha_rule_applied(values(old(in_place)@), values(final(in_place)@), channels as int, rule),
{
    let ghost old_vals = values(in_place@);
    proof {
        lemma_values_in_range(in_place@);
    }
    let len = in_place.len();
    let n = len / channels;
    proof {
        vstd::arithmetic::div_mod::lemma_fundamental_div_mod(len as int, channels as int);
        vstd::arithmetic::div_mod::lemma_mod_pos_bound(len as int, channels as int);
        assert(n * channels == channels * n) by (nonlinear_arith);
    }
    let mut q: usize = 0;
    while q < n
        invariant
            q <= n,
            in_place@.len() == len,
            n * channels <= len,
            old_vals.len() == len,
            forall|qq: int, k: int|
                0 <= qq < q && 0 <= k < channels ==> #[trigger] in_place@[qq * channels + k].value()
                    == pixel_sample(
                        rule,
                        old_vals[qq * channels + k],
                        old_vals[qq * channels + channels - 1],
                        k,
                        channels as int,
                    ),
            forall|i: int| q * channels <= i < len ==> #[trigger] in_place@[i].value() == old_vals[i],
        decreases n - q,
    {
        proof {
            lemma_row_index(q as int, 0, channels as int, n as int);
            lemma_row_index(q as int, channels - 1, channels as int, n as int);
            lemma_values_in_range(in_place@);
        }
        let base = q * channels;
        let a = in_place[base + channels - 1].widen();
        let mut k: usize = 0;
        while k < channels - 1
            invariant
                k <= channels - 1,
                in_place@.len() == len,
                base == q * channels,
                base + channels <= n * channels,
                a == old_vals[base + channels - 1],
                0 <= a <= T::type_max(),
                forall|qq: int, kk: int|
                    0 <= qq < q && 0 <= kk < channels ==> #[trigger] in_place@[qq * channels
                        + kk].value() == pixel_sample(
                            rule,
                            old_vals[qq * channels + kk],
                            old_vals[qq * channels + channels - 1],
                            kk,
                            channels as int,
                        ),
                forall|kk: int|
                    0 <= kk < k ==> #[trigger] in_place@[base + kk].value() == pixel_sample(
                        rule,
                        old_vals[base + kk],
                        old_vals[base + channels - 1],
                        kk,
                        channels as int,
                    ),
                forall|i: int| base + k <= i < len ==> #[trigger] in_place@[i].value() == old_vals[i],
            decreases channels - k,
        {
            let s = in_place[base + k].widen();
            let v = rule.apply(s, a);
            let ghost prev = in_place@;
            in_place[base + k] = T::from_narrowed(v);
            proof {
                assert forall|qq: int, kk: int|
                    0 <= qq < q && 0 <= kk < channels implies #[trigger] in_place@[qq * channels
                    + kk].value() == pixel_sample(
                        rule,
                        old_vals[qq * channels + kk],
                        old_vals[qq * channels + channels - 1],
                        kk,
                        channels as int,
                    ) by {
                    lemma_row_index(qq, kk, channels as int, q as int);
                    assert(in_place@[qq * channels + kk] == prev[qq * channels + kk]);
                }
            }
            k = k + 1;
        }
        proof {
            lemma_values_in_range(in_place@);
            assert((q + 1) * channels == base + channels) by (nonlinear_arith)
                requires
                    base == q * channels,
            ;
            assert forall|qq: int, kk: int|
                0 <= qq < q + 1 && 0 <= kk < channels implies #[trigger] in_place@[qq * channels
                + kk].value() == pixel_sample(
                    rule,
                    old_vals[qq * channels + kk],
                    old_vals[qq * channels + channels - 1],
                    kk,
                    channels as int,
                ) by {
                if qq == q {
                    assert(in_place@[base + kk].value() == pixel_sample(
                        rule,
                        old_vals[base + kk],
                        old_vals[base + channels - 1],
                        kk,
                        channels as int,
                    ));
                }
            }
        }
        q = q + 1;
    }
    proof {
        lemma_values_in_range(in_place@);
        let new_vals = values(in_place@);
        assert forall|i: int| n * channels <= i < len implies #[trigger] new_vals[i]
            == old_vals[i] by {
            assert(in_place@[i].value() == new_vals[i]);
        }
        vstd::arithmetic::div_mod::lemma_fundamental_div_mod(len as int, channels as int);
        assert(old_vals.len() as int / channels as int == n);
        assert forall|qq: int, kk: int|
            0 <= qq < n && 0 <= kk < channels implies #[trigger] new_vals[qq * channels + kk]
            == pixel_sample(
                rule,
                old_vals[qq * channels + kk],
                old_vals[qq * channels + channels - 1],
                kk,
                channels as int,
            ) by {
            lemma_row_index(qq, kk, channels as int, n as int);
            assert(in_place@[qq * channels + kk].value() == new_vals[qq * channels + kk]);
        }
    }
}

/// Associates alpha of RGBA pixels with 8 bits per sample.
pub fn premultiply_rgba8(in_place: &mut [u8])
    ensures
        alpha_rule_applied(values(old(in_place)@), values(final(in_place)@), 4, AlphaRule::Premultiply8),
{
    apply_alpha_rule(in_place, 4, AlphaRule::Premultiply8);
}

/// Dissociates alpha of RGBA pixels with 8 bits per sample.
pub fn unpremultiply_rgba8(in_place: &mut [u8])
    ensures
        alpha_rule_applied(
            values(old(in_place)@),
            values(final(in_place)@),
            4,
            AlphaRule::Unpremultiply8,
        ),
{
    apply_alpha_rule(in_place, 4, AlphaRule::Unpremultiply8);
}

/// Associates alpha of luma-alpha pixels with 8 bits per sample.
pub fn premultiply_la8(in_place: &mut [u8])
    ensures
        alpha_rule_applied(values(old(in_place)@), values(final(in_place)@), 2, AlphaRule::Premultiply8),
{
    apply_alpha_rule(in_place, 2, AlphaRule::Premultiply8);
}

/// Dissociates alpha of luma-alpha pixels with 8 bits per sample.
pub fn unpremultiply_la8(in_place: &mut [u8])
    ensures
        alpha_rule_applied(
            values(old(in_place)@),
            values(final(in_place)@),
            2,
            AlphaRule::Unpremultiply8,
        ),
{
    apply_alpha_rule(in_place, 2, AlphaRule::Unpremultiply8);
}

/// Associates alpha of RGBA pixels with `bit_depth` significant bits.
pub fn premultiply_rgba16(in_place: &mut [u16], bit_depth: u32)
    requires
        1 <= bit_depth <= 16,
    ensures
        alpha_rule_applied(
            values(old(in_place)@),
            values(final(in_place)@),
            4,
            AlphaRule::Premultiply16(depth_max(bit_depth as int) as i64),
        ),
{
    let m = max_for_bit_depth(bit_depth);
    apply_alpha_rule(in_place, 4, AlphaRule::Premultiply16(m));
}

/// Associates alpha of luma-alpha pixels with `bit_depth` significant bits.
pub fn premultiply_la16(in_place: &mut [u16], bit_depth: u32)
    requires
        1 <= bit_depth <= 16,
    ensures
        alpha_rule_applied(
            values(old(in_place)@),
            values(final(in_place)@),
            2,
            AlphaRule::Premultiply16(depth_max(bit_depth as int) as i64),
        ),
{
    let m = max_for_bit_depth(bit_depth);
    apply_alpha_rule(in_place, 2, AlphaRule::Premultiply16(m));
}

/// Dissociates alpha of luma-alpha pixels with `bit_depth` significant bits.
pub fn unpremultiply_la16(in_place: &mut [u16], bit_depth: u32)
    requires
        1 <= bit_depth <= 16,
    ensures
        alpha_rule_applied(
            values(old(in_place)@),
            values(final(in_place)@),
            2,
            AlphaRule::Unpremultiply16(depth_max(bit_depth as int) as i64),
        ),
{
    let m = max_for_bit_depth(bit_depth);
    apply_alpha_rule(in_place, 2, AlphaRule::Unpremultiply16(m));
}

/// Dissociates alpha of RGBA pixels with `bit_depth` significant bits.
pub fn unpremultiply_rgba16(in_place: &mut [u16], bit_depth: u32)
    requires
        1 <= bit_depth <= 16,
    ensures
        alpha_rule_applied(
            values(old(in_place)@),
            values(final(in_place)@),
            4,
            AlphaRule::Unpremultiply16(depth_max(bit_depth as int) as i64),
        ),
{
    let m = max_for_bit_depth(bit_depth);
    apply_alpha_rule(in_place, 4, AlphaRule::Unpremultiply16(m));
}

} // verus!
