//! Nearest-neighbour resampling: a coordinate-mapping copy.
use crate::filter_weights::{lemma_row_index, lemma_split_index};
use vstd::prelude::*;

verus! {

/// The source coordinate of destination coordinate `x` along an axis of
/// `dst_len` outputs and `src_len` inputs:
/// `floor((x + 0.5) * src_len / dst_len - 0.5)`, clamped into the input.
pub open spec fn nearest_coord(x: int, dst_len: int, src_len: int) -> int {
    let v = ((2 * x + 1) * src_len - dst_len) / (2 * dst_len);
    if v < 0 {
        0
    } else if v > src_len - 1 {
        src_len - 1
    } else {
        v
    }
}

/// Index into the source buffer of sample `(x, y, c)` of the destination.
pub open spec fn nearest_source_index(
    x: int,
    y: int,
    c: int,
    src_width: int,
    src_height: int,
    dst_width: int,
    dst_height: int,
    channels: int,
) -> int {
    nearest_coord(y, dst_height, src_height) * (src_width * channels) + nearest_coord(
        x,
        dst_width,
        src_width,
    ) * channels + c
}

/// The whole destination of a nearest-neighbour resize.
pub open spec fn nearest_image<T>(
    src: Seq<T>,
    src_width: int,
    src_height: int,
    dst_width: int,
    dst_height: int,
    channels: int,
) -> Seq<T> {
    let ds = dst_width * channels;
    Seq::new(
        (dst_height * ds) as nat,
        |i: int|
            src[nearest_source_index(
                (i % ds) / channels,
                i / ds,
                (i % ds) % channels,
                src_width,
                src_height,
                dst_width,
                dst_height,
                channels,
            )],
    )
}

/// Computes `nearest_coord(x, dst_len, src_len)`.
fn nearest_coordinate(x: usize, dst_len: usize, src_len: usize) -> (r: usize)
    requires
        x < dst_len,
        0 < src_len,
        2 * (dst_len as int) * (src_len as int) <= u128::MAX,
    ensures
        r == nearest_coord(x as int, dst_len as int, src_len as int),
        r < src_len,
{
    let t: u128 = 2 * (x as u128) + 1;
    proof {
        assert(t * (src_len as int) <= 2 * (dst_len as int) * (src_len as int)) by (nonlinear_arith)
            requires
                t == 2 * x + 1,
                x < dst_len,
                0 < src_len,
        ;
    }
    let num: u128 = t * (src_len as u128);
    let den: u128 = 2 * (dst_len as u128);
    if num < dst_len as u128 {
        proof {
            let v = (num - dst_len) / (2 * dst_len as int);
            assert(v < 0) by (nonlinear_arith)
                requires
                    num - dst_len < 0,
                    2 * dst_len > 0,
                    v == (num - dst_len) / (2 * dst_len as int),
            ;
        }
        0
    } else {
        let v = (num - dst_len as u128) / den;
        if v > (src_len - 1) as u128 {
            src_len - 1
        } else {
            v as usize
        }
    }
}

/// Resizes `src` (`src_width` by `src_height` pixels of `channels` samples)
/// into `dst` (`dst_width` by `dst_height`) by copying, for each destination
/// pixel, the source pixel whose centre lies nearest.
#[verifier::loop_isolation(false)]
pub fn resize_nearest<T: Copy>(
    src: &[T],
    src_width: usize,
    src_height: usize,
    dst: &mut [T],
    dst_width: usize,
    dst_height: usize,
    channels: usize,
)
    requires
        1 <= channels <= 4,
        0 < src_width,
        0 < src_height,
        src@.len() == src_height * (src_width * channels),
        old(dst)@.len() == dst_height * (dst_width * channels),
        2 * (dst_width as int) * (src_width as int) <= u128::MAX,
        2 * (dst_height as int) * (src_height as int) <= u128::MAX,
    ensures
        final(dst)@ == nearest_image(
            src@,
            src_width as int,
            src_height as int,
            dst_width as int,
            dst_height as int,
            channels as int,
        ),
{
    let ghost expected = nearest_image(
        src@,
        src_width as int,
        src_height as int,
        dst_width as int,
        dst_height as int,
        channels as int,
    );
    let dl = dst.len();
    let sl = src.len();
    proof {
        if dst_height > 0 {
            lemma_row_index(0, 0, (dst_width * channels) as int, dst_height as int);
        }
        lemma_row_index(0, 0, (src_width * channels) as int, src_height as int);
        assert(src_width * channels <= src_height * (src_width * channels)) by (nonlinear_arith)
            requires
                0 < src_height,
        ;
    }
    let src_stride = src_width * channels;
    assert(src_stride <= sl);
    let dst_stride = if dst_height > 0 {
        dst_width * channels
    } else {
        0
    };
    let mut y: usize = 0;
    while y < dst_height
        invariant
            1 <= channels <= 4,
            0 < src_width,
            0 < src_height,
            src_stride == src_width * channels,
            dst_height > 0 ==> dst_stride == dst_width * channels,
            src@.len() == src_height * src_stride,
            dl == dst@.len(),
            sl == src@.len(),
            dst@.len() == dst_height * (dst_width * channels),
            2 * (dst_width as int) * (src_width as int) <= u128::MAX,
            2 * (dst_height as int) * (src_height as int) <= u128::MAX,
            y <= dst_height,
            forall|i: int|
                0 <= i < y * dst_stride ==> #[trigger] dst@[i] == expected[i],
        decreases dst_height - y,
    {
        let sy = nearest_coordinate(y, dst_height, src_height);
        proof {
            lemma_row_index(sy as int, 0, src_stride as int, src_height as int);
            lemma_row_index(y as int, 0, dst_stride as int, dst_height as int);
        }
        let src_row = sy * src_stride;
        let dst_row = y * dst_stride;
        let mut x: usize = 0;
        while x < dst_width
            invariant
                1 <= channels <= 4,
                0 < src_width,
                src_stride == src_width * channels,
                dst_stride == dst_width * channels,
                src@.len() == src_height * src_stride,
                dl == dst@.len(),
                sl == src@.len(),
                dst@.len() == dst_height * dst_stride,
                2 * (dst_width as int) * (src_width as int) <= u128::MAX,
                y < dst_height,
                sy == nearest_coord(y as int, dst_height as int, src_height as int),
                sy < src_height,
                src_row == sy * src_stride,
                src_row + src_stride <= src@.len(),
                dst_row == y * dst_stride,
                dst_row + dst_stride <= dst@.len(),
                x <= dst_width,
                forall|i: int|
                    0 <= i < dst_row + x * channels ==> #[trigger] dst@[i] == expected[i],
            decreases dst_width - x,
        {
            let sx = nearest_coordinate(x, dst_width, src_width);
            proof {
                lemma_row_index(sx as int, 0, channels as int, src_width as int);
                lemma_row_index(x as int, 0, channels as int, dst_width as int);
            }
            let s_off = src_row + sx * channels;
            let d_off = dst_row + x * channels;
            let mut c: usize = 0;
            while c < channels
                invariant
                    c <= channels,
                    1 <= channels <= 4,
                    dl == dst@.len(),
                    sl == src@.len(),
                    dst@.len() == dst_height * dst_stride,
                    s_off + channels <= src@.len(),
                    d_off + channels <= dst@.len(),
                    d_off == dst_row + x * channels,
                    s_off == src_row + sx * channels,
                    forall|i: int| 0 <= i < d_off ==> #[trigger] dst@[i] == expected[i],
                    forall|j: int| 0 <= j < c ==> #[trigger] dst@[d_off + j] == src@[s_off + j],
                decreases channels - c,
            {
                dst[d_off + c] = src[s_off + c];
                c = c + 1;
            }
            proof {
                assert((x + 1) * channels == x * channels + channels) by (nonlinear_arith);
                assert forall|i: int| 0 <= i < dst_row + (x + 1) * channels implies #[trigger] dst@[i]
                    == expected[i] by {
                    if i >= d_off {
                        let j = i - d_off;
                        assert(dst@[d_off + j] == src@[s_off + j]);
                        lemma_row_index(y as int, x * channels + j, dst_stride as int, dst_height as int);
                        assert(i / dst_stride as int == y as int && i % dst_stride as int == x * channels + j) by {
                            vstd::arithmetic::div_mod::lemma_fundamental_div_mod_converse(
                                i,
                                dst_stride as int,
                                y as int,
                                x * channels + j,
                            );
                        }
                        assert((x * channels + j) / channels as int == x as int && (x * channels + j)
                            % channels as int == j) by {
                            vstd::arithmetic::div_mod::lemma_fundamental_div_mod_converse(
                                x * channels + j,
                                channels as int,
                                x as int,
                                j,
                            );
                        }
                        assert(expected.len() == dst_height * dst_stride);
                        assert(nearest_source_index(
                            x as int,
                            y as int,
                            j,
                            src_width as int,
                            src_height as int,
                            dst_width as int,
                            dst_height as int,
                            channels as int,
                        ) == s_off + j);
                        assert(expected[i] == src@[s_off + j]);
                    }
                }
            }
            x = x + 1;
        }
        proof {
            assert(dst_row + dst_width * channels == (y + 1) * dst_stride) by (nonlinear_arith)
                requires
                    dst_row == y * dst_stride,
                    dst_stride == dst_width * channels,
            ;
        }
        y = y + 1;
    }
    proof {
        assert(dst@.len() == expected.len());
        assert(dst@ =~= expected);
    }
}

} // verus!
