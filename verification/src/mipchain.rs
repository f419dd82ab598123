//! Mip chains for cubemaps.
//!
//! Each level halves the face resolution (never below one texel) and each
//! destination texel is the exact truncated average of the 2x2 source block
//! under it, with source coordinates clamped at the edge.  Averaging keeps
//! every channel inside the range spanned by the source, and leaves a
//! constant map constant, which is what the radiometric laws of the
//! pipeline stages rest on.

use crate::texture::{
    face_idx_spec, lemma_face_index_decompose, lemma_flat_index_ranges, mip_res_spec,
    seq_texels_wf, seq_within, texel_wf, texel_within, Texel, DIM_MAX, VAL_MAX,
};
use crate::fixed::div_nonneg;
use vstd::arithmetic::div_mod::{
    lemma_div_is_ordered, lemma_div_multiples_vanish, lemma_div_pos_is_pos,
};
use vstd::arithmetic::power2::{lemma2_to64, lemma_pow2_adds, lemma_pow2_strictly_increases, pow2};
use vstd::prelude::*;

verus! {

/// Halved resolution, never below one.
pub open spec fn half_res_spec(res: int) -> int {
    if res / 2 >= 1 {
        res / 2
    } else {
        1
    }
}

/// Number of levels in a full chain that stops at one texel.
pub open spec fn chain_len_spec(res: int) -> int
    recommends
        1 <= res,
    decreases res,
{
    if res <= 1 {
        1
    } else {
        1 + chain_len_spec(res / 2)
    }
}

/// A source coordinate clamped to the last row or column.
pub open spec fn clamp_src_spec(v: int, res: int) -> int {
    if v < res {
        v
    } else {
        res - 1
    }
}

/// The truncated average of the 2x2 source block under destination pixel
/// `(x, y)` of face `f`.
pub open spec fn downsample_texel_spec(src: Seq<Texel>, sres: int, f: int, x: int, y: int) -> Texel {
    let x0 = 2 * x;
    let x1 = clamp_src_spec(2 * x + 1, sres);
    let y0 = 2 * y;
    let y1 = clamp_src_spec(2 * y + 1, sres);
    let a = src[face_idx_spec(sres, f, x0, y0)];
    let b = src[face_idx_spec(sres, f, x1, y0)];
    let c = src[face_idx_spec(sres, f, x0, y1)];
    let d = src[face_idx_spec(sres, f, x1, y1)];
    Texel {
        r: ((a.r + b.r + c.r + d.r) / 4) as i64,
        g: ((a.g + b.g + c.g + d.g) / 4) as i64,
        b: ((a.b + b.b + c.b + d.b) / 4) as i64,
    }
}

/// One whole level below `src`.
pub open spec fn downsample_spec(src: Seq<Texel>, sres: int) -> Seq<Texel> {
    let dres = half_res_spec(sres);
    Seq::new(
        (6 * dres * dres) as nat,
        |i: int|
            downsample_texel_spec(
                src,
                sres,
                i / (dres * dres),
                (i % (dres * dres)) % dres,
                (i % (dres * dres)) / dres,
            ),
    )
}

/// The four source texels of a destination pixel are in bounds.
proof fn lemma_block_in_bounds(sres: int, f: int, x: int, y: int)
    requires
        1 <= sres,
        0 <= f < 6,
        0 <= x < half_res_spec(sres),
        0 <= y < half_res_spec(sres),
    ensures
        0 <= 2 * x < sres,
        0 <= clamp_src_spec(2 * x + 1, sres) < sres,
        0 <= 2 * y < sres,
        0 <= clamp_src_spec(2 * y + 1, sres) < sres,
        forall|xi: int, yi: int|
            0 <= xi < sres && 0 <= yi < sres ==> 0 <= #[trigger] face_idx_spec(sres, f, xi, yi) < 6
                * sres * sres,
{
    assert(2 * x < sres && 2 * y < sres) by (nonlinear_arith)
        requires
            1 <= sres && 0 <= x < half_res_spec(sres) && 0 <= y < half_res_spec(sres),
    ;
    assert forall|xi: int, yi: int| 0 <= xi < sres && 0 <= yi < sres implies 0
        <= #[trigger] face_idx_spec(sres, f, xi, yi) < 6 * sres * sres by {
        assert(0 <= f * sres * sres + yi * sres + xi < 6 * sres * sres) by (nonlinear_arith)
            requires
                1 <= sres && 0 <= f < 6 && 0 <= xi < sres && 0 <= yi < sres,
        ;
    }
}

/// Averaging stays inside any interval that contains the sources.
pub proof fn lemma_downsample_within(src: Seq<Texel>, sres: int, lo: int, hi: int)
    requires
        1 <= sres,
        src.len() == 6 * sres * sres,
        seq_within(src, lo, hi),
        -(VAL_MAX as int) <= lo <= hi <= VAL_MAX as int,
    ensures
        seq_within(downsample_spec(src, sres), lo, hi),
{
    let dst = downsample_spec(src, sres);
    let dres = half_res_spec(sres);
    assert forall|i: int| 0 <= i < dst.len() implies texel_within(#[trigger] dst[i], lo, hi) by {
        lemma_flat_index_ranges(dres, i);
        let f = i / (dres * dres);
        let y = (i % (dres * dres)) / dres;
        let x = (i % (dres * dres)) % dres;
        lemma_block_in_bounds(sres, f, x, y);
        let x0 = 2 * x;
        let x1 = clamp_src_spec(2 * x + 1, sres);
        let y0 = 2 * y;
        let y1 = clamp_src_spec(2 * y + 1, sres);
        assert(texel_within(src[face_idx_spec(sres, f, x0, y0)], lo, hi));
        assert(texel_within(src[face_idx_spec(sres, f, x1, y0)], lo, hi));
        assert(texel_within(src[face_idx_spec(sres, f, x0, y1)], lo, hi));
        assert(texel_within(src[face_idx_spec(sres, f, x1, y1)], lo, hi));
        lemma_avg4_within(
            src[face_idx_spec(sres, f, x0, y0)].r as int,
            src[face_idx_spec(sres, f, x1, y0)].r as int,
            src[face_idx_spec(sres, f, x0, y1)].r as int,
            src[face_idx_spec(sres, f, x1, y1)].r as int,
            lo,
            hi,
        );
        lemma_avg4_within(
            src[face_idx_spec(sres, f, x0, y0)].g as int,
            src[face_idx_spec(sres, f, x1, y0)].g as int,
            src[face_idx_spec(sres, f, x0, y1)].g as int,
            src[face_idx_spec(sres, f, x1, y1)].g as int,
            lo,
            hi,
        );
        lemma_avg4_within(
            src[face_idx_spec(sres, f, x0, y0)].b as int,
            src[face_idx_spec(sres, f, x1, y0)].b as int,
            src[face_idx_spec(sres, f, x0, y1)].b as int,
            src[face_idx_spec(sres, f, x1, y1)].b as int,
            lo,
            hi,
        );
    }
}

/// The truncated average of four values in `[lo, hi]` is in `[lo, hi]`.
proof fn lemma_avg4_within(a: int, b: int, c: int, d: int, lo: int, hi: int)
    requires
        lo <= a <= hi,
        lo <= b <= hi,
        lo <= c <= hi,
        lo <= d <= hi,
    ensures
        lo <= (a + b + c + d) / 4 <= hi,
{
    lemma_div_is_ordered(4 * lo, a + b + c + d, 4);
    lemma_div_is_ordered(a + b + c + d, 4 * hi, 4);
    lemma_div_multiples_vanish(lo, 4);
    lemma_div_multiples_vanish(hi, 4);
}

/// Computes one mip level below `src` by 2x2 box averaging.
#[verifier::loop_isolation(false)]
pub fn downsample_faces(src: &Vec<Texel>, sres: usize) -> (dst: Vec<Texel>)
    requires
        1 <= sres <= DIM_MAX,
        src@.len() == 6 * sres * sres,
        seq_texels_wf(src@),
    ensures
        dst@ == downsample_spec(src@, sres as int),
        seq_texels_wf(dst@),
{
    let dres: usize = if sres / 2 >= 1 {
        sres / 2
    } else {
        1
    };
    proof {
        assert(1 <= (dres as int) * (dres as int) && (dres as int) * (dres as int) <= (
        sres as int) * (sres as int) && (sres as int) * (sres as int) <= 268435456int)
            by (nonlinear_arith)
            requires
                1 <= dres <= sres <= 16384int,
        ;
        assert(6 * (sres as int) * (sres as int) == 6 * ((sres as int) * (sres as int)))
            by (nonlinear_arith);
        assert(6 * (dres as int) * (dres as int) == 6 * ((dres as int) * (dres as int)))
            by (nonlinear_arith);
    }
    let mut dst: Vec<Texel> = Vec::new();
    let mut f: usize = 0;
    while f < 6
        invariant
            0 <= f <= 6,
            dst@.len() == (f as int) * ((dres as int) * (dres as int)),
            forall|j: int|
                0 <= j < dst@.len() ==> #[trigger] dst@[j] == downsample_spec(
                    src@,
                    sres as int,
                )[j],
            forall|j: int| 0 <= j < dst@.len() ==> texel_wf(#[trigger] dst@[j]),
        decreases 6 - f,
    {
        let mut y: usize = 0;
        while y < dres
            invariant
                0 <= y <= dres,
                dst@.len() == (f as int) * ((dres as int) * (dres as int)) + (y as int) * (
                dres as int),
                forall|j: int|
                    0 <= j < dst@.len() ==> #[trigger] dst@[j] == downsample_spec(
                        src@,
                        sres as int,
                    )[j],
                forall|j: int| 0 <= j < dst@.len() ==> texel_wf(#[trigger] dst@[j]),
            decreases dres - y,
        {
            let mut x: usize = 0;
            while x < dres
                invariant
                    0 <= x <= dres,
                    dst@.len() == (f as int) * ((dres as int) * (dres as int)) + (y as int) * (
                    dres as int) + (x as int),
                    forall|j: int|
                        0 <= j < dst@.len() ==> #[trigger] dst@[j] == downsample_spec(
                            src@,
                            sres as int,
                        )[j],
                    forall|j: int| 0 <= j < dst@.len() ==> texel_wf(#[trigger] dst@[j]),
                decreases dres - x,
            {
                proof {
                    lemma_block_in_bounds(sres as int, f as int, x as int, y as int);
                }
                let x0: usize = 2 * x;
                let x1: usize = if 2 * x + 1 < sres {
                    2 * x + 1
                } else {
                    sres - 1
                };
                let y0: usize = 2 * y;
                let y1: usize = if 2 * y + 1 < sres {
                    2 * y + 1
                } else {
                    sres - 1
                };
                proof {
                    assert forall|xi: int, yi: int|
                        0 <= xi < sres && 0 <= yi < sres implies (#[trigger] face_idx_spec(
                        sres as int,
                        f as int,
                        xi,
                        yi,
                    )) == (f as int) * ((sres as int) * (sres as int)) + yi * (sres as int) + xi
                        && 0 <= face_idx_spec(sres as int, f as int, xi, yi) < 6 * ((sres as int)
                        * (sres as int)) by {
                        assert((f as int) * (sres as int) * (sres as int) + yi * (sres as int) + xi
                            == (f as int) * ((sres as int) * (sres as int)) + yi * (sres as int)
                            + xi && 0 <= (f as int) * (sres as int) * (sres as int) + yi * (
                        sres as int) + xi < 6 * ((sres as int) * (sres as int)))
                            by (nonlinear_arith)
                            requires
                                1 <= sres && 0 <= f < 6 && 0 <= xi < sres && 0 <= yi < sres,
                        ;
                    }
                }
                let s2: usize = sres * sres;
                proof {
                    assert(0 <= (f as int) * (s2 as int) <= 1342177280int && 0 <= (y0 as int) * (
                    sres as int) <= 268435456int && 0 <= (y1 as int) * (sres as int)
                        <= 268435456int) by (nonlinear_arith)
                        requires
                            0 <= f <= 5 && 0 <= s2 <= 268435456int && 0 <= y0 < sres
                                && 0 <= y1 < sres && sres <= 16384int,
                    ;
                }
                proof {
                    assert(face_idx_spec(sres as int, f as int, x0 as int, y0 as int) == (
                    f as int) * ((sres as int) * (sres as int)) + (y0 as int) * (sres as int) + (
                    x0 as int));
                    assert(face_idx_spec(sres as int, f as int, x1 as int, y0 as int) == (
                    f as int) * ((sres as int) * (sres as int)) + (y0 as int) * (sres as int) + (
                    x1 as int));
                    assert(face_idx_spec(sres as int, f as int, x0 as int, y1 as int) == (
                    f as int) * ((sres as int) * (sres as int)) + (y1 as int) * (sres as int) + (
                    x0 as int));
                    assert(face_idx_spec(sres as int, f as int, x1 as int, y1 as int) == (
                    f as int) * ((sres as int) * (sres as int)) + (y1 as int) * (sres as int) + (
                    x1 as int));
                }
                let ta: Texel = src[f * s2 + y0 * sres + x0];
                let tb: Texel = src[f * s2 + y0 * sres + x1];
                let tc: Texel = src[f * s2 + y1 * sres + x0];
                let td: Texel = src[f * s2 + y1 * sres + x1];
                proof {
                    assert(texel_wf(src@[face_idx_spec(sres as int, f as int, x0 as int, y0 as int)]));
                    assert(texel_wf(src@[face_idx_spec(sres as int, f as int, x1 as int, y0 as int)]));
                    assert(texel_wf(src@[face_idx_spec(sres as int, f as int, x0 as int, y1 as int)]));
                    assert(texel_wf(src@[face_idx_spec(sres as int, f as int, x1 as int, y1 as int)]));
                    lemma_div_is_ordered(
                        (ta.r + tb.r + tc.r + td.r) as int,
                        17179869184int,
                        4,
                    );
                    lemma_div_is_ordered(
                        (ta.g + tb.g + tc.g + td.g) as int,
                        17179869184int,
                        4,
                    );
                    lemma_div_is_ordered(
                        (ta.b + tb.b + tc.b + td.b) as int,
                        17179869184int,
                        4,
                    );
                    lemma_div_pos_is_pos((ta.r + tb.r + tc.r + td.r) as int, 4);
                    lemma_div_pos_is_pos((ta.g + tb.g + tc.g + td.g) as int, 4);
                    lemma_div_pos_is_pos((ta.b + tb.b + tc.b + td.b) as int, 4);
                }
                let t = Texel {
                    r: div_nonneg(ta.r + tb.r + tc.r + td.r, 4),
                    g: div_nonneg(ta.g + tb.g + tc.g + td.g, 4),
                    b: div_nonneg(ta.b + tb.b + tc.b + td.b, 4),
                };
                proof {
                    let i0 = dst@.len() as int;
                    assert(i0 == face_idx_spec(dres as int, f as int, x as int, y as int))
                        by (nonlinear_arith)
                        requires
                            i0 == (f as int) * ((dres as int) * (dres as int)) + (y as int) * (
                            dres as int) + (x as int),
                    ;
                    lemma_face_index_decompose(dres as int, f as int, x as int, y as int);
                    assert(t == downsample_texel_spec(
                        src@,
                        sres as int,
                        f as int,
                        x as int,
                        y as int,
                    ));
                    assert(0 <= i0 < 6 * (dres as int) * (dres as int)) by (nonlinear_arith)
                        requires
                            i0 == (f as int) * ((dres as int) * (dres as int)) + (y as int) * (
                            dres as int) + (x as int) && 0 <= f < 6 && 0 <= x < dres && 0 <= y
                                < dres && 1 <= dres,
                    ;
                    assert(downsample_spec(src@, sres as int)[i0] == downsample_texel_spec(
                        src@,
                        sres as int,
                        f as int,
                        x as int,
                        y as int,
                    ));
                }
                dst.push(t);
                x = x + 1;
            }
            proof {
                assert(((y as int) + 1) * (dres as int) == (y as int) * (dres as int) + (
                dres as int)) by (nonlinear_arith);
            }
            y = y + 1;
        }
        proof {
            assert(((f as int) + 1) * ((dres as int) * (dres as int)) == (f as int) * ((
            dres as int) * (dres as int)) + (dres as int) * (dres as int)) by (nonlinear_arith);
        }
        f = f + 1;
    }
    proof {
        assert(dst@.len() == 6 * ((dres as int) * (dres as int)));
        assert(dst@ =~= downsample_spec(src@, sres as int));
    }
    dst
}


/// Two raised to one less than the chain length is at most the resolution.
proof fn lemma_chain_len_pow(res: int)
    requires
        1 <= res,
    ensures
        1 <= chain_len_spec(res),
        pow2((chain_len_spec(res) - 1) as nat) <= res,
    decreases res,
{
    if res <= 1 {
        lemma2_to64();
    } else {
        lemma_chain_len_pow(res / 2);
        let l2 = chain_len_spec(res / 2);
        lemma_pow2_adds((l2 - 1) as nat, 1);
        lemma2_to64();
        assert(pow2(l2 as nat) == pow2((l2 - 1) as nat) * 2);
    }
}

/// A chain from a bounded resolution has at most fifteen levels.
pub proof fn lemma_chain_len_bound(res: int)
    requires
        1 <= res <= 16384,
    ensures
        1 <= chain_len_spec(res) <= 15,
{
    lemma_chain_len_pow(res);
    let l = chain_len_spec(res);
    if l > 15 {
        lemma2_to64();
        if l - 1 > 15 {
            lemma_pow2_strictly_increases(15, (l - 1) as nat);
        }
        assert(pow2((l - 1) as nat) >= 32768);
    }
}

/// Builds the full mip chain over a base level: each level the box-filtered
/// half of the one before, down to a one-texel face.
#[verifier::loop_isolation(false)]
pub fn build_mip_chain(face_res: usize, mip0: Vec<Texel>) -> (mips: Vec<Vec<Texel>>)
    requires
        1 <= face_res <= DIM_MAX,
        mip0@.len() == 6 * face_res * face_res,
        seq_texels_wf(mip0@),
    ensures
        mips@.len() == chain_len_spec(face_res as int),
        1 <= mips@.len() <= 15,
        mips@[0]@ == mip0@,
        forall|m: int|
            0 <= m < mips@.len() ==> (#[trigger] mips@[m])@.len() == 6 * mip_res_spec(
                face_res as int,
                m,
            ) * mip_res_spec(face_res as int, m),
        forall|m: int| 0 <= m < mips@.len() ==> seq_texels_wf((#[trigger] mips@[m])@),
        forall|m: int|
            1 <= m < mips@.len() ==> (#[trigger] mips@[m])@ == downsample_spec(
                mips@[m - 1]@,
                mip_res_spec(face_res as int, m - 1),
            ),
        mip_res_spec(face_res as int, mips@.len() - 1) == 1,
{
    proof {
        lemma_chain_len_bound(face_res as int);
        assert(6 * (face_res as int) * (face_res as int) == 6 * ((face_res as int) * (
        face_res as int))) by (nonlinear_arith);
    }
    let ghost m0 = mip0@;
    let mut mips: Vec<Vec<Texel>> = Vec::new();
    mips.push(mip0);
    let mut cur: usize = face_res;
    while cur > 1
        invariant
            1 <= cur <= face_res,
            1 <= mips@.len(),
            cur == mip_res_spec(face_res as int, mips@.len() - 1),
            chain_len_spec(cur as int) + mips@.len() - 1 == chain_len_spec(face_res as int),
            mips@[0]@ == m0,
            forall|m: int|
                0 <= m < mips@.len() ==> (#[trigger] mips@[m])@.len() == 6 * mip_res_spec(
                    face_res as int,
                    m,
                ) * mip_res_spec(face_res as int, m),
            forall|m: int| 0 <= m < mips@.len() ==> seq_texels_wf((#[trigger] mips@[m])@),
            forall|m: int|
                1 <= m < mips@.len() ==> (#[trigger] mips@[m])@ == downsample_spec(
                    mips@[m - 1]@,
                    mip_res_spec(face_res as int, m - 1),
                ),
        decreases cur,
    {
        let last_idx: usize = mips.len() - 1;
        proof {
            assert(6 * (cur as int) * (cur as int) == 6 * ((cur as int) * (cur as int)))
                by (nonlinear_arith);
        }
        let next: Vec<Texel> = downsample_faces(&mips[last_idx], cur);
        let nres: usize = if cur / 2 >= 1 {
            cur / 2
        } else {
            1
        };
        proof {
            assert(half_res_spec(cur as int) == nres as int);
            assert(0 <= 6 * half_res_spec(cur as int) * half_res_spec(cur as int)
                && 6 * half_res_spec(cur as int) * half_res_spec(cur as int) == 6 * (
            half_res_spec(cur as int) * half_res_spec(cur as int))) by (nonlinear_arith)
                requires
                    1 <= half_res_spec(cur as int),
            ;
        }
        mips.push(next);
        cur = nres;
    }
    mips
}

} // verus!
