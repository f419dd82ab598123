//! Equirectangular-to-cubemap conversion.
//!
//! The capture transform set is the six axis-aligned views from the origin
//! (+X, -X, +Y, -Y, +Z, -Z) under a 90-degree, aspect-one projection.  With
//! that projection a pixel `(x, y)` of face `f` sees the direction
//! `forward + u*right + v*up`, where `u` and `v` are the pixel-center
//! offsets in `[-1, 1]`; the face bases below spell those vectors out
//! exactly, so no matrix arithmetic is needed.  Each destination texel
//! samples the source image in its direction, and the finished base level
//! is extended downward into a full mip chain.

use crate::fixed::{div_nonneg, SCALE};
use crate::mipchain::{
    build_mip_chain, chain_len_spec, downsample_spec, lemma_downsample_within,
};
use crate::sample::{lemma_mip_res_bounds, sample_equirect, sample_equirect_spec};
use crate::texture::{
    face_idx_spec, lemma_face_index_decompose, mip_res_spec, seq_constant, seq_texels_wf,
    seq_within, texel_constant, texel_wf, texel_within, Texel, Texture2D, TextureCubeMap,
    TextureError, DIM_MAX, VAL_MAX,
};
use vstd::arithmetic::div_mod::lemma_multiply_divide_lt;
use vstd::prelude::*;

verus! {

/// The pixel-center offset of column or row `p` in `[-1, 1]`.
pub open spec fn face_uv_spec(p: int, res: int) -> int
    recommends
        1 <= res,
{
    ((2 * p + 1) * (SCALE as int)) / res - (SCALE as int)
}

/// The world direction a face pixel looks along, unnormalized, with the
/// forward axis at unit length.
pub open spec fn face_dir_spec(f: int, x: int, y: int, res: int) -> (int, int, int) {
    let u = face_uv_spec(x, res);
    let v = face_uv_spec(y, res);
    if f == 0 {
        ((SCALE as int), -v, -u)
    } else if f == 1 {
        (-(SCALE as int), -v, u)
    } else if f == 2 {
        (u, (SCALE as int), v)
    } else if f == 3 {
        (u, -(SCALE as int), -v)
    } else if f == 4 {
        (u, -v, (SCALE as int))
    } else {
        (-u, -v, -(SCALE as int))
    }
}

/// The converted texel of face `f`, pixel `(x, y)`.
pub open spec fn convert_texel_spec(img: Texture2D, res: int, f: int, x: int, y: int) -> Texel {
    let d = face_dir_spec(f, x, y, res);
    sample_equirect_spec(img, d.0, d.1, d.2)
}

/// The whole converted base level, face-major.
pub open spec fn convert_mip0_spec(img: Texture2D, res: int) -> Seq<Texel> {
    Seq::new(
        (6 * res * res) as nat,
        |i: int|
            convert_texel_spec(
                img,
                res,
                i / (res * res),
                (i % (res * res)) % res,
                (i % (res * res)) / res,
            ),
    )
}

/// Executable pixel-center offset.
fn face_uv(p: usize, res: usize) -> (r: i64)
    requires
        p < res,
        res <= DIM_MAX,
    ensures
        r == face_uv_spec(p as int, res as int),
        -SCALE <= r <= SCALE,
{
    let num: i64 = (2 * (p as i64) + 1) * SCALE;
    proof {
        lemma_multiply_divide_lt(num as int, res as int, 2097152int);
    }
    let q: i64 = div_nonneg(num, res as i64);
    q - SCALE
}

/// The executable face direction of a pixel.
pub fn face_dir(f: usize, x: usize, y: usize, res: usize) -> (d: (i64, i64, i64))
    requires
        f < 6,
        x < res,
        y < res,
        res <= DIM_MAX,
    ensures
        d.0 == face_dir_spec(f as int, x as int, y as int, res as int).0,
        d.1 == face_dir_spec(f as int, x as int, y as int, res as int).1,
        d.2 == face_dir_spec(f as int, x as int, y as int, res as int).2,
        -SCALE <= d.0 <= SCALE,
        -SCALE <= d.1 <= SCALE,
        -SCALE <= d.2 <= SCALE,
{
    let u: i64 = face_uv(x, res);
    let v: i64 = face_uv(y, res);
    if f == 0 {
        (SCALE, -v, -u)
    } else if f == 1 {
        (-SCALE, -v, u)
    } else if f == 2 {
        (u, SCALE, v)
    } else if f == 3 {
        (u, -SCALE, -v)
    } else if f == 4 {
        (u, -v, SCALE)
    } else {
        (-u, -v, -SCALE)
    }
}

/// Level `m` of every chain is within any interval containing level zero.
proof fn lemma_chain_within_at(
    mips: Seq<Vec<Texel>>,
    face_res: int,
    lo: int,
    hi: int,
    m: int,
)
    requires
        1 <= face_res,
        0 <= m < mips.len(),
        forall|k: int|
            0 <= k < mips.len() ==> (#[trigger] mips[k])@.len() == 6 * mip_res_spec(face_res, k)
                * mip_res_spec(face_res, k),
        forall|k: int|
            1 <= k < mips.len() ==> (#[trigger] mips[k])@ == downsample_spec(
                mips[k - 1]@,
                mip_res_spec(face_res, k - 1),
            ),
        seq_within(mips[0]@, lo, hi),
        -(VAL_MAX as int) <= lo <= hi <= VAL_MAX as int,
    ensures
        seq_within(mips[m]@, lo, hi),
    decreases m,
{
    if m > 0 {
        lemma_chain_within_at(mips, face_res, lo, hi, m - 1);
        lemma_mip_res_bounds(face_res, m - 1);
        assert(6 * mip_res_spec(face_res, m - 1) * mip_res_spec(face_res, m - 1) == 6 * (
        mip_res_spec(face_res, m - 1) * mip_res_spec(face_res, m - 1))) by (nonlinear_arith);
        lemma_downsample_within(mips[m - 1]@, mip_res_spec(face_res, m - 1), lo, hi);
    }
}

impl TextureCubeMap {
    /// Converts a well-formed equirectangular radiance image into a cubemap
    /// with the requested face resolution and a full mip chain.
    ///
    /// Succeeds exactly when the face resolution is positive and bounded;
    /// on success every base-level texel is the source sample along its
    /// face direction, deeper levels are box-filtered halves, and the map
    /// stays inside any radiance interval that contains the source.
    #[verifier::loop_isolation(false)]
    pub fn new_from_hdr(equirect: &Texture2D, face_resolution: usize) -> (res: Result<
        TextureCubeMap,
        TextureError,
    >)
        requires
            equirect.wf(),
        ensures
            match res {
                Ok(cube) => {
                    &&& 1 <= face_resolution <= DIM_MAX
                    &&& cube.wf()
                    &&& cube.face_resolution == face_resolution
                    &&& cube.mips@.len() == chain_len_spec(face_resolution as int)
                    &&& cube.mips@[0]@ == convert_mip0_spec(*equirect, face_resolution as int)
                    &&& forall|m: int|
                        1 <= m < cube.mips@.len() ==> (#[trigger] cube.mips@[m])@
                            == downsample_spec(
                            cube.mips@[m - 1]@,
                            mip_res_spec(face_resolution as int, m - 1),
                        )
                    &&& forall|f: int, x: int, y: int|
                        0 <= f < 6 && 0 <= x < face_resolution && 0 <= y < face_resolution
                            ==> cube.mips@[0]@[#[trigger] face_idx_spec(
                            face_resolution as int,
                            f,
                            x,
                            y,
                        )] == convert_texel_spec(*equirect, face_resolution as int, f, x, y)
                    &&& forall|lo: int, hi: int|
                        0 <= lo && hi <= VAL_MAX && equirect.all_within(lo, hi)
                            ==> cube.all_within(lo, hi)
                    &&& forall|c: int|
                        0 <= c <= VAL_MAX && equirect.all_constant(c) ==> cube.all_constant(c)
                },
                Err(TextureError::BadDimensions) => !(1 <= face_resolution <= DIM_MAX),
                Err(_) => false,
            },
    {
        if face_resolution == 0 || face_resolution > DIM_MAX {
            return Err(TextureError::BadDimensions);
        }
        let res: usize = face_resolution;
        proof {
            assert(1 <= (res as int) * (res as int) <= 268435456int && 6 * (res as int) * (
            res as int) == 6 * ((res as int) * (res as int))) by (nonlinear_arith)
                requires
                    1 <= res <= 16384int,
            ;
        }
        let mut mip0: Vec<Texel> = Vec::new();
        let mut f: usize = 0;
        while f < 6
            invariant
                0 <= f <= 6,
                mip0@.len() == (f as int) * ((res as int) * (res as int)),
                forall|j: int|
                    0 <= j < mip0@.len() ==> #[trigger] mip0@[j] == convert_mip0_spec(
                        *equirect,
                        res as int,
                    )[j],
                forall|j: int| 0 <= j < mip0@.len() ==> texel_wf(#[trigger] mip0@[j]),
                forall|lo: int, hi: int|
                    equirect.all_within(lo, hi) ==> seq_within(mip0@, lo, hi),
                forall|c: int| equirect.all_constant(c) ==> seq_constant(mip0@, c),
            decreases 6 - f,
        {
            let mut y: usize = 0;
            while y < res
                invariant
                    0 <= y <= res,
                    mip0@.len() == (f as int) * ((res as int) * (res as int)) + (y as int) * (
                    res as int),
                    forall|j: int|
                        0 <= j < mip0@.len() ==> #[trigger] mip0@[j] == convert_mip0_spec(
                            *equirect,
                            res as int,
                        )[j],
                    forall|j: int| 0 <= j < mip0@.len() ==> texel_wf(#[trigger] mip0@[j]),
                    forall|lo: int, hi: int|
                        equirect.all_within(lo, hi) ==> seq_within(mip0@, lo, hi),
                    forall|c: int| equirect.all_constant(c) ==> seq_constant(mip0@, c),
                decreases res - y,
            {
                let mut x: usize = 0;
                while x < res
                    invariant
                        0 <= x <= res,
                        mip0@.len() == (f as int) * ((res as int) * (res as int)) + (y as int) * (
                        res as int) + (x as int),
                        forall|j: int|
                            0 <= j < mip0@.len() ==> #[trigger] mip0@[j] == convert_mip0_spec(
                                *equirect,
                                res as int,
                            )[j],
                        forall|j: int| 0 <= j < mip0@.len() ==> texel_wf(#[trigger] mip0@[j]),
                        forall|lo: int, hi: int|
                            equirect.all_within(lo, hi) ==> seq_within(mip0@, lo, hi),
                        forall|c: int| equirect.all_constant(c) ==> seq_constant(mip0@, c),
                    decreases res - x,
                {
                    let u: i64 = face_uv(x, res);
                    let v: i64 = face_uv(y, res);
                    let dir: (i64, i64, i64) = if f == 0 {
                        (SCALE, -v, -u)
                    } else if f == 1 {
                        (-SCALE, -v, u)
                    } else if f == 2 {
                        (u, SCALE, v)
                    } else if f == 3 {
                        (u, -SCALE, -v)
                    } else if f == 4 {
                        (u, -v, SCALE)
                    } else {
                        (-u, -v, -SCALE)
                    };
                    let t: Texel = sample_equirect(equirect, dir.0, dir.1, dir.2);
                    proof {
                        let i0 = mip0@.len() as int;
                        assert(i0 == face_idx_spec(res as int, f as int, x as int, y as int))
                            by (nonlinear_arith)
                            requires
                                i0 == (f as int) * ((res as int) * (res as int)) + (y as int) * (
                                res as int) + (x as int),
                        ;
                        lemma_face_index_decompose(res as int, f as int, x as int, y as int);
                        assert(0 <= i0 < 6 * (res as int) * (res as int)) by (nonlinear_arith)
                            requires
                                i0 == (f as int) * ((res as int) * (res as int)) + (y as int) * (
                                res as int) + (x as int) && 0 <= f < 6 && 0 <= x < res && 0 <= y
                                    < res && 1 <= res,
                        ;
                        assert(t == convert_texel_spec(
                            *equirect,
                            res as int,
                            f as int,
                            x as int,
                            y as int,
                        ));
                        assert(convert_mip0_spec(*equirect, res as int)[i0] == convert_texel_spec(
                            *equirect,
                            res as int,
                            f as int,
                            x as int,
                            y as int,
                        ));
                        assert forall|lo: int, hi: int|
                            equirect.all_within(lo, hi) implies seq_within(
                            mip0@.push(t),
                            lo,
                            hi,
                        ) by {
                            assert(texel_within(t, lo, hi));
                            assert forall|j: int|
                                0 <= j < mip0@.push(t).len() implies texel_within(
                                #[trigger] mip0@.push(t)[j],
                                lo,
                                hi,
                            ) by {
                                if j < mip0@.len() {
                                    assert(mip0@.push(t)[j] == mip0@[j]);
                                    assert(seq_within(mip0@, lo, hi));
                                    assert(texel_within(mip0@[j], lo, hi));
                                }
                            }
                        }
                        assert forall|c: int|
                            equirect.all_constant(c) implies seq_constant(mip0@.push(t), c) by {
                            assert(texel_constant(t, c));
                            assert forall|j: int|
                                0 <= j < mip0@.push(t).len() implies texel_constant(
                                #[trigger] mip0@.push(t)[j],
                                c,
                            ) by {
                                if j < mip0@.len() {
                                    assert(mip0@.push(t)[j] == mip0@[j]);
                                    assert(seq_constant(mip0@, c));
                                    assert(texel_constant(mip0@[j], c));
                                }
                            }
                        }
                    }
                    mip0.push(t);
                    x = x + 1;
                }
                proof {
                    assert(((y as int) + 1) * (res as int) == (y as int) * (res as int) + (
                    res as int)) by (nonlinear_arith);
                }
                y = y + 1;
            }
            proof {
                assert(((f as int) + 1) * ((res as int) * (res as int)) == (f as int) * ((
                res as int) * (res as int)) + (res as int) * (res as int)) by (nonlinear_arith);
            }
            f = f + 1;
        }
        let ghost m0 = mip0@;
        let mips: Vec<Vec<Texel>> = build_mip_chain(res, mip0);
        let cube = TextureCubeMap { face_resolution: res, mips };
        proof {
            assert(cube.mips@[0]@ =~= convert_mip0_spec(*equirect, res as int));
            assert forall|f2: int, x2: int, y2: int|
                0 <= f2 < 6 && 0 <= x2 < res && 0 <= y2 < res implies cube.mips@[0]@[
            #[trigger] face_idx_spec(res as int, f2, x2, y2)] == convert_texel_spec(
                *equirect,
                res as int,
                f2,
                x2,
                y2,
            ) by {
                lemma_face_index_decompose(res as int, f2, x2, y2);
                assert(0 <= face_idx_spec(res as int, f2, x2, y2) < 6 * (res as int) * (
                res as int)) by (nonlinear_arith)
                    requires
                        0 <= f2 < 6 && 0 <= x2 < res && 0 <= y2 < res && 1 <= res,
                ;
            }
            assert forall|m: int, i: int|
                0 <= m < cube.mips@.len() && 0 <= i < cube.mips@[m]@.len() implies texel_wf(
                #[trigger] cube.mips@[m]@[i],
            ) by {
                assert(seq_texels_wf(cube.mips@[m]@));
            }
            assert(cube.wf());
            assert forall|lo: int, hi: int|
                0 <= lo && hi <= VAL_MAX && equirect.all_within(lo, hi) implies cube.all_within(
                lo,
                hi,
            ) by {
                assert((equirect.width as int) * (equirect.height as int) >= 1)
                    by (nonlinear_arith)
                    requires
                        1 <= equirect.width && 1 <= equirect.height,
                ;
                assert(texel_within(equirect.texels@[0], lo, hi));
                assert(seq_within(cube.mips@[0]@, lo, hi));
                assert forall|m: int, i: int|
                    0 <= m < cube.mips@.len() && 0 <= i < cube.mips@[m]@.len() implies texel_within(
                    #[trigger] cube.mips@[m]@[i],
                    lo,
                    hi,
                ) by {
                    lemma_chain_within_at(cube.mips@, res as int, lo, hi, m);
                    assert(seq_within(cube.mips@[m]@, lo, hi));
                }
            }
            assert forall|c: int|
                0 <= c <= VAL_MAX && equirect.all_constant(c) implies cube.all_constant(c) by {
                assert(seq_within(cube.mips@[0]@, c, c)) by {
                    assert(seq_constant(cube.mips@[0]@, c));
                    assert forall|i: int|
                        0 <= i < cube.mips@[0]@.len() implies texel_within(
                        #[trigger] cube.mips@[0]@[i],
                        c,
                        c,
                    ) by {
                        assert(texel_constant(cube.mips@[0]@[i], c));
                    }
                }
                assert forall|m: int, i: int|
                    0 <= m < cube.mips@.len() && 0 <= i < cube.mips@[m]@.len()
                    implies texel_constant(#[trigger] cube.mips@[m]@[i], c) by {
                    lemma_chain_within_at(cube.mips@, res as int, c, c, m);
                    assert(seq_within(cube.mips@[m]@, c, c));
                    assert(texel_within(cube.mips@[m]@[i], c, c));
                }
            }
        }
        Ok(cube)
    }
}


impl TextureCubeMap {
    /// Assembles a cubemap from six equally sized square face images, in
    /// the order +X, -X, +Y, -Y, +Z, -Z, with a single mip level.
    ///
    /// Fails with a dimension error when a face is not square or too
    /// large, and with a size mismatch when the faces disagree.
    #[verifier::loop_isolation(false)]
    pub fn new_from_images(
        file_px: &Texture2D,
        file_nx: &Texture2D,
        file_py: &Texture2D,
        file_ny: &Texture2D,
        file_pz: &Texture2D,
        file_nz: &Texture2D,
    ) -> (res: Result<TextureCubeMap, TextureError>)
        requires
            file_px.wf(),
            file_nx.wf(),
            file_py.wf(),
            file_ny.wf(),
            file_pz.wf(),
            file_nz.wf(),
        ensures
            match res {
                Ok(cube) => {
                    &&& file_px.width == file_px.height
                    &&& file_nx.width == file_px.width && file_nx.height == file_px.width
                    &&& file_py.width == file_px.width && file_py.height == file_px.width
                    &&& file_ny.width == file_px.width && file_ny.height == file_px.width
                    &&& file_pz.width == file_px.width && file_pz.height == file_px.width
                    &&& file_nz.width == file_px.width && file_nz.height == file_px.width
                    &&& cube.wf()
                    &&& cube.face_resolution == file_px.width
                    &&& cube.mips@.len() == 1
                    &&& cube.mips@[0]@ == file_px.texels@ + file_nx.texels@ + file_py.texels@
                        + file_ny.texels@ + file_pz.texels@ + file_nz.texels@
                },
                Err(TextureError::BadDimensions) => file_px.width != file_px.height,
                Err(TextureError::DataSizeMismatch) => {
                    &&& file_px.width == file_px.height
                    &&& !(file_nx.width == file_px.width && file_nx.height == file_px.width
                        && file_py.width == file_px.width && file_py.height == file_px.width
                        && file_ny.width == file_px.width && file_ny.height == file_px.width
                        && file_pz.width == file_px.width && file_pz.height == file_px.width
                        && file_nz.width == file_px.width && file_nz.height == file_px.width)
                },
                Err(_) => false,
            },
    {
        let res: usize = file_px.width;
        if file_px.height != res {
            return Err(TextureError::BadDimensions);
        }
        if file_nx.width != res || file_nx.height != res || file_py.width != res
            || file_py.height != res || file_ny.width != res || file_ny.height != res
            || file_pz.width != res || file_pz.height != res || file_nz.width != res
            || file_nz.height != res {
            return Err(TextureError::DataSizeMismatch);
        }
        let mut data: Vec<Texel> = Vec::new();
        append_face(&mut data, file_px);
        append_face(&mut data, file_nx);
        append_face(&mut data, file_py);
        append_face(&mut data, file_ny);
        append_face(&mut data, file_pz);
        append_face(&mut data, file_nz);
        let mut mips: Vec<Vec<Texel>> = Vec::new();
        mips.push(data);
        let cube = TextureCubeMap { face_resolution: res, mips };
        proof {
            assert(mip_res_spec(res as int, 0) == res as int);
            assert((res as int) * (res as int) == (file_px.width as int) * (
            file_px.height as int)) by (nonlinear_arith)
                requires
                    file_px.width == res && file_px.height == res,
            ;
            assert(cube.mips@[0]@.len() == 6 * (res as int) * (res as int)) by (nonlinear_arith)
                requires
                    cube.mips@[0]@.len() == 6 * ((res as int) * (res as int)),
            ;
            assert forall|m: int, i: int|
                0 <= m < cube.mips@.len() && 0 <= i < cube.mips@[m]@.len() implies texel_wf(
                #[trigger] cube.mips@[m]@[i],
            ) by {
                let s = cube.mips@[0]@;
                let n = (res as int) * (res as int);
                if i < n {
                    assert(s[i] == file_px.texels@[i]);
                } else if i < 2 * n {
                    assert(s[i] == file_nx.texels@[i - n]);
                } else if i < 3 * n {
                    assert(s[i] == file_py.texels@[i - 2 * n]);
                } else if i < 4 * n {
                    assert(s[i] == file_ny.texels@[i - 3 * n]);
                } else if i < 5 * n {
                    assert(s[i] == file_pz.texels@[i - 4 * n]);
                } else {
                    assert(s[i] == file_nz.texels@[i - 5 * n]);
                }
            }
            assert(cube.wf());
        }
        Ok(cube)
    }
}

/// Appends one face image's texels to the growing face-major buffer.
fn append_face(data: &mut Vec<Texel>, img: &Texture2D)
    ensures
        final(data)@ == old(data)@ + img.texels@,
{
    let mut i: usize = 0;
    while i < img.texels.len()
        invariant
            0 <= i <= img.texels@.len(),
            data@ == old(data)@ + img.texels@.subrange(0, i as int),
        decreases img.texels@.len() - i,
    {
        let t: Texel = img.texels[i];
        proof {
            assert(old(data)@ + img.texels@.subrange(0, (i + 1) as int) == (old(data)@
                + img.texels@.subrange(0, i as int)).push(img.texels@[i as int]));
        }
        data.push(t);
        i = i + 1;
    }
    proof {
        assert(img.texels@.subrange(0, img.texels@.len() as int) == img.texels@);
    }
}

} // verus!
