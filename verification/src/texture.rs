//! Texture data model.
//!
//! Radiance lives on the CPU as fixed-point RGB texels.  A `Texture2D` is a
//! single rectangular image (the equirectangular environment input, or the
//! two-channel BRDF lookup table, whose blue channel is always zero).  A
//! `TextureCubeMap` holds six square faces per mip level, stored as one flat
//! texel vector per level, indexed face-major.

use crate::fixed::SCALE;
use vstd::prelude::*;

verus! {

/// Largest radiance value a source environment texel may carry
/// (1024.0 scaled).
pub const RAD_MAX: i64 = 1073741824;

/// Largest value any texel channel may carry; derived maps such as the
/// irradiance cubemap scale source radiance by pi, so this cap is four
/// times the source cap.
pub const VAL_MAX: i64 = 4294967296;

/// Largest accepted image or face dimension.
pub const DIM_MAX: usize = 16384;

/// One RGB sample, channels scaled by `SCALE`.
#[derive(Clone, Copy, Debug, PartialEq, Eq, Structural)]
pub struct Texel {
    pub r: i64,
    pub g: i64,
    pub b: i64,
}

/// All channels within the representable range.
pub open spec fn texel_wf(t: Texel) -> bool {
    &&& 0 <= t.r <= VAL_MAX
    &&& 0 <= t.g <= VAL_MAX
    &&& 0 <= t.b <= VAL_MAX
}

/// All channels within `[lo, hi]`.
pub open spec fn texel_within(t: Texel, lo: int, hi: int) -> bool {
    &&& lo <= t.r <= hi
    &&& lo <= t.g <= hi
    &&& lo <= t.b <= hi
}

/// All channels equal to `c`.
pub open spec fn texel_constant(t: Texel, c: int) -> bool {
    t.r == c && t.g == c && t.b == c
}

/// Why a texture could not be built.
#[derive(Clone, Copy, Debug, PartialEq, Eq, Structural)]
pub enum TextureError {
    /// A zero or oversized width or height.
    BadDimensions,
    /// The pixel buffer length disagrees with the dimensions.
    DataSizeMismatch,
    /// A channel count this pipeline does not accept.
    UnsupportedFormat,
    /// A radiance value outside `[0, RAD_MAX]`.
    ValueOutOfRange,
}

impl TextureError {
    /// A short description, in place of a `Display` implementation.
    pub fn describe(&self) -> (r: &'static str)
    {
        match self {
            TextureError::BadDimensions => "image dimensions are zero or too large",
            TextureError::DataSizeMismatch => "pixel buffer does not match the dimensions",
            TextureError::UnsupportedFormat => "unsupported pixel format",
            TextureError::ValueOutOfRange => "radiance value out of range",
        }
    }
}

/// A rectangular fixed-point RGB image.
#[derive(Debug)]
pub struct Texture2D {
    pub width: usize,
    pub height: usize,
    pub texels: Vec<Texel>,
}

impl Texture2D {
    /// Structural well-formedness: positive bounded dimensions, one texel
    /// per pixel, channels in range.
    pub open spec fn wf(self) -> bool {
        &&& 0 < self.width <= DIM_MAX
        &&& 0 < self.height <= DIM_MAX
        &&& self.texels@.len() == self.width * self.height
        &&& forall|i: int|
            0 <= i < self.texels@.len() ==> texel_wf(#[trigger] self.texels@[i])
    }

    /// The texel of pixel `(x, y)`, row-major.
    pub open spec fn texel_at(self, x: int, y: int) -> Texel {
        self.texels@[y * (self.width as int) + x]
    }

    /// Every texel has all channels within `[lo, hi]`.
    pub open spec fn all_within(self, lo: int, hi: int) -> bool {
        forall|i: int|
            0 <= i < self.texels@.len() ==> texel_within(#[trigger] self.texels@[i], lo, hi)
    }

    /// Every texel has all channels equal to `c`.
    pub open spec fn all_constant(self, c: int) -> bool {
        forall|i: int|
            0 <= i < self.texels@.len() ==> texel_constant(#[trigger] self.texels@[i], c)
    }

    /// Builds an image from raw interleaved fixed-point RGB data, as an HDR
    /// decoder hands it over.  Succeeds exactly on well-formed input.
    pub fn new_from_hdr(width: usize, height: usize, data: Vec<i64>) -> (res: Result<
        Texture2D,
        TextureError,
    >)
        ensures
            match res {
                Ok(t) => {
                    &&& 0 < width <= DIM_MAX && 0 < height <= DIM_MAX
                    &&& data@.len() == 3 * width * height
                    &&& forall|i: int| 0 <= i < data@.len() ==> 0 <= #[trigger] data@[i] <= RAD_MAX
                    &&& t.wf()
                    &&& t.width == width
                    &&& t.height == height
                    &&& forall|i: int|
                        0 <= i < t.texels@.len() ==> #[trigger] t.texels@[i] == (Texel {
                            r: data@[3 * i],
                            g: data@[3 * i + 1],
                            b: data@[3 * i + 2],
                        })
                },
                Err(TextureError::BadDimensions) => !(0 < width <= DIM_MAX && 0 < height
                    <= DIM_MAX),
                Err(TextureError::DataSizeMismatch) => {
                    &&& 0 < width <= DIM_MAX && 0 < height <= DIM_MAX
                    &&& data@.len() != 3 * width * height
                },
                Err(TextureError::ValueOutOfRange) => {
                    &&& 0 < width <= DIM_MAX && 0 < height <= DIM_MAX
                    &&& data@.len() == 3 * width * height
                    &&& exists|i: int| 0 <= i < data@.len() && !(0 <= #[trigger] data@[i] <= RAD_MAX)
                },
                Err(TextureError::UnsupportedFormat) => false,
            },
    {
        if width == 0 || height == 0 || width > DIM_MAX || height > DIM_MAX {
            return Err(TextureError::BadDimensions);
        }
        proof {
            assert((width as int) * (height as int) <= 268435456) by (nonlinear_arith)
                requires
                    width <= 16384 && height <= 16384,
            ;
        }
        let pixels: usize = width * height;
        proof {
            assert(3 * (width as int) * (height as int) == 3 * ((width as int) * (height as int)))
                by (nonlinear_arith);
        }
        if data.len() != 3 * pixels {
            return Err(TextureError::DataSizeMismatch);
        }
        let mut texels: Vec<Texel> = Vec::new();
        let mut i: usize = 0;
        while i < pixels
            invariant
                0 <= i <= pixels,
                0 < width <= DIM_MAX,
                0 < height <= DIM_MAX,
                pixels == width * height,
                pixels <= 268435456,
                data@.len() == 3 * pixels,
                data@.len() == 3 * width * height,
                texels@.len() == i,
                forall|j: int| 0 <= j < 3 * i ==> 0 <= #[trigger] data@[j] <= RAD_MAX,
                forall|j: int|
                    0 <= j < i ==> #[trigger] texels@[j] == (Texel {
                        r: data@[3 * j],
                        g: data@[3 * j + 1],
                        b: data@[3 * j + 2],
                    }),
            decreases pixels - i,
        {
            let r: i64 = data[3 * i];
            let g: i64 = data[3 * i + 1];
            let b: i64 = data[3 * i + 2];
            if r < 0 || r > RAD_MAX || g < 0 || g > RAD_MAX || b < 0 || b > RAD_MAX {
                proof {
                    if !(0 <= r <= RAD_MAX) {
                        assert(!(0 <= data@[3 * (i as int)] <= RAD_MAX));
                    } else if !(0 <= g <= RAD_MAX) {
                        assert(!(0 <= data@[3 * (i as int) + 1] <= RAD_MAX));
                    } else {
                        assert(!(0 <= data@[3 * (i as int) + 2] <= RAD_MAX));
                    }
                }
                return Err(TextureError::ValueOutOfRange);
            }
            texels.push(Texel { r, g, b });
            i = i + 1;
        }
        Ok(Texture2D { width, height, texels })
    }

    /// Converts an 8-bit channel to the fixed-point range `[0, SCALE]`.
    pub open spec fn byte_to_fp_spec(v: int) -> int {
        (v * (SCALE as int)) / 255
    }

    /// Builds an image from interleaved 8-bit data with 1, 3 or 4 channels
    /// per pixel.  A single channel is replicated to gray; an alpha channel
    /// is dropped.  Any other channel count is an unsupported format.
    pub fn new_from_image(width: usize, height: usize, channels: usize, data: Vec<u8>) -> (res:
        Result<Texture2D, TextureError>)
        ensures
            match res {
                Ok(t) => {
                    &&& channels == 1 || channels == 3 || channels == 4
                    &&& 0 < width <= DIM_MAX && 0 < height <= DIM_MAX
                    &&& data@.len() == channels * width * height
                    &&& t.wf()
                    &&& t.width == width
                    &&& t.height == height
                    &&& forall|i: int|
                        0 <= i < t.texels@.len() ==> {
                            &&& (#[trigger] t.texels@[i]).r == Self::byte_to_fp_spec(
                                data@[channels * i] as int,
                            )
                            &&& t.texels@[i].g == Self::byte_to_fp_spec(
                                data@[channels * i + (if channels == 1 { 0int } else { 1int })] as int,
                            )
                            &&& t.texels@[i].b == Self::byte_to_fp_spec(
                                data@[channels * i + (if channels == 1 { 0int } else { 2int })] as int,
                            )
                        }
                },
                Err(TextureError::UnsupportedFormat) => !(channels == 1 || channels == 3
                    || channels == 4),
                Err(TextureError::BadDimensions) => {
                    &&& channels == 1 || channels == 3 || channels == 4
                    &&& !(0 < width <= DIM_MAX && 0 < height <= DIM_MAX)
                },
                Err(TextureError::DataSizeMismatch) => {
                    &&& channels == 1 || channels == 3 || channels == 4
                    &&& 0 < width <= DIM_MAX && 0 < height <= DIM_MAX
                    &&& data@.len() != channels * width * height
                },
                Err(TextureError::ValueOutOfRange) => false,
            },
    {
        if !(channels == 1 || channels == 3 || channels == 4) {
            return Err(TextureError::UnsupportedFormat);
        }
        if width == 0 || height == 0 || width > DIM_MAX || height > DIM_MAX {
            return Err(TextureError::BadDimensions);
        }
        proof {
            assert((width as int) * (height as int) <= 268435456) by (nonlinear_arith)
                requires
                    width <= 16384 && height <= 16384,
            ;
        }
        let pixels: usize = width * height;
        proof {
            assert((channels as int) * (pixels as int) <= 1073741824) by (nonlinear_arith)
                requires
                    channels <= 4 && pixels <= 268435456,
            ;
        }
        proof {
            assert((channels as int) * (width as int) * (height as int) == (channels as int) * ((
            width as int) * (height as int))) by (nonlinear_arith);
        }
        if data.len() != channels * pixels {
            return Err(TextureError::DataSizeMismatch);
        }
        let mut texels: Vec<Texel> = Vec::new();
        let mut i: usize = 0;
        while i < pixels
            invariant
                0 <= i <= pixels,
                0 < width <= DIM_MAX,
                0 < height <= DIM_MAX,
                pixels == width * height,
                pixels <= 268435456,
                channels == 1 || channels == 3 || channels == 4,
                data@.len() == channels * pixels,
                data@.len() == channels * width * height,
                channels * pixels <= 1073741824,
                texels@.len() == i,
                forall|j: int|
                    0 <= j < i ==> {
                        &&& (#[trigger] texels@[j]).r == Self::byte_to_fp_spec(
                            data@[(channels as int) * j] as int,
                        )
                        &&& texels@[j].g == Self::byte_to_fp_spec(
                            data@[(channels as int) * j + (if channels == 1 { 0int } else { 1int })] as int,
                        )
                        &&& texels@[j].b == Self::byte_to_fp_spec(
                            data@[(channels as int) * j + (if channels == 1 { 0int } else { 2int })] as int,
                        )
                    },
                forall|j: int| 0 <= j < i ==> texel_wf(#[trigger] texels@[j]),
            decreases pixels - i,
        {
            proof {
                assert((channels as int) * (i as int) + (channels as int) <= (channels as int) * (
                pixels as int)) by (nonlinear_arith)
                    requires
                        i < pixels && channels <= 4,
                ;
            }
            let base: usize = channels * i;
            let rb: u8 = data[base];
            let gb: u8 = if channels == 1 {
                rb
            } else {
                data[base + 1]
            };
            let bb: u8 = if channels == 1 {
                rb
            } else {
                data[base + 2]
            };
            let t = Texel {
                r: byte_to_fp(rb),
                g: byte_to_fp(gb),
                b: byte_to_fp(bb),
            };
            texels.push(t);
            i = i + 1;
        }
        Ok(Texture2D { width, height, texels })
    }
}

/// Converts one 8-bit channel value to fixed point.
fn byte_to_fp(v: u8) -> (r: i64)
    ensures
        r == Texture2D::byte_to_fp_spec(v as int),
        0 <= r <= SCALE,
{
    proof {
        vstd::arithmetic::div_mod::lemma_div_pos_is_pos((v as int) * (SCALE as int), 255);
        vstd::arithmetic::div_mod::lemma_div_is_ordered(
            (v as int) * (SCALE as int),
            255 * (SCALE as int),
            255,
        );
        vstd::arithmetic::div_mod::lemma_div_multiples_vanish(SCALE as int, 255);
    }
    ((v as i64) * SCALE) / 255
}

/// A cubemap: six square faces per mip level, each level one flat vector,
/// indexed `face * res * res + y * res + x`.
#[derive(Debug)]
pub struct TextureCubeMap {
    pub face_resolution: usize,
    pub mips: Vec<Vec<Texel>>,
}

/// Face resolution of mip level `m`: halved per level, never below one.
pub open spec fn mip_res_spec(res: int, m: int) -> int
    decreases m,
{
    if m <= 0 {
        res
    } else {
        let p = mip_res_spec(res, m - 1);
        if p / 2 >= 1 {
            p / 2
        } else {
            1
        }
    }
}

impl TextureCubeMap {
    /// Structural well-formedness: bounded resolution, at least one mip,
    /// six faces of the right size per mip, channels in range.
    pub open spec fn wf(self) -> bool {
        &&& 0 < self.face_resolution <= DIM_MAX
        &&& 1 <= self.mips@.len() <= 32
        &&& forall|m: int|
            0 <= m < self.mips@.len() ==> (#[trigger] self.mips@[m])@.len() == 6 * mip_res_spec(
                self.face_resolution as int,
                m,
            ) * mip_res_spec(self.face_resolution as int, m)
        &&& forall|m: int, i: int|
            0 <= m < self.mips@.len() && 0 <= i < self.mips@[m]@.len() ==> texel_wf(
                #[trigger] self.mips@[m]@[i],
            )
    }

    /// The texel of face `f`, pixel `(x, y)`, at mip `m`.
    pub open spec fn texel_at(self, m: int, f: int, x: int, y: int) -> Texel {
        let res = mip_res_spec(self.face_resolution as int, m);
        self.mips@[m]@[f * res * res + y * res + x]
    }

    /// Every texel of every mip has all channels within `[lo, hi]`.
    pub open spec fn all_within(self, lo: int, hi: int) -> bool {
        forall|m: int, i: int|
            0 <= m < self.mips@.len() && 0 <= i < self.mips@[m]@.len() ==> texel_within(
                #[trigger] self.mips@[m]@[i],
                lo,
                hi,
            )
    }

    /// Every texel of every mip has all channels equal to `c`.
    pub open spec fn all_constant(self, c: int) -> bool {
        forall|m: int, i: int|
            0 <= m < self.mips@.len() && 0 <= i < self.mips@[m]@.len() ==> texel_constant(
                #[trigger] self.mips@[m]@[i],
                c,
            )
    }

    /// A constant map is within any interval containing the constant.
    pub proof fn lemma_constant_implies_within(self, c: int)
        requires
            self.all_constant(c),
        ensures
            self.all_within(c, c),
    {
    }
}


/// Every texel of the sequence is well-formed.
pub open spec fn seq_texels_wf(s: Seq<Texel>) -> bool {
    forall|i: int| 0 <= i < s.len() ==> texel_wf(#[trigger] s[i])
}

/// Every texel of the sequence has all channels within `[lo, hi]`.
pub open spec fn seq_within(s: Seq<Texel>, lo: int, hi: int) -> bool {
    forall|i: int| 0 <= i < s.len() ==> texel_within(#[trigger] s[i], lo, hi)
}

/// Every texel of the sequence has all channels equal to `c`.
pub open spec fn seq_constant(s: Seq<Texel>, c: int) -> bool {
    forall|i: int| 0 <= i < s.len() ==> texel_constant(#[trigger] s[i], c)
}


/// Flat index of face `f`, pixel `(x, y)` in a `res`-sized face buffer.
pub open spec fn face_idx_spec(res: int, f: int, x: int, y: int) -> int {
    f * res * res + y * res + x
}

/// Decomposing a face index by division recovers its parts.
pub proof fn lemma_face_index_decompose(res: int, f: int, x: int, y: int)
    requires
        1 <= res,
        0 <= f,
        0 <= x < res,
        0 <= y < res,
    ensures
        face_idx_spec(res, f, x, y) / (res * res) == f,
        (face_idx_spec(res, f, x, y) % (res * res)) / res == y,
        (face_idx_spec(res, f, x, y) % (res * res)) % res == x,
{
    let d = res * res;
    let rem = y * res + x;
    assert(f * res * res + y * res + x == f * d + rem && 0 <= rem < d && 0 < d)
        by (nonlinear_arith)
        requires
            1 <= res && 0 <= f && 0 <= x < res && 0 <= y < res && d == res * res && rem == y * res
                + x,
    ;
    vstd::arithmetic::div_mod::lemma_fundamental_div_mod_converse(f * d + rem, d, f, rem);
    vstd::arithmetic::div_mod::lemma_fundamental_div_mod_converse(rem, res, y, x);
}

/// Every index of a face buffer decomposes into a face and pixel in range.
pub proof fn lemma_flat_index_ranges(res: int, i: int)
    requires
        1 <= res,
        0 <= i < 6 * res * res,
    ensures
        0 <= i / (res * res) < 6,
        0 <= (i % (res * res)) / res < res,
        0 <= (i % (res * res)) % res < res,
        i == face_idx_spec(
            res,
            i / (res * res),
            (i % (res * res)) % res,
            (i % (res * res)) / res,
        ),
{
    let d = res * res;
    assert(0 < d && 6 * res * res == 6 * d) by (nonlinear_arith)
        requires
            1 <= res && d == res * res,
    ;
    vstd::arithmetic::div_mod::lemma_fundamental_div_mod(i, d);
    vstd::arithmetic::div_mod::lemma_mod_division_less_than_divisor(i, d);
    vstd::arithmetic::div_mod::lemma_div_pos_is_pos(i, d);
    vstd::arithmetic::div_mod::lemma_multiply_divide_lt(i, d, 6);
    let rem = i % d;
    vstd::arithmetic::div_mod::lemma_fundamental_div_mod(rem, res);
    vstd::arithmetic::div_mod::lemma_mod_division_less_than_divisor(rem, res);
    vstd::arithmetic::div_mod::lemma_div_pos_is_pos(rem, res);
    vstd::arithmetic::div_mod::lemma_multiply_divide_lt(rem, res, res);
    let f = i / d;
    let yy = rem / res;
    let xx = rem % res;
    assert(f * d + rem == f * res * res + (yy * res + xx) && face_idx_spec(res, f, xx, yy) == f
        * res * res + yy * res + xx) by (nonlinear_arith)
        requires
            d == res * res && rem == res * yy + xx,
    ;
}

} // verus!
