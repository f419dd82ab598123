//! The image-based-lighting precomputation pipeline.
//!
//! A scene's lighting data is precomputed in a fixed order: the
//! equirectangular source becomes the environment cubemap, which feeds both
//! the irradiance convolution and the specular prefilter; the BRDF table
//! depends on nothing but its resolution.  Either every map is produced or
//! none is: a rejected input yields an error and no partial result.
//!
//! The laws at the bottom state determinism: any two results that satisfy
//! the pipeline's contract for the same input carry identical texels in
//! every map.  Nothing in any stage depends on anything but its arguments.

use crate::brdf_lut::{compute_lut_texture, lut_map_spec};
use crate::convert::convert_mip0_spec;
use crate::irradiance::{compute_irradiance_map, irr_accum_spec, irr_texel_spec, irradiance_map_spec};
use crate::mipchain::{chain_len_spec, downsample_spec};
use crate::prefilter::{
    compute_prefiltered_env_map, pre_accum_spec, pre_texel_spec, prefilter_mip_spec,
};
use crate::sample::sample_cube_spec;
use crate::texture::{
    mip_res_spec, Texture2D, TextureCubeMap, TextureError, DIM_MAX, RAD_MAX,
};
use crate::vec3::Vec3Fp;
use vstd::prelude::*;

verus! {

/// The three persistent lighting textures of a scene, together with the
/// environment cubemap they were derived from.
#[derive(Debug)]
pub struct IblMaps {
    pub environment: TextureCubeMap,
    pub irradiance: TextureCubeMap,
    pub prefiltered: TextureCubeMap,
    pub brdf_lut: Texture2D,
}

/// Two cubemaps carry the same texels everywhere.
pub open spec fn cube_obs_eq(a: TextureCubeMap, b: TextureCubeMap) -> bool {
    &&& a.face_resolution == b.face_resolution
    &&& a.mips@.len() == b.mips@.len()
    &&& forall|m: int| 0 <= m < a.mips@.len() ==> (#[trigger] a.mips@[m])@ == b.mips@[m]@
}

/// The conversion contract: the base level samples the source image and
/// the chain below it is box-filtered halving.
pub open spec fn is_environment_conversion(
    img: Texture2D,
    face_res: int,
    cube: TextureCubeMap,
) -> bool {
    &&& cube.face_resolution == face_res
    &&& cube.mips@.len() == chain_len_spec(face_res)
    &&& cube.mips@[0]@ == convert_mip0_spec(img, face_res)
    &&& forall|m: int|
        1 <= m < cube.mips@.len() ==> (#[trigger] cube.mips@[m])@ == downsample_spec(
            cube.mips@[m - 1]@,
            mip_res_spec(face_res, m - 1),
        )
}

/// The whole pipeline's contract relative to its input.
pub open spec fn is_ibl_precomputation(
    img: Texture2D,
    face_res: int,
    lut_res: int,
    maps: IblMaps,
) -> bool {
    &&& is_environment_conversion(img, face_res, maps.environment)
    &&& maps.irradiance.face_resolution == 32
    &&& maps.irradiance.mips@.len() == 1
    &&& maps.irradiance.mips@[0]@ == irradiance_map_spec(maps.environment)
    &&& maps.prefiltered.face_resolution == 128
    &&& maps.prefiltered.mips@.len() == 5
    &&& forall|m: int|
        0 <= m < 5 ==> (#[trigger] maps.prefiltered.mips@[m])@ == prefilter_mip_spec(
            maps.environment,
            face_res,
            m,
        )
    &&& maps.brdf_lut.width == lut_res
    &&& maps.brdf_lut.height == lut_res
    &&& maps.brdf_lut.texels@ == lut_map_spec(lut_res)
}

/// Runs the four precomputation stages in their required order:
/// conversion first, then the irradiance convolution and the specular
/// prefilter over the finished environment, and the BRDF table.
///
/// On bad resolutions the pipeline performs no stage and returns the
/// error; otherwise every map is fully populated.
pub fn precompute_ibl(equirect: &Texture2D, face_resolution: usize, lut_resolution: usize) -> (r:
    Result<IblMaps, TextureError>)
    requires
        equirect.wf(),
        equirect.all_within(0, RAD_MAX as int),
    ensures
        match r {
            Ok(maps) => {
                &&& 1 <= face_resolution <= DIM_MAX
                &&& 1 <= lut_resolution <= DIM_MAX
                &&& is_ibl_precomputation(
                    *equirect,
                    face_resolution as int,
                    lut_resolution as int,
                    maps,
                )
                &&& maps.environment.wf()
                &&& maps.irradiance.wf()
                &&& maps.prefiltered.wf()
                &&& maps.brdf_lut.wf()
            },
            Err(TextureError::BadDimensions) => !(1 <= face_resolution <= DIM_MAX && 1
                <= lut_resolution <= DIM_MAX),
            Err(_) => false,
        },
{
    if lut_resolution == 0 || lut_resolution > DIM_MAX {
        return Err(TextureError::BadDimensions);
    }
    let environment: TextureCubeMap = match TextureCubeMap::new_from_hdr(
        equirect,
        face_resolution,
    ) {
        Ok(cube) => cube,
        Err(e) => {
            return Err(e);
        },
    };
    proof {
        assert(environment.all_within(0, RAD_MAX as int)) by {
            assert(equirect.all_within(0, RAD_MAX as int));
        }
    }
    let irradiance: TextureCubeMap = compute_irradiance_map(&environment);
    let prefiltered: TextureCubeMap = compute_prefiltered_env_map(&environment, face_resolution);
    let brdf_lut: Texture2D = compute_lut_texture(lut_resolution);
    Ok(IblMaps { environment, irradiance, prefiltered, brdf_lut })
}

/// Corresponding levels of two conversions of the same image are equal.
proof fn lemma_conversion_level_eq(
    img: Texture2D,
    face_res: int,
    c1: TextureCubeMap,
    c2: TextureCubeMap,
    m: int,
)
    requires
        is_environment_conversion(img, face_res, c1),
        is_environment_conversion(img, face_res, c2),
        0 <= m < c1.mips@.len(),
    ensures
        c1.mips@[m]@ == c2.mips@[m]@,
    decreases m,
{
    if m > 0 {
        lemma_conversion_level_eq(img, face_res, c1, c2, m - 1);
    }
}

/// Converting the same image at the same resolution twice yields the same
/// cubemap, texel for texel.
pub proof fn lemma_conversion_deterministic(
    img: Texture2D,
    face_res: int,
    c1: TextureCubeMap,
    c2: TextureCubeMap,
)
    requires
        is_environment_conversion(img, face_res, c1),
        is_environment_conversion(img, face_res, c2),
    ensures
        cube_obs_eq(c1, c2),
{
    assert forall|m: int| 0 <= m < c1.mips@.len() implies (#[trigger] c1.mips@[m])@
        == c2.mips@[m]@ by {
        lemma_conversion_level_eq(img, face_res, c1, c2, m);
    }
}

/// Sampling sees only a cubemap's texels, so observationally equal maps
/// sample alike.
proof fn lemma_sample_cube_obs_eq(
    a: TextureCubeMap,
    b: TextureCubeMap,
    dx: int,
    dy: int,
    dz: int,
    mip: int,
)
    requires
        cube_obs_eq(a, b),
        0 <= mip,
        1 <= a.mips@.len(),
    ensures
        sample_cube_spec(a, dx, dy, dz, mip) == sample_cube_spec(b, dx, dy, dz, mip),
{
    let mi = if mip < a.mips@.len() {
        mip
    } else {
        a.mips@.len() - 1
    };
    assert(a.mips@[mi]@ == b.mips@[mi]@);
}

/// The irradiance accumulator sees the environment only through sampling.
proof fn lemma_irr_accum_obs_eq(
    a: TextureCubeMap,
    b: TextureCubeMap,
    right: Vec3Fp,
    up: Vec3Fp,
    n: Vec3Fp,
    k: int,
)
    requires
        cube_obs_eq(a, b),
        1 <= a.mips@.len(),
    ensures
        irr_accum_spec(a, right, up, n, k) == irr_accum_spec(b, right, up, n, k),
    decreases k,
{
    if k > 0 {
        lemma_irr_accum_obs_eq(a, b, right, up, n, k - 1);
        let s = crate::irradiance::irr_sample_spec((k - 1) / 63, (k - 1) % 63);
        let wd = crate::vec3::basis_combine_spec(right, up, n, s.0, s.1, s.2);
        lemma_sample_cube_obs_eq(a, b, wd.x as int, wd.y as int, wd.z as int, 0);
    }
}

/// Observationally equal environments convolve to equal irradiance maps.
pub proof fn lemma_irradiance_obs_eq(a: TextureCubeMap, b: TextureCubeMap)
    requires
        cube_obs_eq(a, b),
        1 <= a.mips@.len(),
    ensures
        irradiance_map_spec(a) == irradiance_map_spec(b),
{
    assert forall|i: int| 0 <= i < 6144 implies irradiance_map_spec(a)[i] == irradiance_map_spec(
        b,
    )[i] by {
        let f = i / 1024;
        let x = (i % 1024) % 32;
        let y = (i % 1024) / 32;
        let d = crate::convert::face_dir_spec(f, x, y, 32);
        let nv = crate::vec3::normalize_fp_spec(
            Vec3Fp { x: d.0 as i64, y: d.1 as i64, z: d.2 as i64 },
        );
        let ru = crate::vec3::tangent_basis_spec(nv);
        lemma_irr_accum_obs_eq(a, b, ru.0, ru.1, nv, 15876);
        assert(irr_texel_spec(a, f, x, y) == irr_texel_spec(b, f, x, y));
    }
    assert(irradiance_map_spec(a) =~= irradiance_map_spec(b));
}

/// The prefilter accumulator sees the environment only through sampling.
proof fn lemma_pre_accum_obs_eq(
    a: TextureCubeMap,
    b: TextureCubeMap,
    env_res: int,
    right: Vec3Fp,
    up: Vec3Fp,
    n: Vec3Fp,
    roughness: int,
    k: int,
)
    requires
        cube_obs_eq(a, b),
        1 <= a.mips@.len(),
    ensures
        pre_accum_spec(a, env_res, right, up, n, roughness, k) == pre_accum_spec(
            b,
            env_res,
            right,
            up,
            n,
            roughness,
            k,
        ),
    decreases k,
{
    if k > 0 {
        lemma_pre_accum_obs_eq(a, b, env_res, right, up, n, roughness, k - 1);
        let l = crate::sampling::ggx_light_spec(k - 1, roughness);
        if l.2 > 0 {
            let wd = crate::vec3::basis_combine_spec(right, up, n, l.0, l.1, l.2);
            let sm = crate::prefilter::src_mip_spec(env_res, roughness, k - 1);
            if roughness != 0 {
                crate::prefilter::lemma_mip_select_range(
                    crate::prefilter::sa_sample_spec(
                        crate::prefilter::ggx_pdf_spec(
                            roughness,
                            crate::sampling::ggx_half_spec(k - 1, roughness).2,
                        ),
                    ),
                    crate::prefilter::sa_texel_spec(env_res),
                    0,
                );
            }
            lemma_sample_cube_obs_eq(a, b, wd.x as int, wd.y as int, wd.z as int, sm);
        }
    }
}

/// Observationally equal environments prefilter to equal levels.
pub proof fn lemma_prefilter_obs_eq(a: TextureCubeMap, b: TextureCubeMap, env_res: int, m: int)
    requires
        cube_obs_eq(a, b),
        1 <= a.mips@.len(),
    ensures
        prefilter_mip_spec(a, env_res, m) == prefilter_mip_spec(b, env_res, m),
{
    let res = mip_res_spec(128, m);
    assert forall|i: int| 0 <= i < 6 * res * res implies prefilter_mip_spec(a, env_res, m)[i]
        == prefilter_mip_spec(b, env_res, m)[i] by {
        let f = i / (res * res);
        let x = (i % (res * res)) % res;
        let y = (i % (res * res)) / res;
        let d = crate::convert::face_dir_spec(f, x, y, res);
        let nv = crate::vec3::normalize_fp_spec(
            Vec3Fp { x: d.0 as i64, y: d.1 as i64, z: d.2 as i64 },
        );
        let ru = crate::vec3::tangent_basis_spec(nv);
        lemma_pre_accum_obs_eq(
            a,
            b,
            env_res,
            ru.0,
            ru.1,
            nv,
            m * (crate::prefilter::ROUGHNESS_STEP_FP as int),
            1024,
        );
        assert(pre_texel_spec(a, env_res, m, f, x, y) == pre_texel_spec(b, env_res, m, f, x, y));
    }
    assert(prefilter_mip_spec(a, env_res, m) =~= prefilter_mip_spec(b, env_res, m));
}

/// Determinism of the whole pipeline: any two results that satisfy the
/// pipeline's contract for the same input, resolutions included, carry
/// identical texels in every produced map.
pub proof fn lemma_pipeline_deterministic(
    img: Texture2D,
    face_res: int,
    lut_res: int,
    m1: IblMaps,
    m2: IblMaps,
)
    requires
        is_ibl_precomputation(img, face_res, lut_res, m1),
        is_ibl_precomputation(img, face_res, lut_res, m2),
        1 <= face_res <= 16384,
    ensures
        cube_obs_eq(m1.environment, m2.environment),
        cube_obs_eq(m1.irradiance, m2.irradiance),
        cube_obs_eq(m1.prefiltered, m2.prefiltered),
        m1.brdf_lut.texels@ == m2.brdf_lut.texels@,
{
    crate::mipchain::lemma_chain_len_bound(face_res);
    lemma_conversion_deterministic(img, face_res, m1.environment, m2.environment);
    lemma_irradiance_obs_eq(m1.environment, m2.environment);
    assert forall|m: int| 0 <= m < m1.prefiltered.mips@.len() implies (
    #[trigger] m1.prefiltered.mips@[m])@ == m2.prefiltered.mips@[m]@ by {
        lemma_prefilter_obs_eq(m1.environment, m2.environment, face_res, m);
    }
}

} // verus!
