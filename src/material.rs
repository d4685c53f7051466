//! Materials: factors, or textures referred to by name.
use vstd::prelude::*;

use crate::error::ConvertError;
use crate::texture::{texture_name, Textures};

verus! {

#[derive(Debug, Clone, Copy, PartialEq, Eq, Structural)]
pub enum AlphaMode {
    Blend,
    Mask,
    Opaque,
}

/// A reference from a material to a texture.
#[derive(Debug, Clone, Copy, PartialEq, Eq, Structural)]
pub struct TextureRef {
    /// Texture index.
    pub index: usize,
    /// Which texture coordinate set the texture is sampled with.
    pub tex_coord: u32,
}

/// A material as the scene description gives it; floats are bit patterns.
pub struct MaterialDesc {
    pub name: Option<String>,
    pub alpha_cutoff: u32,
    pub alpha_mode: AlphaMode,
    pub double_sided: bool,
    pub base_color_factor: [u32; 4],
    pub base_color_texture: Option<TextureRef>,
    pub metallic_factor: u32,
    pub roughness_factor: u32,
    pub metallic_roughness_texture: Option<TextureRef>,
    pub normal_texture: Option<TextureRef>,
    pub normal_scale: u32,
    pub occlusion_texture: Option<TextureRef>,
    pub occlusion_strength: u32,
    pub emissive_texture: Option<TextureRef>,
    pub emissive_factor: [u32; 3],
}

pub enum BaseColor {
    Factor([u32; 4]),
    Texture { tex_coord: u32, name: String },
}

pub enum MetallicRoughness {
    Factor { metallicity: u32, roughness: u32 },
    Texture { tex_coord: u32, name: String },
}

pub struct NormalMap {
    pub scale: u32,
    pub tex_coord: u32,
    pub name: String,
}

pub struct OcclusionMap {
    pub strength: u32,
    pub tex_coord: u32,
    pub name: String,
}

pub enum EmissionMap {
    Factor([u32; 3]),
    Texture { tex_coord: u32, name: String },
}

/// A material of the engine model.
pub struct Material {
    pub name: String,
    pub alpha_cutoff: u32,
    pub alpha_mode: AlphaMode,
    pub double_sided: bool,
    pub base_color: BaseColor,
    pub metal_roughness: MetallicRoughness,
    pub normal_map: Option<NormalMap>,
    pub occlusion_map: Option<OcclusionMap>,
    pub emission_map: Option<EmissionMap>,
}

/// All materials of an asset, by material index.
pub struct Materials {
    pub materials: Vec<Material>,
}

/// The name of material `index`, if there is one.
pub open spec fn material_name(m: Materials, index: int) -> Option<Seq<char>> {
    if 0 <= index < m.materials@.len() {
        Some(m.materials@[index].name@)
    } else {
        None
    }
}

impl Materials {
    /// The name of material `index`.
    pub fn get(&self, index: usize) -> (r: Option<&str>)
        ensures
            match r {
                Some(s) => material_name(*self, index as int) == Some(s@),
                None => material_name(*self, index as int) is None,
            },
    {
        if index < self.materials.len() {
            Some(self.materials[index].name.as_str())
        } else {
            None
        }
    }
}

/// The texture reference, if any, names a texture that exists.
pub open spec fn ref_ok(r: Option<TextureRef>, textures: Textures) -> bool {
    match r {
        Some(t) => texture_name(textures, t.index as int) is Some,
        None => true,
    }
}

/// The float bit pattern is a zero of either sign.
pub open spec fn is_zero_bits(b: u32) -> bool {
    b == 0 || b == 0x8000_0000
}

/// The name of the texture that `t` refers to, which exists.
pub open spec fn ref_name(t: TextureRef, textures: Textures) -> Seq<char> {
    texture_name(textures, t.index as int)->Some_0
}

/// The base color is the referenced texture, else the factor.
pub open spec fn base_color_built(b: BaseColor, m: MaterialDesc, textures: Textures) -> bool {
    match b {
        BaseColor::Factor(f) => m.base_color_texture is None && f == m.base_color_factor,
        BaseColor::Texture { tex_coord, name } => m.base_color_texture is Some && tex_coord
            == m.base_color_texture->Some_0.tex_coord && name@ == ref_name(
            m.base_color_texture->Some_0,
            textures,
        ),
    }
}

/// Metallicity and roughness are the referenced texture, else the two factors.
pub open spec fn metallic_roughness_built(
    b: MetallicRoughness,
    m: MaterialDesc,
    textures: Textures,
) -> bool {
    match b {
        MetallicRoughness::Factor { metallicity, roughness } => m.metallic_roughness_texture is None
            && metallicity == m.metallic_factor && roughness == m.roughness_factor,
        MetallicRoughness::Texture { tex_coord, name } => m.metallic_roughness_texture is Some
            && tex_coord == m.metallic_roughness_texture->Some_0.tex_coord && name@ == ref_name(
            m.metallic_roughness_texture->Some_0,
            textures,
        ),
    }
}

/// The normal map is present exactly when the material refers to a normal texture.
pub open spec fn normal_map_built(b: Option<NormalMap>, m: MaterialDesc, textures: Textures) -> bool {
    match b {
        None => m.normal_texture is None,
        Some(n) => m.normal_texture is Some && n.scale == m.normal_scale && n.tex_coord
            == m.normal_texture->Some_0.tex_coord && n.name@ == ref_name(
            m.normal_texture->Some_0,
            textures,
        ),
    }
}

/// The occlusion map is present exactly when the material refers to an occlusion texture.
pub open spec fn occlusion_map_built(b: Option<OcclusionMap>, m: MaterialDesc, textures: Textures) -> bool {
    match b {
        None => m.occlusion_texture is None,
        Some(o) => m.occlusion_texture is Some && o.strength == m.occlusion_strength && o.tex_coord
            == m.occlusion_texture->Some_0.tex_coord && o.name@ == ref_name(
            m.occlusion_texture->Some_0,
            textures,
        ),
    }
}

/// The emission factor is black: every component is a zero of either sign.
pub open spec fn black(f: [u32; 3]) -> bool {
    is_zero_bits(f[0]) && is_zero_bits(f[1]) && is_zero_bits(f[2])
}

/// The emission is the referenced texture, else the factor unless it is black.
pub open spec fn emission_map_built(b: Option<EmissionMap>, m: MaterialDesc, textures: Textures) -> bool {
    match b {
        None => m.emissive_texture is None && black(m.emissive_factor),
        Some(EmissionMap::Factor(f)) => m.emissive_texture is None && f == m.emissive_factor && !black(
            m.emissive_factor,
        ),
        Some(EmissionMap::Texture { tex_coord, name }) => m.emissive_texture is Some && tex_coord
            == m.emissive_texture->Some_0.tex_coord && name@ == ref_name(
            m.emissive_texture->Some_0,
            textures,
        ),
    }
}

/// Looks up the name of the texture a reference points at.
fn texture_ref_name(t: TextureRef, textures: &Textures) -> (r: Result<String, ConvertError>)
    ensures
        match r {
            Ok(s) => texture_name(*textures, t.index as int) == Some(s@),
            Err(e) => texture_name(*textures, t.index as int) is None && e
                == ConvertError::MissingImageBuffer,
        },
{
    match textures.get(t.index) {
        Some(name) => Ok(name.to_owned()),
        None => Err(ConvertError::MissingImageBuffer),
    }
}

/// The base color: the referenced texture, else the factor.
pub fn get_base_color(m: &MaterialDesc, textures: &Textures) -> (r: Result<BaseColor, ConvertError>)
    ensures
        match r {
            Ok(b) => ref_ok(m.base_color_texture, *textures) && base_color_built(b, *m, *textures),
            Err(e) => !ref_ok(m.base_color_texture, *textures) && e == ConvertError::MissingImageBuffer,
        },
{
    match m.base_color_texture {
        Some(t) => match texture_ref_name(t, textures) {
            Ok(name) => Ok(BaseColor::Texture { tex_coord: t.tex_coord, name }),
            Err(e) => Err(e),
        },
        None => Ok(BaseColor::Factor(m.base_color_factor)),
    }
}

/// Metallicity and roughness: the referenced texture, else the two factors.
pub fn get_metallic_roughness(m: &MaterialDesc, textures: &Textures) -> (r: Result<
    MetallicRoughness,
    ConvertError,
>)
    ensures
        match r {
            Ok(b) => ref_ok(m.metallic_roughness_texture, *textures) && metallic_roughness_built(b, *m, *textures),
            Err(e) => !ref_ok(m.metallic_roughness_texture, *textures) && e == ConvertError::MissingImageBuffer,
        },
{
    match m.metallic_roughness_texture {
        Some(t) => match texture_ref_name(t, textures) {
            Ok(name) => Ok(MetallicRoughness::Texture { tex_coord: t.tex_coord, name }),
            Err(e) => Err(e),
        },
        None => Ok(
            MetallicRoughness::Factor {
                metallicity: m.metallic_factor,
                roughness: m.roughness_factor,
            },
        ),
    }
}

/// The normal map, if the material refers to one.
pub fn get_normal_map(m: &MaterialDesc, textures: &Textures) -> (r: Result<
    Option<NormalMap>,
    ConvertError,
>)
    ensures
        match r {
            Ok(b) => ref_ok(m.normal_texture, *textures) && normal_map_built(b, *m, *textures),
            Err(e) => !ref_ok(m.normal_texture, *textures) && e == ConvertError::MissingImageBuffer,
        },
{
    match m.normal_texture {
        Some(t) => match texture_ref_name(t, textures) {
            Ok(name) => Ok(Some(NormalMap { scale: m.normal_scale, tex_coord: t.tex_coord, name })),
            Err(e) => Err(e),
        },
        None => Ok(None),
    }
}

/// The occlusion map, if the material refers to one.
pub fn get_occlusion_map(m: &MaterialDesc, textures: &Textures) -> (r: Result<
    Option<OcclusionMap>,
    ConvertError,
>)
    ensures
        match r {
            Ok(b) => ref_ok(m.occlusion_texture, *textures) && occlusion_map_built(b, *m, *textures),
            Err(e) => !ref_ok(m.occlusion_texture, *textures) && e == ConvertError::MissingImageBuffer,
        },
{
    match m.occlusion_texture {
        Some(t) => match texture_ref_name(t, textures) {
            Ok(name) => Ok(
                Some(OcclusionMap { strength: m.occlusion_strength, tex_coord: t.tex_coord, name }),
            ),
            Err(e) => Err(e),
        },
        None => Ok(None),
    }
}

/// The emission: the referenced texture, else the factor unless it is black.
pub fn get_emission_map(m: &MaterialDesc, textures: &Textures) -> (r: Result<
    Option<EmissionMap>,
    ConvertError,
>)
    ensures
        match r {
            Ok(b) => ref_ok(m.emissive_texture, *textures) && emission_map_built(b, *m, *textures),
            Err(e) => !ref_ok(m.emissive_texture, *textures) && e == ConvertError::MissingImageBuffer,
        },
{
    match m.emissive_texture {
        Some(t) => match texture_ref_name(t, textures) {
            Ok(name) => Ok(Some(EmissionMap::Texture { tex_coord: t.tex_coord, name })),
            Err(e) => Err(e),
        },
        None => {
            let f = m.emissive_factor;
            let zero = |b: u32| -> (z: bool)
                ensures
                    z == is_zero_bits(b),
                { b == 0 || b == 0x8000_0000 };
            if zero(f[0]) && zero(f[1]) && zero(f[2]) {
                Ok(None)
            } else {
                Ok(Some(EmissionMap::Factor(f)))
            }
        },
    }
}

/// Why a material cannot be built, if it cannot.
pub open spec fn material_error(m: MaterialDesc, textures: Textures) -> Option<ConvertError> {
    if m.name is None {
        Some(ConvertError::NoName)
    } else if !(ref_ok(m.base_color_texture, textures) && ref_ok(
        m.metallic_roughness_texture,
        textures,
    ) && ref_ok(m.normal_texture, textures) && ref_ok(m.occlusion_texture, textures) && ref_ok(
        m.emissive_texture,
        textures,
    )) {
        Some(ConvertError::MissingImageBuffer)
    } else {
        None
    }
}

/// A built material copies the description's scalars and resolves its textures.
pub open spec fn material_built(mat: Material, m: MaterialDesc, textures: Textures) -> bool {
    &&& mat.name@ == m.name->Some_0@
    &&& mat.alpha_cutoff == m.alpha_cutoff
    &&& mat.alpha_mode == m.alpha_mode
    &&& mat.double_sided == m.double_sided
    &&& base_color_built(mat.base_color, m, textures)
    &&& metallic_roughness_built(mat.metal_roughness, m, textures)
    &&& normal_map_built(mat.normal_map, m, textures)
    &&& occlusion_map_built(mat.occlusion_map, m, textures)
    &&& emission_map_built(mat.emission_map, m, textures)
}

/// Builds one material.
pub fn get_material(m: &MaterialDesc, textures: &Textures) -> (r: Result<Material, ConvertError>)
    ensures
        match r {
            Ok(mat) => material_error(*m, *textures) is None && material_built(mat, *m, *textures),
            Err(e) => material_error(*m, *textures) == Some(e),
        },
{
    let name = match &m.name {
        Some(s) => s.clone(),
        None => {
            return Err(ConvertError::NoName);
        },
    };
    let base_color = match get_base_color(m, textures) {
        Ok(v) => v,
        Err(e) => {
            return Err(e);
        },
    };
    let metal_roughness = match get_metallic_roughness(m, textures) {
        Ok(v) => v,
        Err(e) => {
            return Err(e);
        },
    };
    let normal_map = match get_normal_map(m, textures) {
        Ok(v) => v,
        Err(e) => {
            return Err(e);
        },
    };
    let occlusion_map = match get_occlusion_map(m, textures) {
        Ok(v) => v,
        Err(e) => {
            return Err(e);
        },
    };
    let emission_map = match get_emission_map(m, textures) {
        Ok(v) => v,
        Err(e) => {
            return Err(e);
        },
    };
    Ok(
        Material {
            name,
            alpha_cutoff: m.alpha_cutoff,
            alpha_mode: m.alpha_mode,
            double_sided: m.double_sided,
            base_color,
            metal_roughness,
            normal_map,
            occlusion_map,
            emission_map,
        },
    )
}

/// Builds every material, in order; the first failure aborts.
pub fn get(descs: &Vec<MaterialDesc>, textures: &Textures) -> (r: Result<Materials, ConvertError>)
    ensures
        match r {
            Ok(ms) => ms.materials@.len() == descs@.len() && forall|i: int|
                0 <= i < descs@.len() ==> material_error(#[trigger] descs@[i], *textures) is None
                    && material_built(ms.materials@[i], descs@[i], *textures),
            Err(e) => exists|i: int|
                0 <= i < descs@.len() && material_error(#[trigger] descs@[i], *textures) == Some(e)
                    && forall|k: int| 0 <= k < i ==> material_error(#[trigger] descs@[k], *textures) is None,
        },
{
    let mut out: Vec<Material> = Vec::new();
    let mut i: usize = 0;
    while i < descs.len()
        invariant
            0 <= i <= descs@.len(),
            out@.len() == i,
            forall|k: int|
                0 <= k < i ==> material_error(#[trigger] descs@[k], *textures) is None
                    && material_built(out@[k], descs@[k], *textures),
        decreases descs@.len() - i,
    {
        match get_material(&descs[i], textures) {
            Ok(m) => out.push(m),
            Err(e) => {
                return Err(e);
            },
        }
        i += 1;
    }
    Ok(Materials { materials: out })
}

} // verus!
