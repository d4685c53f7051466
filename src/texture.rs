//! Textures: sampler settings and decoded pixels under a name.
use vstd::prelude::*;

use crate::accessor::{BufferView, Buffers};
use crate::error::ConvertError;

verus! {

#[derive(Debug, Clone, Copy, PartialEq, Eq, Structural)]
pub enum MagFilter {
    Nearest,
    Linear,
}

#[derive(Debug, Clone, Copy, PartialEq, Eq, Structural)]
pub enum MinFilter {
    Nearest,
    Linear,
    NearestMipmapNearest,
    LinearMipmapNearest,
    NearestMipmapLinear,
    LinearMipmapLinear,
}

#[derive(Debug, Clone, Copy, PartialEq, Eq, Structural)]
pub enum WrappingMode {
    ClampToEdge,
    MirroredRepeat,
    Repeat,
}

/// Pixel layout of a decoded image.
#[derive(Debug, Clone, Copy, PartialEq, Eq, Structural)]
pub enum Format {
    GrayImage,
    GrayAlphaImage,
    RgbImage,
    RgbaImage,
}

/// A decoded image.
pub struct Image {
    pub width: u32,
    pub height: u32,
    pub format: Format,
    /// Pixels, row by row, in `format`.
    pub contents: Vec<u8>,
}

/// A texture as the scene description gives it, with its image decoded.
pub struct TextureDesc {
    pub name: Option<String>,
    pub mag_filter: Option<MagFilter>,
    pub min_filter: Option<MinFilter>,
    pub wrap_s: WrappingMode,
    pub wrap_t: WrappingMode,
    pub image: Image,
}

/// A texture of the engine model.
pub struct Texture {
    pub name: String,
    pub mag_filter: MagFilter,
    pub min_filter: MinFilter,
    pub wrap_s_mode: WrappingMode,
    pub wrap_t_mode: WrappingMode,
    pub width: u32,
    pub height: u32,
    pub format: Format,
    pub contents: Vec<u8>,
}

/// All textures of an asset, by texture index.
pub struct Textures {
    pub textures: Vec<Texture>,
}

/// The name of texture `index`, if there is one.
pub open spec fn texture_name(t: Textures, index: int) -> Option<Seq<char>> {
    if 0 <= index < t.textures@.len() {
        Some(t.textures@[index].name@)
    } else {
        None
    }
}

/// A texture is its description with the unset filters defaulted to `Nearest`.
pub open spec fn texture_built(t: Texture, d: TextureDesc) -> bool {
    &&& t.name@ == d.name->Some_0@
    &&& t.mag_filter == match d.mag_filter {
        Some(f) => f,
        None => MagFilter::Nearest,
    }
    &&& t.min_filter == match d.min_filter {
        Some(f) => f,
        None => MinFilter::Nearest,
    }
    &&& t.wrap_s_mode == d.wrap_s
    &&& t.wrap_t_mode == d.wrap_t
    &&& t.width == d.image.width
    &&& t.height == d.image.height
    &&& t.format == d.image.format
    &&& t.contents@ == d.image.contents@
}

impl Textures {
    /// The name of texture `index`.
    pub fn get(&self, index: usize) -> (r: Option<&str>)
        ensures
            match r {
                Some(s) => texture_name(*self, index as int) == Some(s@),
                None => texture_name(*self, index as int) is None,
            },
    {
        if index < self.textures.len() {
            Some(self.textures[index].name.as_str())
        } else {
            None
        }
    }
}

fn copy_bytes(b: &Vec<u8>) -> (r: Vec<u8>)
    ensures
        r@ == b@,
{
    let mut r: Vec<u8> = Vec::new();
    let mut k: usize = 0;
    while k < b.len()
        invariant
            0 <= k <= b@.len(),
            r@ == b@.take(k as int),
        decreases b@.len() - k,
    {
        r.push(b[k]);
        k += 1;
        assert(r@ =~= b@.take(k as int));
    }
    assert(b@.take(k as int) =~= b@);
    r
}

/// The `length` bytes of an image stored in a buffer view.
pub fn image_bytes(bufs: &Buffers, view: BufferView, length: usize) -> (r: Result<
    Vec<u8>,
    ConvertError,
>)
    ensures
        match r {
            Ok(b) => view.buffer < bufs@.len() && view.byte_offset + length <= bufs@[view.buffer as int].len()
                && b@ == bufs@[view.buffer as int].subrange(
                view.byte_offset as int,
                view.byte_offset + length,
            ),
            Err(e) => e == ConvertError::MissingImageBuffer && !(view.buffer < bufs@.len()
                && view.byte_offset + length <= bufs@[view.buffer as int].len()),
        },
{
    if view.buffer >= bufs.data.len() {
        return Err(ConvertError::MissingImageBuffer);
    }
    let buf = &bufs.data[view.buffer];
    assert(buf@ == bufs@[view.buffer as int]);
    if view.byte_offset > buf.len() || length > buf.len() - view.byte_offset {
        return Err(ConvertError::MissingImageBuffer);
    }
    let len = buf.len();
    let mut out: Vec<u8> = Vec::new();
    let mut k: usize = 0;
    while k < length
        invariant
            0 <= k <= length,
            len == buf@.len(),
            view.byte_offset + length <= buf@.len(),
            out@ == buf@.subrange(view.byte_offset as int, view.byte_offset + k),
        decreases length - k,
    {
        out.push(buf[view.byte_offset + k]);
        k += 1;
        assert(out@ =~= buf@.subrange(view.byte_offset as int, view.byte_offset + k));
    }
    Ok(out)
}

/// Builds one texture: it must be named; unset filters become `Nearest`.
pub fn get_texture(d: &TextureDesc) -> (r: Result<Texture, ConvertError>)
    ensures
        match r {
            Ok(t) => d.name is Some && texture_built(t, *d),
            Err(e) => d.name is None && e == ConvertError::NoName,
        },
{
    let name = match &d.name {
        Some(s) => s.clone(),
        None => {
            return Err(ConvertError::NoName);
        },
    };
    let mag_filter = match d.mag_filter {
        Some(f) => f,
        None => MagFilter::Nearest,
    };
    let min_filter = match d.min_filter {
        Some(f) => f,
        None => MinFilter::Nearest,
    };
    Ok(
        Texture {
            name,
            mag_filter,
            min_filter,
            wrap_s_mode: d.wrap_s,
            wrap_t_mode: d.wrap_t,
            width: d.image.width,
            height: d.image.height,
            format: d.image.format,
            contents: copy_bytes(&d.image.contents),
        },
    )
}

/// Builds every texture, in order; an unnamed one aborts.
pub fn get(descs: &Vec<TextureDesc>) -> (r: Result<Textures, ConvertError>)
    ensures
        match r {
            Ok(t) => t.textures@.len() == descs@.len() && forall|i: int|
                0 <= i < descs@.len() ==> (#[trigger] descs@[i]).name is Some && texture_built(
                    t.textures@[i],
                    descs@[i],
                ),
            Err(e) => e == ConvertError::NoName && exists|i: int|
                0 <= i < descs@.len() && (#[trigger] descs@[i]).name is None,
        },
{
    let mut out: Vec<Texture> = Vec::new();
    let mut i: usize = 0;
    while i < descs.len()
        invariant
            0 <= i <= descs@.len(),
            out@.len() == i,
            forall|k: int|
                0 <= k < i ==> (#[trigger] descs@[k]).name is Some && texture_built(
                    out@[k],
                    descs@[k],
                ),
        decreases descs@.len() - i,
    {
        match get_texture(&descs[i]) {
            Ok(t) => out.push(t),
            Err(e) => {
                assert(descs@[i as int].name is None);
                return Err(e);
            },
        }
        i += 1;
    }
    Ok(Textures { textures: out })
}

} // verus!
