use vstd::prelude::*;

verus! {

/// Opaque handle of a texture loaded by a sprite renderer.
///
/// It wraps the name that the graphics API gave to the texture object. The
/// default value, zero, never names a texture.
#[derive(PartialEq, Eq, Clone, Copy, Debug, Hash, Default, Structural)]
pub struct TextureId(pub u32);

impl TextureId {
    pub fn new(id: u32) -> (r: Self)
        ensures
            r.0 == id,
    {
        TextureId(id)
    }
}

/// Error of the texture operations of a sprite renderer.
#[derive(PartialEq, Eq, Clone, Copy, Debug, Structural)]
pub enum TextureError {
    /// The length of `data` does not match the one expected from its width,
    /// height and `TextureFormat`.
    InvalidLength,
    /// The underlying renderer context does not exist.
    RendererContextDontExist,
}

/// The format of the pixel data of a texture.
#[derive(PartialEq, Eq, Clone, Copy, Debug, Structural)]
pub enum TextureFormat {
    /// Four bytes per pixel: red, green, blue and alpha, in that order, in
    /// the sRGB color space. Data of this format is `width * height * 4`
    /// bytes long.
    Rgba8888,
}

impl TextureFormat {
    pub open spec fn spec_bytes_per_pixel(self) -> nat {
        match self {
            TextureFormat::Rgba8888 => 4,
        }
    }

    /// The number of bytes that one pixel takes in this format.
    pub fn bytes_per_pixel(&self) -> (r: u32)
        ensures
            r == self.spec_bytes_per_pixel(),
    {
        match self {
            TextureFormat::Rgba8888 => 4,
        }
    }
}

/// The interpolation used when sampling a texture.
#[derive(PartialEq, Eq, Clone, Copy, Debug, Structural)]
pub enum TextureFilter {
    /// Use the nearest sample: the texture looks pixelated.
    Nearest,
    /// Interpolate linearly between the nearest samples.
    Linear,
}

/// The number of bytes of tightly packed pixel data of the given size and
/// format.
pub open spec fn data_len_of(width: u32, height: u32, format: TextureFormat) -> int {
    width * height * format.spec_bytes_per_pixel()
}

/// `width * height * bpp`, exactly.
fn area_bytes(width: u32, height: u32, bpp: u32) -> (r: u128)
    ensures
        r == width * height * bpp,
{
    proof {
        assert(0 <= width * height <= 0xffff_ffffu64 * 0xffff_ffffu64) by (nonlinear_arith);
        assert(0 <= (width * height) * bpp <= (0xffff_ffffu64 * 0xffff_ffffu64) * 0xffff_ffffu64)
            by (nonlinear_arith)
            requires
                0 <= width * height <= 0xffff_ffffu64 * 0xffff_ffffu64,
                bpp <= 0xffff_ffffu64,
        ;
    }
    (width as u128) * (height as u128) * (bpp as u128)
}

/// Whether `len` bytes are exactly the tightly packed RGBA data of a
/// `width` x `height` rectangle.
pub fn rgba_len(len: usize, width: u32, height: u32) -> (r: bool)
    ensures
        r == (len == data_len_of(width, height, TextureFormat::Rgba8888)),
{
    len as u128 == area_bytes(width, height, 4)
}

/// A texture to be loaded by a sprite renderer, built step by step.
pub struct Texture<'a> {
    /// A stable id asked for the texture, or `u32::MAX` for a fresh one.
    pub id: TextureId,
    pub width: u32,
    pub height: u32,
    pub format: TextureFormat,
    pub filter: TextureFilter,
    /// The pixel data; without it the texture holds undefined data.
    pub data: Option<&'a [u8]>,
}

impl<'a> Texture<'a> {
    /// A texture of the given size, RGBA, linearly filtered, with no data.
    pub fn new(width: u32, height: u32) -> (r: Self)
        ensures
            r.id == TextureId(u32::MAX),
            r.width == width,
            r.height == height,
            r.format == TextureFormat::Rgba8888,
            r.filter == TextureFilter::Linear,
            r.data is None,
    {
        Texture {
            id: TextureId(u32::MAX),
            width,
            height,
            format: TextureFormat::Rgba8888,
            filter: TextureFilter::Linear,
            data: None,
        }
    }

    /// Sets a stable id for the texture, used to replace an existing texture
    /// or to recreate it after the context was lost.
    pub fn id(self, id: TextureId) -> (r: Self)
        ensures
            r == (Texture { id, ..self }),
    {
        Texture { id, ..self }
    }

    /// Sets the format of the data.
    pub fn format(self, format: TextureFormat) -> (r: Self)
        ensures
            r == (Texture { format, ..self }),
    {
        Texture { format, ..self }
    }

    /// Sets the filter used when sampling.
    pub fn filter(self, filter: TextureFilter) -> (r: Self)
        ensures
            r == (Texture { filter, ..self }),
    {
        Texture { filter, ..self }
    }

    /// Sets the pixel data of the texture.
    pub fn data(self, data: &'a [u8]) -> (r: Self)
        ensures
            r == (Texture { data: Some(data), ..self }),
    {
        Texture { data: Some(data), ..self }
    }

    /// Whether the data, if any, has the length that the size and format ask.
    pub open spec fn spec_data_fits(&self) -> bool {
        match self.data {
            Some(d) => d@.len() == data_len_of(self.width, self.height, self.format),
            None => true,
        }
    }

    /// Whether the data, if any, has the length that the size and format ask.
    pub fn data_fits(&self) -> (r: bool)
        ensures
            r == self.spec_data_fits(),
    {
        match self.data {
            Some(d) => {
                let bpp = self.format.bytes_per_pixel();
                d.len() as u128 == area_bytes(self.width, self.height, bpp)
            },
            None => true,
        }
    }
}

} // verus!
