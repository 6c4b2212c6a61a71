//! Raster images of the filter primitives and per-pixel helpers.

use vstd::prelude::*;

verus! {

/// An 8-bit RGBA pixel.
#[derive(Clone, Copy, PartialEq, Eq, Debug, Default, Structural)]
pub struct RGBA8 {
    pub r: u8,
    pub g: u8,
    pub b: u8,
    pub a: u8,
}

/// An 8-bit RGB color.
#[derive(Clone, Copy, PartialEq, Eq, Debug, Default, Structural)]
pub struct RGB8 {
    pub r: u8,
    pub g: u8,
    pub b: u8,
}

/// An image reference.
///
/// Image pixels are stored in RGBA order, row by row.
#[derive(Clone, Copy)]
pub struct ImageRef<'a> {
    pub data: &'a [RGBA8],
    pub width: u32,
    pub height: u32,
}

/// Whether a `width` x `height` grid fits in `len` pixels and its pixel
/// indices fit in a `u32`.
pub open spec fn grid_fits(width: u32, height: u32, len: nat) -> bool {
    &&& width as int * height as int <= len
    &&& width as int * height as int <= u32::MAX
}

/// The index of pixel `(x, y)` in a row-major image of width `width`.
pub open spec fn pixel_index(width: u32, x: int, y: int) -> int {
    width as int * y + x
}

/// A pixel of a grid has an index inside the grid.
pub proof fn lemma_pixel_index_in_grid(width: u32, height: u32, x: int, y: int)
    requires
        0 <= x < width,
        0 <= y < height,
    ensures
        0 <= pixel_index(width, x, y) < width as int * height as int,
{
    assert(width as int * y + x < width as int * height as int) by (nonlinear_arith)
        requires
            0 <= x < width,
            0 <= y < height,
    ;
    assert(0 <= width as int * y) by (nonlinear_arith)
        requires
            0 <= y,
    ;
}

impl<'a> ImageRef<'a> {
    /// Creates a new image reference.
    ///
    /// Doesn't clone the provided data.
    pub fn new(data: &'a [RGBA8], width: u32, height: u32) -> (r: Self)
        ensures
            r.data@ == data@,
            r.width == width,
            r.height == height,
    {
        ImageRef { data, width, height }
    }

    /// Whether the image's size fits its pixel data.
    pub open spec fn valid(&self) -> bool {
        grid_fits(self.width, self.height, self.data@.len())
    }

    /// The alpha of pixel `(x, y)`.
    pub open spec fn spec_alpha(&self, x: int, y: int) -> int {
        self.data@[pixel_index(self.width, x, y)].a as int
    }

    /// Returns the alpha of pixel `(x, y)`.
    pub fn alpha_at(&self, x: u32, y: u32) -> (r: i16)
        requires
            self.valid(),
            x < self.width,
            y < self.height,
        ensures
            r == self.spec_alpha(x as int, y as int),
    {
        proof {
            lemma_pixel_index_in_grid(self.width, self.height, x as int, y as int);
        }
        self.data[(self.width * y + x) as usize].a as i16
    }
}

/// A mutable image reference.
pub struct ImageRefMut<'a> {
    pub data: &'a mut [RGBA8],
    pub width: u32,
    pub height: u32,
}

impl<'a> ImageRefMut<'a> {
    /// Creates a new mutable image reference.
    ///
    /// Doesn't clone the provided data.
    pub fn new(data: &'a mut [RGBA8], width: u32, height: u32) -> (r: Self)
        ensures
            r.data@ == old(data)@,
            final(data)@ == final(r.data)@,
            r.width == width,
            r.height == height,
    {
        ImageRefMut { data, width, height }
    }

    /// Whether the image's size fits its pixel data.
    pub open spec fn valid(&self) -> bool {
        grid_fits(self.width, self.height, self.data@.len())
    }

    /// Returns pixel `(x, y)`.
    pub fn pixel_at(&self, x: u32, y: u32) -> (r: RGBA8)
        requires
            self.valid(),
            x < self.width,
            y < self.height,
        ensures
            r == old(self.data)@[pixel_index(self.width, x as int, y as int)],
    {
        proof {
            lemma_pixel_index_in_grid(self.width, self.height, x as int, y as int);
        }
        self.data[(self.width * y + x) as usize]
    }

    /// Returns a mutable reference to pixel `(x, y)`.
    pub fn pixel_at_mut(&mut self, x: u32, y: u32) -> (r: &mut RGBA8)
        requires
            old(self).valid(),
            x < old(self).width,
            y < old(self).height,
        ensures
            *r == old(self).data@[pixel_index(old(self).width, x as int, y as int)],
            final(self).width == old(self).width,
            final(self).height == old(self).height,
            final(self).data@ == old(self).data@.update(
                pixel_index(old(self).width, x as int, y as int),
                *final(r),
            ),
    {
        proof {
            lemma_pixel_index_in_grid(self.width, self.height, x as int, y as int);
        }
        let i = (self.width * y + x) as usize;
        &mut self.data[i]
    }
}


/// Precomputed sRGB to LinearRGB table.
///
/// ```text
/// if (C_srgb <= 0.04045)
///     C_lin = C_srgb / 12.92;
///  else
///     C_lin = pow((C_srgb + 0.055) / 1.055, 2.4);
/// ```
pub const SRGB_TO_LINEAR_RGB_TABLE: [u8; 256] = [
    0, 0, 0, 0, 0, 0, 0, 1, 1, 1, 1, 1, 1, 1, 1, 1,
    1, 1, 2, 2, 2, 2, 2, 2, 2, 2, 3, 3, 3, 3, 3, 3,
    4, 4, 4, 4, 4, 5, 5, 5, 5, 6, 6, 6, 6, 7, 7, 7,
    8, 8, 8, 8, 9, 9, 9, 10, 10, 10, 11, 11, 12, 12, 12, 13,
    13, 13, 14, 14, 15, 15, 16, 16, 17, 17, 17, 18, 18, 19, 19, 20,
    20, 21, 22, 22, 23, 23, 24, 24, 25, 25, 26, 27, 27, 28, 29, 29,
    30, 30, 31, 32, 32, 33, 34, 35, 35, 36, 37, 37, 38, 39, 40, 41,
    41, 42, 43, 44, 45, 45, 46, 47, 48, 49, 50, 51, 51, 52, 53, 54,
    55, 56, 57, 58, 59, 60, 61, 62, 63, 64, 65, 66, 67, 68, 69, 70,
    71, 72, 73, 74, 76, 77, 78, 79, 80, 81, 82, 84, 85, 86, 87, 88,
    90, 91, 92, 93, 95, 96, 97, 99, 100, 101, 103, 104, 105, 107, 108, 109,
    111, 112, 114, 115, 116, 118, 119, 121, 122, 124, 125, 127, 128, 130, 131, 133,
    134, 136, 138, 139, 141, 142, 144, 146, 147, 149, 151, 152, 154, 156, 157, 159,
    161, 163, 164, 166, 168, 170, 171, 173, 175, 177, 179, 181, 183, 184, 186, 188,
    190, 192, 194, 196, 198, 200, 202, 204, 206, 208, 210, 212, 214, 216, 218, 220,
    222, 224, 226, 229, 231, 233, 235, 237, 239, 242, 244, 246, 248, 250, 253, 255,
];

/// Precomputed LinearRGB to sRGB table.
///
/// ```text
/// if (C_lin <= 0.0031308)
///     C_srgb = C_lin * 12.92;
/// else
///     C_srgb = 1.055 * pow(C_lin, 1.0 / 2.4) - 0.055;
/// ```
pub const LINEAR_RGB_TO_SRGB_TABLE: [u8; 256] = [
    0, 13, 22, 28, 34, 38, 42, 46, 50, 53, 56, 59, 61, 64, 66, 69,
    71, 73, 75, 77, 79, 81, 83, 85, 86, 88, 90, 92, 93, 95, 96, 98,
    99, 101, 102, 104, 105, 106, 108, 109, 110, 112, 113, 114, 115, 117, 118, 119,
    120, 121, 122, 124, 125, 126, 127, 128, 129, 130, 131, 132, 133, 134, 135, 136,
    137, 138, 139, 140, 141, 142, 143, 144, 145, 146, 147, 148, 148, 149, 150, 151,
    152, 153, 154, 155, 155, 156, 157, 158, 159, 159, 160, 161, 162, 163, 163, 164,
    165, 166, 167, 167, 168, 169, 170, 170, 171, 172, 173, 173, 174, 175, 175, 176,
    177, 178, 178, 179, 180, 180, 181, 182, 182, 183, 184, 185, 185, 186, 187, 187,
    188, 189, 189, 190, 190, 191, 192, 192, 193, 194, 194, 195, 196, 196, 197, 197,
    198, 199, 199, 200, 200, 201, 202, 202, 203, 203, 204, 205, 205, 206, 206, 207,
    208, 208, 209, 209, 210, 210, 211, 212, 212, 213, 213, 214, 214, 215, 215, 216,
    216, 217, 218, 218, 219, 219, 220, 220, 221, 221, 222, 222, 223, 223, 224, 224,
    225, 226, 226, 227, 227, 228, 228, 229, 229, 230, 230, 231, 231, 232, 232, 233,
    233, 234, 234, 235, 235, 236, 236, 237, 237, 238, 238, 238, 239, 239, 240, 240,
    241, 241, 242, 242, 243, 243, 244, 244, 245, 245, 246, 246, 246, 247, 247, 248,
    248, 249, 249, 250, 250, 251, 251, 251, 252, 252, 253, 253, 254, 254, 255, 255,
];

/// A pixel whose color channels went through `table`; alpha is kept.
pub open spec fn map_color_channels(p: RGBA8, table: Seq<u8>) -> RGBA8 {
    RGBA8 { r: table[p.r as int], g: table[p.g as int], b: table[p.b as int], a: p.a }
}

/// Converts input pixels from sRGB into LinearRGB.
///
/// Provided pixels should have an unpremultiplied alpha. The alpha channel
/// is kept as is.
pub fn into_linear_rgb(data: &mut [RGBA8])
    ensures
        final(data)@.len() == old(data)@.len(),
        forall|i: int|
            0 <= i < old(data)@.len() ==> #[trigger] final(data)@[i] == map_color_channels(
                old(data)@[i],
                SRGB_TO_LINEAR_RGB_TABLE@,
            ),
{
    let n = data.len();
    let mut i: usize = 0;
    while i < n
        invariant
            n == old(data)@.len(),
            data@.len() == n,
            i <= n,
            forall|j: int|
                0 <= j < i ==> #[trigger] data@[j] == map_color_channels(
                    old(data)@[j],
                    SRGB_TO_LINEAR_RGB_TABLE@,
                ),
            forall|j: int| i <= j < n ==> #[trigger] data@[j] == old(data)@[j],
        decreases n - i,
    {
        let p = data[i];
        let q = RGBA8 {
            r: SRGB_TO_LINEAR_RGB_TABLE[p.r as usize],
            g: SRGB_TO_LINEAR_RGB_TABLE[p.g as usize],
            b: SRGB_TO_LINEAR_RGB_TABLE[p.b as usize],
            a: p.a,
        };
        data[i] = q;
        i = i + 1;
    }
}

/// Converts input pixels from LinearRGB into sRGB.
///
/// Provided pixels should have an unpremultiplied alpha. The alpha channel
/// is kept as is.
pub fn from_linear_rgb(data: &mut [RGBA8])
    ensures
        final(data)@.len() == old(data)@.len(),
        forall|i: int|
            0 <= i < old(data)@.len() ==> #[trigger] final(data)@[i] == map_color_channels(
                old(data)@[i],
                LINEAR_RGB_TO_SRGB_TABLE@,
            ),
{
    let n = data.len();
    let mut i: usize = 0;
    while i < n
        invariant
            n == old(data)@.len(),
            data@.len() == n,
            i <= n,
            forall|j: int|
                0 <= j < i ==> #[trigger] data@[j] == map_color_channels(
                    old(data)@[j],
                    LINEAR_RGB_TO_SRGB_TABLE@,
                ),
            forall|j: int| i <= j < n ==> #[trigger] data@[j] == old(data)@[j],
        decreases n - i,
    {
        let p = data[i];
        let q = RGBA8 {
            r: LINEAR_RGB_TO_SRGB_TABLE[p.r as usize],
            g: LINEAR_RGB_TO_SRGB_TABLE[p.g as usize],
            b: LINEAR_RGB_TO_SRGB_TABLE[p.b as usize],
            a: p.a,
        };
        data[i] = q;
        i = i + 1;
    }
}

/// Black and white are the same in both color spaces.
pub proof fn lemma_color_space_tables_fix_extremes()
    ensures
        SRGB_TO_LINEAR_RGB_TABLE@[0] == 0,
        SRGB_TO_LINEAR_RGB_TABLE@[255] == 255,
        LINEAR_RGB_TO_SRGB_TABLE@[0] == 0,
        LINEAR_RGB_TO_SRGB_TABLE@[255] == 255,
{
}

/// A color channel `c` multiplied by the alpha `a` (both on `0..=255`),
/// rounded to the nearest integer.
pub open spec fn premultiplied(c: u8, a: u8) -> u8 {
    ((2 * c * a + 255) / 510) as u8
}

/// A pixel with its color channels multiplied by its alpha.
pub open spec fn premultiplied_pixel(p: RGBA8) -> RGBA8 {
    RGBA8 { r: premultiplied(p.r, p.a), g: premultiplied(p.g, p.a), b: premultiplied(p.b, p.a), a: p.a }
}

fn premultiply_channel(c: u8, a: u8) -> (r: u8)
    ensures
        r == premultiplied(c, a),
{
    assert(2 * c * a + 255 <= 2 * 255 * 255 + 255) by (nonlinear_arith)
        requires
            c <= 255,
            a <= 255,
    ;
    assert((2 * c * a + 255) / 510 <= 255) by (nonlinear_arith)
        requires
            2 * c * a + 255 <= 2 * 255 * 255 + 255,
    ;
    let v: u32 = (2 * (c as u32) * (a as u32) + 255) / 510;
    v as u8
}

/// Multiplies the color channels of the pixels by their alpha, rounding to
/// the nearest integer; the alpha channel is kept.
pub fn multiply_alpha(data: &mut [RGBA8])
    ensures
        final(data)@.len() == old(data)@.len(),
        forall|i: int| 0 <= i < old(data)@.len() ==> #[trigger] final(data)@[i] == premultiplied_pixel(old(data)@[i]),
{
    let n = data.len();
    let mut i: usize = 0;
    while i < n
        invariant
            n == old(data)@.len(),
            data@.len() == n,
            i <= n,
            forall|j: int| 0 <= j < i ==> #[trigger] data@[j] == premultiplied_pixel(old(data)@[j]),
            forall|j: int| i <= j < n ==> #[trigger] data@[j] == old(data)@[j],
        decreases n - i,
    {
        let p = data[i];
        let q = RGBA8 {
            r: premultiply_channel(p.r, p.a),
            g: premultiply_channel(p.g, p.a),
            b: premultiply_channel(p.b, p.a),
            a: p.a,
        };
        data[i] = q;
        i = i + 1;
    }
}

/// Premultiplying keeps every color channel at most the alpha, so the
/// result is a valid premultiplied pixel; an opaque pixel keeps its
/// channels and a fully transparent one gets black.
pub proof fn lemma_premultiplied_within_alpha(c: u8, a: u8)
    ensures
        premultiplied(c, a) <= a,
        a == 255 ==> premultiplied(c, a) == c,
        a == 0 ==> premultiplied(c, a) == 0,
{
    assert((2 * c * a + 255) / 510 <= a) by (nonlinear_arith)
        requires
            c <= 255,
            a <= 255,
    ;
    assert(2 * c * a + 255 <= 2 * 255 * 255 + 255) by (nonlinear_arith)
        requires
            c <= 255,
            a <= 255,
    ;
    if a == 255 {
        assert((2 * c * 255 + 255) / 510 == c);
    }
}

/// The alpha of a diffuse lighting pixel: always opaque.
pub fn calc_diffuse_alpha(_r: u8, _g: u8, _b: u8) -> (a: u8)
    ensures
        a == 255,
{
    255
}

/// The alpha of a specular lighting pixel: the largest color channel, so
/// that the pixel is a valid premultiplied color.
pub fn calc_specular_alpha(r: u8, g: u8, b: u8) -> (a: u8)
    ensures
        a >= r && a >= g && a >= b,
        a == r || a == g || a == b,
{
    let m = if r > g { r } else { g };
    if m > b { m } else { b }
}

} // verus!
