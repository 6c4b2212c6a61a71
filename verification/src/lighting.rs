//! Surface normals of the lighting filter primitives.
//!
//! The normal of a pixel is computed from the alpha channel with the Sobel
//! kernels of the SVG specification, adjusted at the image borders.

use vstd::prelude::*;
use crate::filters::ImageRef;

verus! {

/// A scale factor of a surface normal.
#[derive(Clone, Copy, PartialEq, Eq, Debug, Structural)]
pub enum Factor {
    OneHalf,
    OneThird,
    OneQuarter,
    TwoThirds,
}

impl Factor {
    /// The numerator of the factor.
    pub open spec fn numerator(self) -> int {
        match self {
            Factor::TwoThirds => 2,
            _ => 1,
        }
    }

    /// The denominator of the factor.
    pub open spec fn denominator(self) -> int {
        match self {
            Factor::OneHalf => 2,
            Factor::OneThird => 3,
            Factor::OneQuarter => 4,
            Factor::TwoThirds => 3,
        }
    }
}

/// A surface normal: the scale factors of its two components and the
/// negated Sobel sums of the alpha channel.
#[derive(Clone, Copy, PartialEq, Eq, Debug, Structural)]
pub struct Normal {
    pub factor_x: Factor,
    pub factor_y: Factor,
    pub normal_x: i16,
    pub normal_y: i16,
}

impl Normal {
    /// Creates a normal from the Sobel sums `nx` and `ny`.
    pub fn new(factor_x: Factor, factor_y: Factor, nx: i16, ny: i16) -> (r: Self)
        requires
            nx > i16::MIN,
            ny > i16::MIN,
        ensures
            r == spec_normal(factor_x, factor_y, nx as int, ny as int),
    {
        Normal { factor_x, factor_y, normal_x: -nx, normal_y: -ny }
    }
}

/// The normal with the given factors and Sobel sums.
pub open spec fn spec_normal(factor_x: Factor, factor_y: Factor, nx: int, ny: int) -> Normal {
    Normal { factor_x, factor_y, normal_x: (-nx) as i16, normal_y: (-ny) as i16 }
}

/// Whether the image is a valid input of the lighting filters.
pub open spec fn lit_image(img: ImageRef) -> bool {
    img.valid() && img.width >= 3 && img.height >= 3
}

/// Alpha of the image at `(x, y)`.
pub open spec fn al(img: ImageRef, x: int, y: int) -> int {
    img.spec_alpha(x, y)
}

/// The normal of the top left pixel.
pub open spec fn spec_top_left_normal(img: ImageRef) -> Normal {
    let center = al(img, 0, 0);
    let right = al(img, 1, 0);
    let bottom = al(img, 0, 1);
    let bottom_right = al(img, 1, 1);
    spec_normal(
        Factor::TwoThirds,
        Factor::TwoThirds,
        -2 * center + 2 * right - bottom + bottom_right,
        -2 * center - right + 2 * bottom + bottom_right,
    )
}

/// The normal of the top right pixel.
pub open spec fn spec_top_right_normal(img: ImageRef) -> Normal {
    let w = img.width as int;
    let left = al(img, w - 2, 0);
    let center = al(img, w - 1, 0);
    let bottom_left = al(img, w - 2, 1);
    let bottom = al(img, w - 1, 1);
    spec_normal(
        Factor::TwoThirds,
        Factor::TwoThirds,
        -2 * left + 2 * center - bottom_left + bottom,
        -left - 2 * center + bottom_left + 2 * bottom,
    )
}

/// The normal of the bottom left pixel.
pub open spec fn spec_bottom_left_normal(img: ImageRef) -> Normal {
    let h = img.height as int;
    let top = al(img, 0, h - 2);
    let top_right = al(img, 1, h - 2);
    let center = al(img, 0, h - 1);
    let right = al(img, 1, h - 1);
    spec_normal(
        Factor::TwoThirds,
        Factor::TwoThirds,
        -top + top_right - 2 * center + 2 * right,
        -2 * top - top_right + 2 * center + right,
    )
}

/// The normal of the bottom right pixel.
pub open spec fn spec_bottom_right_normal(img: ImageRef) -> Normal {
    let w = img.width as int;
    let h = img.height as int;
    let top_left = al(img, w - 2, h - 2);
    let top = al(img, w - 1, h - 2);
    let left = al(img, w - 2, h - 1);
    let center = al(img, w - 1, h - 1);
    spec_normal(
        Factor::TwoThirds,
        Factor::TwoThirds,
        -top_left + top - 2 * left + 2 * center,
        -top_left - 2 * top + left + 2 * center,
    )
}

/// The normal of pixel `(x, 0)` of the top row.
pub open spec fn spec_top_row_normal(img: ImageRef, x: int) -> Normal {
    let left = al(img, x - 1, 0);
    let center = al(img, x, 0);
    let right = al(img, x + 1, 0);
    let bottom_left = al(img, x - 1, 1);
    let bottom = al(img, x, 1);
    let bottom_right = al(img, x + 1, 1);
    spec_normal(
        Factor::OneThird,
        Factor::OneHalf,
        -2 * left + 2 * right - bottom_left + bottom_right,
        -left - 2 * center - right + bottom_left + 2 * bottom + bottom_right,
    )
}

/// The normal of pixel `(x, height - 1)` of the bottom row.
pub open spec fn spec_bottom_row_normal(img: ImageRef, x: int) -> Normal {
    let h = img.height as int;
    let top_left = al(img, x - 1, h - 2);
    let top = al(img, x, h - 2);
    let top_right = al(img, x + 1, h - 2);
    let left = al(img, x - 1, h - 1);
    let center = al(img, x, h - 1);
    let right = al(img, x + 1, h - 1);
    spec_normal(
        Factor::OneThird,
        Factor::OneHalf,
        -top_left + top_right - 2 * left + 2 * right,
        -top_left - 2 * top - top_right + left + 2 * center + right,
    )
}

/// The normal of pixel `(0, y)` of the left column.
pub open spec fn spec_left_column_normal(img: ImageRef, y: int) -> Normal {
    let top = al(img, 0, y - 1);
    let top_right = al(img, 1, y - 1);
    let center = al(img, 0, y);
    let right = al(img, 1, y);
    let bottom = al(img, 0, y + 1);
    let bottom_right = al(img, 1, y + 1);
    spec_normal(
        Factor::OneHalf,
        Factor::OneThird,
        -top + top_right - 2 * center + 2 * right - bottom + bottom_right,
        -2 * top - top_right + 2 * bottom + bottom_right,
    )
}

/// The normal of pixel `(width - 1, y)` of the right column.
pub open spec fn spec_right_column_normal(img: ImageRef, y: int) -> Normal {
    let w = img.width as int;
    let top_left = al(img, w - 2, y - 1);
    let top = al(img, w - 1, y - 1);
    let left = al(img, w - 2, y);
    let center = al(img, w - 1, y);
    let bottom_left = al(img, w - 2, y + 1);
    let bottom = al(img, w - 1, y + 1);
    spec_normal(
        Factor::OneHalf,
        Factor::OneThird,
        -top_left + top - 2 * left + 2 * center - bottom_left + bottom,
        -top_left - 2 * top + bottom_left + 2 * bottom,
    )
}

/// The normal of an interior pixel `(x, y)`.
pub open spec fn spec_interior_normal(img: ImageRef, x: int, y: int) -> Normal {
    let top_left = al(img, x - 1, y - 1);
    let top = al(img, x, y - 1);
    let top_right = al(img, x + 1, y - 1);
    let left = al(img, x - 1, y);
    let right = al(img, x + 1, y);
    let bottom_left = al(img, x - 1, y + 1);
    let bottom = al(img, x, y + 1);
    let bottom_right = al(img, x + 1, y + 1);
    spec_normal(
        Factor::OneQuarter,
        Factor::OneQuarter,
        -top_left + top_right - 2 * left + 2 * right - bottom_left + bottom_right,
        -top_left - 2 * top - top_right + bottom_left + 2 * bottom + bottom_right,
    )
}

/// Computes the normal of the top left pixel.
pub fn top_left_normal(img: ImageRef) -> (r: Normal)
    requires
        lit_image(img),
    ensures
        r == spec_top_left_normal(img),
{
    let center = img.alpha_at(0, 0);
    let right = img.alpha_at(1, 0);
    let bottom = img.alpha_at(0, 1);
    let bottom_right = img.alpha_at(1, 1);
    Normal::new(
        Factor::TwoThirds,
        Factor::TwoThirds,
        -2 * center + 2 * right - bottom + bottom_right,
        -2 * center - right + 2 * bottom + bottom_right,
    )
}

/// Computes the normal of the top right pixel.
pub fn top_right_normal(img: ImageRef) -> (r: Normal)
    requires
        lit_image(img),
    ensures
        r == spec_top_right_normal(img),
{
    let left = img.alpha_at(img.width - 2, 0);
    let center = img.alpha_at(img.width - 1, 0);
    let bottom_left = img.alpha_at(img.width - 2, 1);
    let bottom = img.alpha_at(img.width - 1, 1);
    Normal::new(
        Factor::TwoThirds,
        Factor::TwoThirds,
        -2 * left + 2 * center - bottom_left + bottom,
        -left - 2 * center + bottom_left + 2 * bottom,
    )
}

/// Computes the normal of the bottom left pixel.
pub fn bottom_left_normal(img: ImageRef) -> (r: Normal)
    requires
        lit_image(img),
    ensures
        r == spec_bottom_left_normal(img),
{
    let top = img.alpha_at(0, img.height - 2);
    let top_right = img.alpha_at(1, img.height - 2);
    let center = img.alpha_at(0, img.height - 1);
    let right = img.alpha_at(1, img.height - 1);
    Normal::new(
        Factor::TwoThirds,
        Factor::TwoThirds,
        -top + top_right - 2 * center + 2 * right,
        -2 * top - top_right + 2 * center + right,
    )
}

/// Computes the normal of the bottom right pixel.
pub fn bottom_right_normal(img: ImageRef) -> (r: Normal)
    requires
        lit_image(img),
    ensures
        r == spec_bottom_right_normal(img),
{
    let top_left = img.alpha_at(img.width - 2, img.height - 2);
    let top = img.alpha_at(img.width - 1, img.height - 2);
    let left = img.alpha_at(img.width - 2, img.height - 1);
    let center = img.alpha_at(img.width - 1, img.height - 1);
    Normal::new(
        Factor::TwoThirds,
        Factor::TwoThirds,
        -top_left + top - 2 * left + 2 * center,
        -top_left - 2 * top + left + 2 * center,
    )
}

/// Computes the normal of pixel `(x, 0)` of the top row.
pub fn top_row_normal(img: ImageRef, x: u32) -> (r: Normal)
    requires
        lit_image(img),
        1 <= x < img.width - 1,
    ensures
        r == spec_top_row_normal(img, x as int),
{
    let left = img.alpha_at(x - 1, 0);
    let center = img.alpha_at(x, 0);
    let right = img.alpha_at(x + 1, 0);
    let bottom_left = img.alpha_at(x - 1, 1);
    let bottom = img.alpha_at(x, 1);
    let bottom_right = img.alpha_at(x + 1, 1);
    Normal::new(
        Factor::OneThird,
        Factor::OneHalf,
        -2 * left + 2 * right - bottom_left + bottom_right,
        -left - 2 * center - right + bottom_left + 2 * bottom + bottom_right,
    )
}

/// Computes the normal of pixel `(x, height - 1)` of the bottom row.
pub fn bottom_row_normal(img: ImageRef, x: u32) -> (r: Normal)
    requires
        lit_image(img),
        1 <= x < img.width - 1,
    ensures
        r == spec_bottom_row_normal(img, x as int),
{
    let top_left = img.alpha_at(x - 1, img.height - 2);
    let top = img.alpha_at(x, img.height - 2);
    let top_right = img.alpha_at(x + 1, img.height - 2);
    let left = img.alpha_at(x - 1, img.height - 1);
    let center = img.alpha_at(x, img.height - 1);
    let right = img.alpha_at(x + 1, img.height - 1);
    Normal::new(
        Factor::OneThird,
        Factor::OneHalf,
        -top_left + top_right - 2 * left + 2 * right,
        -top_left - 2 * top - top_right + left + 2 * center + right,
    )
}

/// Computes the normal of pixel `(0, y)` of the left column.
pub fn left_column_normal(img: ImageRef, y: u32) -> (r: Normal)
    requires
        lit_image(img),
        1 <= y < img.height - 1,
    ensures
        r == spec_left_column_normal(img, y as int),
{
    let top = img.alpha_at(0, y - 1);
    let top_right = img.alpha_at(1, y - 1);
    let center = img.alpha_at(0, y);
    let right = img.alpha_at(1, y);
    let bottom = img.alpha_at(0, y + 1);
    let bottom_right = img.alpha_at(1, y + 1);
    Normal::new(
        Factor::OneHalf,
        Factor::OneThird,
        -top + top_right - 2 * center + 2 * right - bottom + bottom_right,
        -2 * top - top_right + 2 * bottom + bottom_right,
    )
}

/// Computes the normal of pixel `(width - 1, y)` of the right column.
pub fn right_column_normal(img: ImageRef, y: u32) -> (r: Normal)
    requires
        lit_image(img),
        1 <= y < img.height - 1,
    ensures
        r == spec_right_column_normal(img, y as int),
{
    let top_left = img.alpha_at(img.width - 2, y - 1);
    let top = img.alpha_at(img.width - 1, y - 1);
    let left = img.alpha_at(img.width - 2, y);
    let center = img.alpha_at(img.width - 1, y);
    let bottom_left = img.alpha_at(img.width - 2, y + 1);
    let bottom = img.alpha_at(img.width - 1, y + 1);
    Normal::new(
        Factor::OneHalf,
        Factor::OneThird,
        -top_left + top - 2 * left + 2 * center - bottom_left + bottom,
        -top_left - 2 * top + bottom_left + 2 * bottom,
    )
}

/// Computes the normal of an interior pixel `(x, y)`.
pub fn interior_normal(img: ImageRef, x: u32, y: u32) -> (r: Normal)
    requires
        lit_image(img),
        1 <= x < img.width - 1,
        1 <= y < img.height - 1,
    ensures
        r == spec_interior_normal(img, x as int, y as int),
{
    let top_left = img.alpha_at(x - 1, y - 1);
    let top = img.alpha_at(x, y - 1);
    let top_right = img.alpha_at(x + 1, y - 1);
    let left = img.alpha_at(x - 1, y);
    let right = img.alpha_at(x + 1, y);
    let bottom_left = img.alpha_at(x - 1, y + 1);
    let bottom = img.alpha_at(x, y + 1);
    let bottom_right = img.alpha_at(x + 1, y + 1);
    Normal::new(
        Factor::OneQuarter,
        Factor::OneQuarter,
        -top_left + top_right - 2 * left + 2 * right - bottom_left + bottom_right,
        -top_left - 2 * top - top_right + bottom_left + 2 * bottom + bottom_right,
    )
}


/// Whether every pixel of the image has the same alpha.
pub open spec fn flat(img: ImageRef) -> bool {
    forall|x: int, y: int|
        0 <= x < img.width && 0 <= y < img.height ==> #[trigger] al(img, x, y) == al(img, 0, 0)
}

/// Whether a normal has zero components.
pub open spec fn is_zero(n: Normal) -> bool {
    n.normal_x == 0 && n.normal_y == 0
}

/// On a flat surface every kernel gives a zero normal.
proof fn lemma_flat_surface_kernels(img: ImageRef, x: int, y: int)
    requires
        lit_image(img),
        flat(img),
        1 <= x < img.width - 1,
        1 <= y < img.height - 1,
    ensures
        is_zero(spec_top_left_normal(img)),
        is_zero(spec_top_right_normal(img)),
        is_zero(spec_bottom_left_normal(img)),
        is_zero(spec_bottom_right_normal(img)),
        is_zero(spec_top_row_normal(img, x)),
        is_zero(spec_bottom_row_normal(img, x)),
        is_zero(spec_left_column_normal(img, y)),
        is_zero(spec_right_column_normal(img, y)),
        is_zero(spec_interior_normal(img, x, y)),
{
    let w = img.width as int;
    let h = img.height as int;
    let c = al(img, 0, 0);
    assert(al(img, 1, 0) == c);
    assert(al(img, 0, 1) == c);
    assert(al(img, 1, 1) == c);
    assert(al(img, w - 2, 0) == c);
    assert(al(img, w - 1, 0) == c);
    assert(al(img, w - 2, 1) == c);
    assert(al(img, w - 1, 1) == c);
    assert(al(img, 0, h - 2) == c);
    assert(al(img, 1, h - 2) == c);
    assert(al(img, 0, h - 1) == c);
    assert(al(img, 1, h - 1) == c);
    assert(al(img, w - 2, h - 2) == c);
    assert(al(img, w - 1, h - 2) == c);
    assert(al(img, w - 2, h - 1) == c);
    assert(al(img, w - 1, h - 1) == c);
    assert(al(img, x - 1, 0) == c);
    assert(al(img, x, 0) == c);
    assert(al(img, x + 1, 0) == c);
    assert(al(img, x - 1, 1) == c);
    assert(al(img, x, 1) == c);
    assert(al(img, x + 1, 1) == c);
    assert(al(img, x - 1, h - 2) == c);
    assert(al(img, x, h - 2) == c);
    assert(al(img, x + 1, h - 2) == c);
    assert(al(img, x - 1, h - 1) == c);
    assert(al(img, x, h - 1) == c);
    assert(al(img, x + 1, h - 1) == c);
    assert(al(img, 0, y - 1) == c);
    assert(al(img, 1, y - 1) == c);
    assert(al(img, 0, y) == c);
    assert(al(img, 1, y) == c);
    assert(al(img, 0, y + 1) == c);
    assert(al(img, 1, y + 1) == c);
    assert(al(img, w - 2, y - 1) == c);
    assert(al(img, w - 1, y - 1) == c);
    assert(al(img, w - 2, y) == c);
    assert(al(img, w - 1, y) == c);
    assert(al(img, w - 2, y + 1) == c);
    assert(al(img, w - 1, y + 1) == c);
    assert(al(img, x - 1, y - 1) == c);
    assert(al(img, x, y - 1) == c);
    assert(al(img, x + 1, y - 1) == c);
    assert(al(img, x - 1, y) == c);
    assert(al(img, x + 1, y) == c);
    assert(al(img, x - 1, y + 1) == c);
    assert(al(img, x, y + 1) == c);
    assert(al(img, x + 1, y + 1) == c);
}


/// The normal that the lighting filters use for pixel `(x, y)`: the
/// corner, border or interior kernel, by the pixel's position.
pub open spec fn spec_surface_normal(img: ImageRef, x: int, y: int) -> Normal {
    let w = img.width as int;
    let h = img.height as int;
    if y == 0 {
        if x == 0 {
            spec_top_left_normal(img)
        } else if x == w - 1 {
            spec_top_right_normal(img)
        } else {
            spec_top_row_normal(img, x)
        }
    } else if y == h - 1 {
        if x == 0 {
            spec_bottom_left_normal(img)
        } else if x == w - 1 {
            spec_bottom_right_normal(img)
        } else {
            spec_bottom_row_normal(img, x)
        }
    } else if x == 0 {
        spec_left_column_normal(img, y)
    } else if x == w - 1 {
        spec_right_column_normal(img, y)
    } else {
        spec_interior_normal(img, x, y)
    }
}

/// Computes the normal of pixel `(x, y)` with the kernel that its position
/// calls for.
pub fn surface_normal(img: ImageRef, x: u32, y: u32) -> (r: Normal)
    requires
        lit_image(img),
        x < img.width,
        y < img.height,
    ensures
        r == spec_surface_normal(img, x as int, y as int),
{
    let w = img.width;
    let h = img.height;
    if y == 0 {
        if x == 0 {
            top_left_normal(img)
        } else if x == w - 1 {
            top_right_normal(img)
        } else {
            top_row_normal(img, x)
        }
    } else if y == h - 1 {
        if x == 0 {
            bottom_left_normal(img)
        } else if x == w - 1 {
            bottom_right_normal(img)
        } else {
            bottom_row_normal(img, x)
        }
    } else if x == 0 {
        left_column_normal(img, y)
    } else if x == w - 1 {
        right_column_normal(img, y)
    } else {
        interior_normal(img, x, y)
    }
}


/// A surface of constant alpha is flat: the lighting filters see a zero
/// normal at every pixel.
pub proof fn lemma_flat_surface_has_zero_normals(img: ImageRef, x: int, y: int)
    requires
        lit_image(img),
        flat(img),
        0 <= x < img.width,
        0 <= y < img.height,
    ensures
        is_zero(spec_surface_normal(img, x, y)),
{
    let xi = if 1 <= x < img.width - 1 { x } else { 1 };
    let yi = if 1 <= y < img.height - 1 { y } else { 1 };
    lemma_flat_surface_kernels(img, xi, yi);
}

/// The alpha of the image depends on the row alone.
pub open spec fn rows_only(img: ImageRef) -> bool {
    forall|x: int, y: int|
        0 <= x < img.width && 0 <= y < img.height ==> #[trigger] al(img, x, y) == al(img, 0, y)
}

/// The alpha of the image depends on the column alone.
pub open spec fn columns_only(img: ImageRef) -> bool {
    forall|x: int, y: int|
        0 <= x < img.width && 0 <= y < img.height ==> #[trigger] al(img, x, y) == al(img, x, 0)
}

/// Going down the image, the alpha never falls (`strict`: always rises).
pub open spec fn rising_down(img: ImageRef, strict: bool) -> bool {
    forall|y1: int, y2: int|
        0 <= y1 < y2 < img.height ==> if strict {
            #[trigger] al(img, 0, y1) < #[trigger] al(img, 0, y2)
        } else {
            al(img, 0, y1) <= al(img, 0, y2)
        }
}

/// Going right along the image, the alpha never falls (`strict`: always
/// rises).
pub open spec fn rising_right(img: ImageRef, strict: bool) -> bool {
    forall|x1: int, x2: int|
        0 <= x1 < x2 < img.width ==> if strict {
            #[trigger] al(img, x1, 0) < #[trigger] al(img, x2, 0)
        } else {
            al(img, x1, 0) <= al(img, x2, 0)
        }
}

/// On an interior pixel the normal is the negated Sobel gradient of the
/// alpha, scaled by a quarter: its x component is the weighted left column
/// less the weighted right column, its y component the weighted top row
/// less the weighted bottom row.
pub proof fn lemma_interior_normal_is_negated_sobel(img: ImageRef, x: int, y: int)
    requires
        lit_image(img),
        1 <= x < img.width - 1,
        1 <= y < img.height - 1,
    ensures
        spec_surface_normal(img, x, y).factor_x == Factor::OneQuarter,
        spec_surface_normal(img, x, y).factor_y == Factor::OneQuarter,
        spec_surface_normal(img, x, y).normal_x == (al(img, x - 1, y - 1) + 2 * al(img, x - 1, y) + al(
            img,
            x - 1,
            y + 1,
        )) - (al(img, x + 1, y - 1) + 2 * al(img, x + 1, y) + al(img, x + 1, y + 1)),
        spec_surface_normal(img, x, y).normal_y == (al(img, x - 1, y - 1) + 2 * al(img, x, y - 1) + al(
            img,
            x + 1,
            y - 1,
        )) - (al(img, x - 1, y + 1) + 2 * al(img, x, y + 1) + al(img, x + 1, y + 1)),
{
}

/// Where the alpha rises downward and is the same along each row, every
/// pixel, corners and borders included, gets a normal that points up (its
/// y component is negative, or zero where the alpha is only allowed to stay
/// level) and has no x component.
pub proof fn lemma_downward_ramp_points_up(img: ImageRef, x: int, y: int, strict: bool)
    requires
        lit_image(img),
        rows_only(img),
        rising_down(img, strict),
        0 <= x < img.width,
        0 <= y < img.height,
    ensures
        spec_surface_normal(img, x, y).normal_x == 0,
        spec_surface_normal(img, x, y).normal_y <= 0,
        strict ==> spec_surface_normal(img, x, y).normal_y < 0,
{
    let w = img.width as int;
    let h = img.height as int;
    let ys = if y == 0 { 0 } else if y == h - 1 { h - 2 } else { y - 1 };
    let ye = if y == 0 { 1 } else if y == h - 1 { h - 1 } else { y + 1 };
    let a0 = al(img, 0, ys);
    let a1 = al(img, 0, ys + 1);
    let a2 = al(img, 0, ye);
    assert(a0 <= a1 && a1 <= a2 && a0 <= a2 && (strict ==> a0 < a1 && a0 < a2)) by {
        if ys + 1 < ye {
            assert(al(img, 0, ys) <= al(img, 0, ys + 1) && (strict ==> al(img, 0, ys) < al(img, 0, ys + 1)));
            assert(al(img, 0, ys + 1) <= al(img, 0, ye));
            assert(al(img, 0, ys) <= al(img, 0, ye));
        } else {
            assert(al(img, 0, ys) <= al(img, 0, ye) && (strict ==> al(img, 0, ys) < al(img, 0, ye)));
        }
    }
    let xs = if x == 0 { 0 } else if x == w - 1 { w - 2 } else { x - 1 };
    let xe = if x == 0 { 1 } else if x == w - 1 { w - 1 } else { x + 1 };
    assert(al(img, xs, ys) == a0 && al(img, x, ys) == a0 && al(img, xe, ys) == a0);
    assert(al(img, xs, ys + 1) == a1 && al(img, x, ys + 1) == a1 && al(img, xe, ys + 1) == a1);
    assert(al(img, xs, ye) == a2 && al(img, x, ye) == a2 && al(img, xe, ye) == a2);
    assert(al(img, xs, y) == al(img, 0, y) && al(img, xe, y) == al(img, 0, y) && al(img, x, y) == al(img, 0, y));
}

/// Where the alpha rises to the right and is the same down each column,
/// every pixel gets a normal that points left (its x component is
/// negative, or zero where the alpha is only allowed to stay level) and has
/// no y component.
pub proof fn lemma_rightward_ramp_points_left(img: ImageRef, x: int, y: int, strict: bool)
    requires
        lit_image(img),
        columns_only(img),
        rising_right(img, strict),
        0 <= x < img.width,
        0 <= y < img.height,
    ensures
        spec_surface_normal(img, x, y).normal_y == 0,
        spec_surface_normal(img, x, y).normal_x <= 0,
        strict ==> spec_surface_normal(img, x, y).normal_x < 0,
{
    let w = img.width as int;
    let h = img.height as int;
    let xs = if x == 0 { 0 } else if x == w - 1 { w - 2 } else { x - 1 };
    let xe = if x == 0 { 1 } else if x == w - 1 { w - 1 } else { x + 1 };
    let a0 = al(img, xs, 0);
    let a1 = al(img, xs + 1, 0);
    let a2 = al(img, xe, 0);
    assert(a0 <= a1 && a1 <= a2 && a0 <= a2 && (strict ==> a0 < a1 && a0 < a2)) by {
        if xs + 1 < xe {
            assert(al(img, xs, 0) <= al(img, xs + 1, 0) && (strict ==> al(img, xs, 0) < al(img, xs + 1, 0)));
            assert(al(img, xs + 1, 0) <= al(img, xe, 0));
            assert(al(img, xs, 0) <= al(img, xe, 0));
        } else {
            assert(al(img, xs, 0) <= al(img, xe, 0) && (strict ==> al(img, xs, 0) < al(img, xe, 0)));
        }
    }
    let ys = if y == 0 { 0 } else if y == h - 1 { h - 2 } else { y - 1 };
    let ye = if y == 0 { 1 } else if y == h - 1 { h - 1 } else { y + 1 };
    assert(al(img, xs, ys) == a0 && al(img, xs, y) == a0 && al(img, xs, ye) == a0);
    assert(al(img, xs + 1, ys) == a1 && al(img, xs + 1, y) == a1 && al(img, xs + 1, ye) == a1);
    assert(al(img, xe, ys) == a2 && al(img, xe, y) == a2 && al(img, xe, ye) == a2);
    assert(al(img, x, ys) == al(img, x, 0) && al(img, x, ye) == al(img, x, 0) && al(img, x, y) == al(img, x, 0));
}

} // verus!
