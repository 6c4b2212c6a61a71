//! Comparison of rendered images, as the regression tests compare a
//! rendering with the reference one.

use vstd::prelude::*;
use crate::filters::{RGB8, RGBA8};

verus! {

/// The number of positions below `n` where `a` and `b` differ.
pub open spec fn differing(a: Seq<RGBA8>, b: Seq<RGBA8>, n: int) -> nat
    decreases n,
{
    if n <= 0 {
        0
    } else {
        differing(a, b, n - 1) + if a[n - 1] != b[n - 1] { 1nat } else { 0nat }
    }
}

/// The marker of a pixel in a difference image: red where the two images
/// differ, white elsewhere.
pub open spec fn diff_marker(differs: bool) -> RGB8 {
    if differs {
        RGB8 { r: 255, g: 0, b: 0 }
    } else {
        RGB8 { r: 255, g: 255, b: 255 }
    }
}

proof fn lemma_differing_bounded(a: Seq<RGBA8>, b: Seq<RGBA8>, n: int)
    requires
        n >= 0,
    ensures
        differing(a, b, n) <= n,
    decreases n,
{
    if n > 0 {
        lemma_differing_bounded(a, b, n - 1);
    }
}

/// Compares two images of the same size pixel by pixel: returns the number
/// of pixels that differ and the difference image, red where they differ
/// and white elsewhere.
pub fn compare_pixels(a: &[RGBA8], b: &[RGBA8]) -> (r: (u32, Vec<RGB8>))
    requires
        a@.len() == b@.len(),
        a@.len() <= u32::MAX,
    ensures
        r.0 == differing(a@, b@, a@.len() as int),
        r.1@.len() == a@.len(),
        forall|i: int| 0 <= i < a@.len() ==> #[trigger] r.1@[i] == diff_marker(a@[i] != b@[i]),
{
    let mut count: u32 = 0;
    let mut diff: Vec<RGB8> = Vec::new();
    let mut i: usize = 0;
    while i < a.len()
        invariant
            a@.len() == b@.len(),
            a@.len() <= u32::MAX,
            i <= a@.len(),
            count == differing(a@, b@, i as int),
            diff@.len() == i,
            forall|j: int| 0 <= j < i ==> #[trigger] diff@[j] == diff_marker(a@[j] != b@[j]),
        decreases a.len() - i,
    {
        proof {
            lemma_differing_bounded(a@, b@, i as int);
        }
        if a[i] != b[i] {
            diff.push(RGB8 { r: 255, g: 0, b: 0 });
            count = count + 1;
        } else {
            diff.push(RGB8 { r: 255, g: 255, b: 255 });
        }
        i = i + 1;
    }
    (count, diff)
}

/// Compares two images given with their sizes (width, height). Images of
/// different sizes are an error that reports both sizes; otherwise the
/// result is that of [`compare_pixels`].
pub fn compare_imgs(
    a: &[RGBA8],
    a_size: (u32, u32),
    b: &[RGBA8],
    b_size: (u32, u32),
) -> (r: Result<(u32, Vec<RGB8>), ((u32, u32), (u32, u32))>)
    requires
        a@.len() == a_size.0 * a_size.1,
        b@.len() == b_size.0 * b_size.1,
        a@.len() <= u32::MAX,
    ensures
        a_size != b_size ==> r == Err::<(u32, Vec<RGB8>), ((u32, u32), (u32, u32))>((a_size, b_size)),
        a_size == b_size ==> (r matches Ok((count, diff)) && count == differing(a@, b@, a@.len() as int)
            && diff@.len() == a@.len() && forall|i: int|
            0 <= i < a@.len() ==> #[trigger] diff@[i] == diff_marker(a@[i] != b@[i])),
{
    if a_size.0 != b_size.0 || a_size.1 != b_size.1 {
        return Err((a_size, b_size));
    }
    Ok(compare_pixels(a, b))
}

/// Two channel values differ by more than one.
pub open spec fn channel_differs(x: u8, y: u8) -> bool {
    x - y > 1 || y - x > 1
}

/// Checks whether two pixels differ by more than one in some channel: a
/// difference of one is a rounding difference.
pub fn is_pix_diff(c1: RGBA8, c2: RGBA8) -> (r: bool)
    ensures
        r == (channel_differs(c1.r, c2.r) || channel_differs(c1.g, c2.g) || channel_differs(c1.b, c2.b)
            || channel_differs(c1.a, c2.a)),
{
    let dr = c1.r as i32 - c2.r as i32;
    let dg = c1.g as i32 - c2.g as i32;
    let db = c1.b as i32 - c2.b as i32;
    let da = c1.a as i32 - c2.a as i32;
    (if dr < 0 { -dr } else { dr }) > 1 || (if dg < 0 { -dg } else { dg }) > 1 || (if db < 0 {
        -db
    } else {
        db
    }) > 1 || (if da < 0 { -da } else { da }) > 1
}

/// Builds the difference image of two renderings of the same size, red
/// where a pixel differs by more than a rounding error and white elsewhere.
pub fn gen_diff(a: &[RGBA8], b: &[RGBA8]) -> (r: Vec<RGB8>)
    requires
        a@.len() == b@.len(),
    ensures
        r@.len() == a@.len(),
        forall|i: int|
            0 <= i < a@.len() ==> #[trigger] r@[i] == diff_marker(
                channel_differs(a@[i].r, b@[i].r) || channel_differs(a@[i].g, b@[i].g)
                    || channel_differs(a@[i].b, b@[i].b) || channel_differs(a@[i].a, b@[i].a),
            ),
{
    let mut diff: Vec<RGB8> = Vec::new();
    let mut i: usize = 0;
    while i < a.len()
        invariant
            a@.len() == b@.len(),
            i <= a@.len(),
            diff@.len() == i,
            forall|j: int|
                0 <= j < i ==> #[trigger] diff@[j] == diff_marker(
                    channel_differs(a@[j].r, b@[j].r) || channel_differs(a@[j].g, b@[j].g)
                        || channel_differs(a@[j].b, b@[j].b) || channel_differs(a@[j].a, b@[j].a),
                ),
        decreases a.len() - i,
    {
        if is_pix_diff(a[i], b[i]) {
            diff.push(RGB8 { r: 255, g: 0, b: 0 });
        } else {
            diff.push(RGB8 { r: 255, g: 255, b: 255 });
        }
        i = i + 1;
    }
    diff
}

/// Whether a directory entry is visited by the regression tests: every
/// directory, and the files with an `svg` or `svgz` extension.
pub fn is_svg(is_file: bool, extension: Option<&str>) -> (r: bool)
    ensures
        r == (!is_file || crate::filter_input::opt_str_view(extension) == Some("svg"@)
            || crate::filter_input::opt_str_view(extension) == Some("svgz"@)),
{
    if is_file {
        match extension {
            Some(e) => crate::text::str_eq(e, "svg") || crate::text::str_eq(e, "svgz"),
            None => false,
        }
    } else {
        true
    }
}

} // verus!
