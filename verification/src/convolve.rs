//! The matrix and the edge handling of the convolve matrix filter.

use vstd::prelude::*;
use vstd::arithmetic::div_mod::lemma_mod_add_multiples_vanish;

verus! {

/// An edges processing mode used by the convolve matrix filter.
#[derive(Clone, Copy, PartialEq, Eq, Debug, Structural)]
pub enum EdgeMode {
    /// Pixels outside the image are transparent black: `edgeMode="none"`.
    Zero,
    Duplicate,
    Wrap,
}

/// A convolve matrix: `columns` x `rows` values stored row by row, with a
/// target cell.
#[derive(Debug)]
pub struct ConvolveMatrix<'a, T> {
    x: u32,
    y: u32,
    columns: u32,
    rows: u32,
    data: &'a [T],
}

impl<'a, T> ConvolveMatrix<'a, T> {
    #[verifier::type_invariant]
    spec fn well_formed(self) -> bool {
        &&& self.columns as int * self.rows as int == self.data@.len()
        &&& self.columns as int * self.rows as int <= u32::MAX
        &&& self.x < self.columns
        &&& self.y < self.rows
    }

    /// The `targetX` of the matrix.
    pub closed spec fn spec_target_x(self) -> u32 {
        self.x
    }

    /// The `targetY` of the matrix.
    pub closed spec fn spec_target_y(self) -> u32 {
        self.y
    }

    /// The number of columns of the matrix.
    pub closed spec fn spec_columns(self) -> u32 {
        self.columns
    }

    /// The number of rows of the matrix.
    pub closed spec fn spec_rows(self) -> u32 {
        self.rows
    }

    /// The values of the matrix, row by row.
    pub closed spec fn spec_data(self) -> Seq<T> {
        self.data@
    }

    /// Creates a new `ConvolveMatrix`.
    ///
    /// Returns `None` when:
    ///
    /// - `columns` * `rows` != `data.len()`
    /// - `target_x` >= `columns`
    /// - `target_y` >= `rows`
    pub fn new(target_x: u32, target_y: u32, columns: u32, rows: u32, data: &'a [T]) -> (r: Option<Self>)
        requires
            columns as int * rows as int <= u32::MAX,
        ensures
            r is Some <==> (columns as int * rows as int == data@.len() && target_x < columns
                && target_y < rows),
            r matches Some(m) ==> {
                &&& m.spec_target_x() == target_x
                &&& m.spec_target_y() == target_y
                &&& m.spec_columns() == columns
                &&& m.spec_rows() == rows
                &&& m.spec_data() == data@
            },
    {
        if (columns * rows) as usize != data.len() || target_x >= columns || target_y >= rows {
            return None;
        }
        Some(ConvolveMatrix { x: target_x, y: target_y, columns, rows, data })
    }

    /// Returns the matrix's X target.
    ///
    /// `targetX` in the SVG.
    pub fn target_x(&self) -> (r: u32)
        ensures
            r == self.spec_target_x(),
            r < self.spec_columns(),
    {
        proof {
            use_type_invariant(self);
        }
        self.x
    }

    /// Returns the matrix's Y target.
    ///
    /// `targetY` in the SVG.
    pub fn target_y(&self) -> (r: u32)
        ensures
            r == self.spec_target_y(),
            r < self.spec_rows(),
    {
        proof {
            use_type_invariant(self);
        }
        self.y
    }

    /// Returns the number of columns in the matrix.
    pub fn columns(&self) -> (r: u32)
        ensures
            r == self.spec_columns(),
    {
        self.columns
    }

    /// Returns the number of rows in the matrix.
    pub fn rows(&self) -> (r: u32)
        ensures
            r == self.spec_rows(),
    {
        self.rows
    }

    /// Returns the matrix value at column `x` of row `y`.
    pub fn get(&self, x: u32, y: u32) -> (r: &T)
        requires
            x < self.spec_columns(),
            y < self.spec_rows(),
        ensures
            *r == self.spec_data()[y as int * self.spec_columns() as int + x as int],
    {
        proof {
            use_type_invariant(self);
            assert(y as int * self.columns as int + x < self.columns as int * self.rows as int)
                by (nonlinear_arith)
                requires
                    x < self.columns,
                    y < self.rows,
            ;
            assert(0 <= y as int * self.columns as int) by (nonlinear_arith);
        }
        &self.data[(y * self.columns + x) as usize]
    }

    /// Returns the matrix values, row by row.
    pub fn data(&self) -> (r: &[T])
        ensures
            r@ == self.spec_data(),
    {
        self.data
    }
}

impl<'a, T> Clone for ConvolveMatrix<'a, T> {
    fn clone(&self) -> (r: Self)
        ensures
            r.spec_target_x() == self.spec_target_x(),
            r.spec_target_y() == self.spec_target_y(),
            r.spec_columns() == self.spec_columns(),
            r.spec_rows() == self.spec_rows(),
            r.spec_data() == self.spec_data(),
    {
        proof {
            use_type_invariant(self);
        }
        ConvolveMatrix { x: self.x, y: self.y, columns: self.columns, rows: self.rows, data: self.data }
    }
}

/// `v` limited to `lo..=hi`.
pub open spec fn clamp(lo: int, v: int, hi: int) -> int {
    if v > hi {
        hi
    } else if v < lo {
        lo
    } else {
        v
    }
}

/// The pixel of a `width` x `height` image that the matrix cell
/// `(ox, oy)` reads for output pixel `(x, y)`, with the matrix target at
/// `(target_x, target_y)`; `None` when the cell is skipped.
pub open spec fn spec_source_pixel(
    edge_mode: EdgeMode,
    x: int,
    y: int,
    ox: int,
    oy: int,
    target_x: int,
    target_y: int,
    width: int,
    height: int,
) -> Option<(int, int)> {
    let tx = x - target_x + ox;
    let ty = y - target_y + oy;
    match edge_mode {
        EdgeMode::Zero => if 0 <= tx < width && 0 <= ty < height {
            Some((tx, ty))
        } else {
            None
        },
        EdgeMode::Duplicate => Some((clamp(0, tx, width - 1), clamp(0, ty, height - 1))),
        EdgeMode::Wrap => Some((tx % width, ty % height)),
    }
}

/// The cell `(ox, oy)` for output pixel `(x, y)` reads the pixel
/// `(x - target_x + ox, y - target_y + oy)`: its column depends on the
/// target's column alone and its row on the target's row alone. Whatever the
/// edge mode, a cell that lands inside the image reads exactly that pixel;
/// with transparent edges a cell that lands outside reads nothing.
pub proof fn lemma_source_pixel_offsets(
    edge_mode: EdgeMode,
    x: int,
    y: int,
    ox: int,
    oy: int,
    target_x: int,
    target_y: int,
    width: int,
    height: int,
)
    requires
        width > 0,
        height > 0,
    ensures
        0 <= x - target_x + ox < width && 0 <= y - target_y + oy < height ==> spec_source_pixel(
            edge_mode,
            x,
            y,
            ox,
            oy,
            target_x,
            target_y,
            width,
            height,
        ) == Some((x - target_x + ox, y - target_y + oy)),
        edge_mode == EdgeMode::Zero ==> (spec_source_pixel(
            edge_mode,
            x,
            y,
            ox,
            oy,
            target_x,
            target_y,
            width,
            height,
        ) is None <==> !(0 <= x - target_x + ox < width && 0 <= y - target_y + oy < height)),
{
    let tx = x - target_x + ox;
    let ty = y - target_y + oy;
    if 0 <= tx < width && 0 <= ty < height {
        vstd::arithmetic::div_mod::lemma_small_mod(tx as nat, width as nat);
        vstd::arithmetic::div_mod::lemma_small_mod(ty as nat, height as nat);
    }
}

/// Moving the output pixel one column to the right moves the pixel that
/// every cell reads one column to the right, and leaves its row alone
/// (while both stay inside the image).
pub proof fn lemma_source_pixel_follows_output(
    edge_mode: EdgeMode,
    x: int,
    y: int,
    ox: int,
    oy: int,
    target_x: int,
    target_y: int,
    width: int,
    height: int,
)
    requires
        width > 0,
        height > 0,
        0 <= x - target_x + ox,
        x + 1 - target_x + ox < width,
        0 <= y - target_y + oy < height,
    ensures
        spec_source_pixel(edge_mode, x + 1, y, ox, oy, target_x, target_y, width, height) matches Some(
            (px1, py1),
        ) && spec_source_pixel(edge_mode, x, y, ox, oy, target_x, target_y, width, height) matches Some(
            (px0, py0),
        ) && px1 == px0 + 1 && py1 == py0,
{
    lemma_source_pixel_offsets(edge_mode, x, y, ox, oy, target_x, target_y, width, height);
    lemma_source_pixel_offsets(edge_mode, x + 1, y, ox, oy, target_x, target_y, width, height);
}

impl<'a, T> ConvolveMatrix<'a, T> {
    /// Finds the pixel of a `width` x `height` image that the matrix cell
    /// `(ox, oy)` reads when the output pixel is `(x, y)`.
    ///
    /// Returns `None` when the cell falls outside the image and
    /// `edge_mode` is `EdgeMode::Zero`.
    pub fn source_pixel(
        &self,
        edge_mode: EdgeMode,
        x: u32,
        y: u32,
        ox: u32,
        oy: u32,
        width: u32,
        height: u32,
    ) -> (r: Option<(u32, u32)>)
        requires
            0 < width <= i32::MAX,
            0 < height <= i32::MAX,
            x < width,
            y < height,
            ox < self.spec_columns(),
            oy < self.spec_rows(),
            self.spec_columns() <= i32::MAX,
            self.spec_rows() <= i32::MAX,
            x + ox <= i32::MAX,
            y + oy <= i32::MAX,
        ensures
            r matches Some((px, py)) ==> px < width && py < height,
            edge_mode != EdgeMode::Zero ==> r is Some,
            match spec_source_pixel(
                edge_mode,
                x as int,
                y as int,
                ox as int,
                oy as int,
                self.spec_target_x() as int,
                self.spec_target_y() as int,
                width as int,
                height as int,
            ) {
                Some((px, py)) => r == Some((px as u32, py as u32)),
                None => r is None,
            },
    {
        proof {
            use_type_invariant(self);
        }
        let width_max = width as i32 - 1;
        let height_max = height as i32 - 1;
        let mut tx: i32 = x as i32 - self.x as i32 + ox as i32;
        let mut ty: i32 = y as i32 - self.y as i32 + oy as i32;
        match edge_mode {
            EdgeMode::Zero => {
                if tx < 0 || tx > width_max || ty < 0 || ty > height_max {
                    return None;
                }
            },
            EdgeMode::Duplicate => {
                tx = if tx > width_max { width_max } else if tx < 0 { 0 } else { tx };
                ty = if ty > height_max { height_max } else if ty < 0 { 0 } else { ty };
            },
            EdgeMode::Wrap => {
                let ghost tx0 = tx as int;
                let ghost ty0 = ty as int;
                while tx < 0
                    invariant
                        tx0 <= tx,
                        tx <= i32::MAX,
                        tx as int % (width as int) == tx0 % (width as int),
                        0 < width <= i32::MAX,
                    decreases if tx < 0 { 0 - tx } else { 0 },
                {
                    proof {
                        lemma_mod_add_multiples_vanish(tx as int, width as int);
                    }
                    tx = tx + width as i32;
                }
                tx = tx % width as i32;
                while ty < 0
                    invariant
                        ty0 <= ty,
                        ty <= i32::MAX,
                        ty as int % (height as int) == ty0 % (height as int),
                        0 < height <= i32::MAX,
                    decreases if ty < 0 { 0 - ty } else { 0 },
                {
                    proof {
                        lemma_mod_add_multiples_vanish(ty as int, height as int);
                    }
                    ty = ty + height as i32;
                }
                ty = ty % height as i32;
            },
        }
        Some((tx as u32, ty as u32))
    }
}

} // verus!
