//! The output grid: its dimensions, its pixels, and the row-major order in
//! which every per-pixel table of this crate is laid out.

use vstd::prelude::*;

verus! {

/// A pixel coordinate: column `x`, counted from the left edge, and row `y`,
/// counted from the top edge.
#[derive(Clone, Copy, Debug, PartialEq, Eq, Structural)]
pub struct Pixel {
    pub x: usize,
    pub y: usize,
}

/// The dimensions of the output grid. Both are positive, and the number of
/// cells fits in a `usize`.
#[derive(Clone, Copy, Debug)]
pub struct Grid {
    width: usize,
    height: usize,
}

/// Whether a grid of `width` columns and `height` rows can exist.
pub open spec fn valid_dimensions(width: nat, height: nat) -> bool {
    0 < width && 0 < height && width * height <= usize::MAX
}

/// In a grid of `cols` columns, the place of the pixel in column `x` of row
/// `y` when the rows are laid out one after the other, top row first.
pub open spec fn row_major(cols: nat, x: nat, y: nat) -> nat {
    y * cols + x
}

/// A pixel inside a grid has its place among the grid's cells, and two
/// different pixels of the grid have different places.
pub proof fn row_major_in_range(cols: nat, rows: nat, x: nat, y: nat)
    requires
        x < cols,
        y < rows,
    ensures
        row_major(cols, x, y) < cols * rows,
        row_major(cols, x, y) % cols == x,
        row_major(cols, x, y) / cols == y,
{
    assert(y * cols + x < cols * rows) by (nonlinear_arith)
        requires
            x < cols,
            y < rows,
    ;
    vstd::arithmetic::div_mod::lemma_fundamental_div_mod_converse(
        (y * cols + x) as int,
        cols as int,
        y as int,
        x as int,
    );
}

/// Every cell of a grid is the place of exactly one of its pixels: the one in
/// column `i % cols` of row `i / cols`.
pub proof fn cell_is_a_pixel(cols: nat, rows: nat, i: nat)
    requires
        0 < cols,
        i < cols * rows,
    ensures
        i % cols < cols,
        i / cols < rows,
        row_major(cols, i % cols, i / cols) == i,
{
    vstd::arithmetic::div_mod::lemma_fundamental_div_mod(i as int, cols as int);
    vstd::arithmetic::div_mod::lemma_mod_bound(i as int, cols as int);
    vstd::arithmetic::div_mod::lemma_div_pos_is_pos(i as int, cols as int);
    assert(cols * (i / cols) == (i / cols) * cols) by (nonlinear_arith);
    assert(i / cols < rows) by (nonlinear_arith)
        requires
            0 < cols,
            i < cols * rows,
            (i / cols) * cols <= i,
            0 <= i / cols,
    ;
}

impl Grid {
    /// The number of columns.
    pub closed spec fn cols(self) -> nat {
        self.width as nat
    }

    /// The number of rows.
    pub closed spec fn rows(self) -> nat {
        self.height as nat
    }

    #[verifier::type_invariant]
    pub open spec fn well_formed(self) -> bool {
        valid_dimensions(self.cols(), self.rows())
    }

    /// The number of cells, `cols * rows`.
    pub open spec fn cells(self) -> nat {
        self.cols() * self.rows()
    }

    /// Whether `pixel` lies inside the grid.
    pub open spec fn holds(self, pixel: Pixel) -> bool {
        pixel.x < self.cols() && pixel.y < self.rows()
    }

    /// The place of `pixel` among the cells, in row-major order.
    pub open spec fn place(self, pixel: Pixel) -> nat {
        row_major(self.cols(), pixel.x as nat, pixel.y as nat)
    }

    /// A grid of `width` by `height` pixels, or `None` where a dimension is
    /// zero or the cells cannot be counted in a `usize`.
    pub fn new(width: usize, height: usize) -> (grid: Option<Grid>)
        ensures
            grid.is_some() <==> valid_dimensions(width as nat, height as nat),
            grid.is_some() ==> grid.unwrap().cols() == width && grid.unwrap().rows() == height,
    {
        if width == 0 || height == 0 {
            return None;
        }
        match width.checked_mul(height) {
            Some(_) => Some(Grid { width, height }),
            None => None,
        }
    }

    pub fn width(&self) -> (w: usize)
        ensures
            w == self.cols(),
            w > 0,
    {
        proof {
            use_type_invariant(self);
        }
        self.width
    }

    pub fn height(&self) -> (h: usize)
        ensures
            h == self.rows(),
            h > 0,
    {
        proof {
            use_type_invariant(self);
        }
        self.height
    }

    /// The number of cells of the grid.
    pub fn cell_count(&self) -> (n: usize)
        ensures
            n == self.cells(),
            n > 0,
    {
        proof {
            use_type_invariant(self);
            assert(self.cols() * self.rows() > 0) by (nonlinear_arith)
                requires
                    self.cols() > 0,
                    self.rows() > 0,
            ;
        }
        self.width * self.height
    }

    /// Whether the two grids have the same dimensions.
    pub fn same_as(&self, other: &Grid) -> (same: bool)
        ensures
            same <==> *self == *other,
            same <==> self.cols() == other.cols() && self.rows() == other.rows(),
    {
        self.width == other.width && self.height == other.height
    }

    /// Whether `pixel` lies inside the grid.
    pub fn contains(&self, pixel: Pixel) -> (inside: bool)
        ensures
            inside == self.holds(pixel),
    {
        pixel.x < self.width && pixel.y < self.height
    }

    /// The pixel in column `col` of row `row`, or `None` where that lies
    /// outside the grid. Nothing is clamped or wrapped around.
    pub fn pixel_at(&self, col: usize, row: usize) -> (pixel: Option<Pixel>)
        ensures
            pixel.is_some() <==> col < self.cols() && row < self.rows(),
            pixel.is_some() ==> pixel.unwrap().x == col && pixel.unwrap().y == row,
            pixel.is_some() ==> self.holds(pixel.unwrap()),
    {
        if col < self.width && row < self.height {
            Some(Pixel { x: col, y: row })
        } else {
            None
        }
    }

    /// The row-major place of `pixel` among the cells, or `None` where the
    /// pixel lies outside the grid.
    pub fn index_of(&self, pixel: Pixel) -> (index: Option<usize>)
        ensures
            index.is_some() <==> self.holds(pixel),
            index.is_some() ==> index.unwrap() == self.place(pixel),
            index.is_some() ==> index.unwrap() < self.cells(),
    {
        if pixel.x < self.width && pixel.y < self.height {
            proof {
                use_type_invariant(self);
                row_major_in_range(self.cols(), self.rows(), pixel.x as nat, pixel.y as nat);
                assert(pixel.y * self.width <= pixel.y * self.width + pixel.x);
            }
            Some(pixel.y * self.width + pixel.x)
        } else {
            None
        }
    }
}

} // verus!
