//! Colour pictures: three intensity grids, one each for red, green and blue,
//! put together pixel by pixel on a raster of the `image` crate.

use vstd::prelude::*;
use crate::grid::{row_major_in_range, Grid, Pixel};
use crate::normalize::Intensity;

verus! {

/// An 8-bit RGB raster of the `image` crate (`image::RgbImage`). The verifier
/// sees nothing of it: what is said of a raster below is said of
/// `canvas_rows`, and is taken on trust from the crate's source.
#[verifier::external_body]
pub struct Canvas {
    raster: image::RgbImage,
}

/// The pixels of a raster as rows from top to bottom, each row the
/// `(red, green, blue)` triples of its pixels from left to right.
pub uninterp spec fn canvas_rows(canvas: Canvas) -> Seq<Seq<(u8, u8, u8)>>;

/// Calls `image::ImageBuffer::new`. Taken on trust: the raster has `height`
/// rows of `width` pixels each, all of them black.
///
/// The call works out the length of its sample buffer in two steps: three
/// times the width, then that times the height. It panics where either
/// product does not fit in a `usize`, the first one whatever the height is,
/// and where the buffer would be larger than a vector can be. The
/// precondition leaves out each of these.
#[verifier::external_body]
fn blank_canvas(width: u32, height: u32) -> (canvas: Canvas)
    requires
        3 * width <= usize::MAX,
        3 * width * height <= isize::MAX,
    ensures
        canvas_rows(canvas) == Seq::new(
            height as nat,
            |y: int| Seq::new(width as nat, |x: int| (0u8, 0u8, 0u8)),
        ),
{
    Canvas { raster: image::ImageBuffer::new(width, height) }
}

/// Calls `image::ImageBuffer::put_pixel`. Taken on trust: the pixel in column
/// `x` of row `y` becomes `(red, green, blue)`, and every other pixel and the
/// dimensions stay as they are. The call panics on a position outside the
/// raster; the precondition leaves those out.
#[verifier::external_body]
fn paint(canvas: &mut Canvas, x: u32, y: u32, red: u8, green: u8, blue: u8)
    requires
        y < canvas_rows(*old(canvas)).len(),
        x < canvas_rows(*old(canvas))[y as int].len(),
    ensures
        canvas_rows(*final(canvas)) == canvas_rows(*old(canvas)).update(
            y as int,
            canvas_rows(*old(canvas))[y as int].update(x as int, (red, green, blue)),
        ),
{
    canvas.raster.put_pixel(x, y, image::Rgb([red, green, blue]));
}

/// Calls `image::ImageBuffer::get_pixel`. Taken on trust: the result is the
/// pixel in column `x` of row `y`. The call panics on a position outside the
/// raster; the precondition leaves those out.
#[verifier::external_body]
fn colour_at(canvas: &Canvas, x: u32, y: u32) -> (rgb: (u8, u8, u8))
    requires
        y < canvas_rows(*canvas).len(),
        x < canvas_rows(*canvas)[y as int].len(),
    ensures
        rgb == canvas_rows(*canvas)[y as int][x as int],
{
    let pixel = canvas.raster.get_pixel(x, y);
    (pixel.0[0], pixel.0[1], pixel.0[2])
}

/// Whether a raster over `grid` can be made: both dimensions fit in 32 bits
/// and the three samples of every pixel fit in one buffer.
pub open spec fn fits_raster(grid: Grid) -> bool {
    &&& grid.cols() <= u32::MAX
    &&& grid.rows() <= u32::MAX
    &&& 3 * grid.cells() <= isize::MAX
}

/// Whether the three grids of intensities cover the same grid.
pub open spec fn same_grids(red: &Intensity, green: &Intensity, blue: &Intensity) -> bool {
    red.spec_grid() == green.spec_grid() && red.spec_grid() == blue.spec_grid()
}

/// The rows of the picture whose red, green and blue samples are the three
/// row-major tables given, `cols` pixels to a row.
pub open spec fn composed_rows(
    red: Seq<u8>,
    green: Seq<u8>,
    blue: Seq<u8>,
    cols: nat,
    rows: nat,
) -> Seq<Seq<(u8, u8, u8)>> {
    Seq::new(
        rows,
        |y: int|
            Seq::new(cols, |x: int| (red[y * cols + x], green[y * cols + x], blue[y * cols + x])),
    )
}

/// The sample at place `i` of the interleaved samples of `rows`: pixels in
/// row-major order, `cols` to a row, each as red, green, blue.
pub open spec fn interleaved_sample(rows: Seq<Seq<(u8, u8, u8)>>, cols: nat, i: int) -> u8 {
    let pixel = rows[(i / 3) / (cols as int)][(i / 3) % (cols as int)];
    if i % 3 == 0 {
        pixel.0
    } else if i % 3 == 1 {
        pixel.1
    } else {
        pixel.2
    }
}

/// The interleaved samples of a picture of `cols` pixels to a row.
pub open spec fn interleaved(rows: Seq<Seq<(u8, u8, u8)>>, cols: nat) -> Seq<u8> {
    Seq::new(3 * rows.len() * cols, |i: int| interleaved_sample(rows, cols, i))
}

/// Why three intensity grids could not be put together.
#[derive(Clone, Copy, Debug, PartialEq, Eq, Structural)]
pub enum ComposeError {
    /// The three grids do not have the same dimensions.
    GridsDiffer,
    /// The grid is larger than a raster can be.
    TooLarge,
}

/// A colour picture over a grid.
pub struct Picture {
    grid: Grid,
    canvas: Canvas,
}

impl View for Picture {
    type V = Seq<Seq<(u8, u8, u8)>>;

    /// The rows of the picture from top to bottom, each the
    /// `(red, green, blue)` triples of its pixels from left to right.
    closed spec fn view(&self) -> Seq<Seq<(u8, u8, u8)>> {
        canvas_rows(self.canvas)
    }
}

impl Picture {
    /// The grid that the picture covers.
    pub closed spec fn spec_grid(&self) -> Grid {
        self.grid
    }

    #[verifier::type_invariant]
    pub open spec fn well_formed(self) -> bool {
        &&& self.spec_grid().well_formed()
        &&& fits_raster(self.spec_grid())
        &&& self@.len() == self.spec_grid().rows()
        &&& forall|y: int|
            0 <= y < self@.len() ==> (#[trigger] self@[y]).len() == self.spec_grid().cols()
    }

    /// Whether a picture over `grid` can be made.
    pub fn fits(grid: &Grid) -> (fits: bool)
        ensures
            fits == fits_raster(*grid),
    {
        let cells: usize = grid.cell_count();
        grid.width() <= u32::MAX as usize && grid.height() <= u32::MAX as usize && cells <= (
        isize::MAX as usize) / 3
    }

    /// The picture whose pixel at each place has the intensity of `red`, of
    /// `green` and of `blue` at that place as its three samples.
    pub fn compose(red: &Intensity, green: &Intensity, blue: &Intensity) -> (picture: Result<
        Picture,
        ComposeError,
    >)
        ensures
            picture.is_ok() <==> same_grids(red, green, blue) && fits_raster(red.spec_grid()),
            !same_grids(red, green, blue) ==> picture == Err::<Picture, ComposeError>(
                ComposeError::GridsDiffer,
            ),
            same_grids(red, green, blue) && !fits_raster(red.spec_grid()) ==> picture == Err::<
                Picture,
                ComposeError,
            >(ComposeError::TooLarge),
            picture.is_ok() ==> picture.unwrap().spec_grid() == red.spec_grid(),
            picture.is_ok() ==> picture.unwrap()@ == composed_rows(
                red@,
                green@,
                blue@,
                red.spec_grid().cols(),
                red.spec_grid().rows(),
            ),
    {
        let grid = red.grid();
        if !grid.same_as(&green.grid()) || !grid.same_as(&blue.grid()) {
            return Err(ComposeError::GridsDiffer);
        }
        proof {
            use_type_invariant(&grid);
        }
        if !Picture::fits(&grid) {
            return Err(ComposeError::TooLarge);
        }
        let cols: usize = grid.width();
        let rows: usize = grid.height();
        let reds = red.levels();
        let greens = green.levels();
        let blues = blue.levels();
        assert(3 * (cols as u32) * (rows as u32) == 3 * grid.cells()) by (nonlinear_arith)
            requires
                cols <= u32::MAX,
                rows <= u32::MAX,
                grid.cells() == cols * rows,
        ;
        assert(3 * (cols as u32) <= 3 * grid.cells()) by (nonlinear_arith)
            requires
                cols <= u32::MAX,
                rows >= 1,
                grid.cells() == cols * rows,
        ;
        let mut canvas = blank_canvas(cols as u32, rows as u32);
        let mut y: usize = 0;
        while y < rows
            invariant
                y <= rows,
                cols == grid.cols(),
                rows == grid.rows(),
                grid.well_formed(),
                cols <= u32::MAX,
                rows <= u32::MAX,
                reds@.len() == grid.cells(),
                greens@.len() == grid.cells(),
                blues@.len() == grid.cells(),
                canvas_rows(canvas).len() == rows,
                forall|r: int| 0 <= r < rows ==> (#[trigger] canvas_rows(canvas)[r]).len() == cols,
                forall|r: int, c: int|
                    0 <= r < y && 0 <= c < cols ==> #[trigger] canvas_rows(canvas)[r][c] == (
                        reds@[r * cols + c],
                        greens@[r * cols + c],
                        blues@[r * cols + c],
                    ),
            decreases rows - y,
        {
            let mut x: usize = 0;
            while x < cols
                invariant
                    x <= cols,
                    y < rows,
                    cols == grid.cols(),
                    rows == grid.rows(),
                    grid.well_formed(),
                    cols <= u32::MAX,
                    rows <= u32::MAX,
                    reds@.len() == grid.cells(),
                    greens@.len() == grid.cells(),
                    blues@.len() == grid.cells(),
                    canvas_rows(canvas).len() == rows,
                    forall|r: int|
                        0 <= r < rows ==> (#[trigger] canvas_rows(canvas)[r]).len() == cols,
                    forall|r: int, c: int|
                        0 <= r < y && 0 <= c < cols ==> #[trigger] canvas_rows(canvas)[r][c] == (
                            reds@[r * cols + c],
                            greens@[r * cols + c],
                            blues@[r * cols + c],
                        ),
                    forall|c: int|
                        0 <= c < x ==> #[trigger] canvas_rows(canvas)[y as int][c] == (
                            reds@[y * cols + c],
                            greens@[y * cols + c],
                            blues@[y * cols + c],
                        ),
                decreases cols - x,
            {
                proof {
                    row_major_in_range(cols as nat, rows as nat, x as nat, y as nat);
                    assert(y * cols <= y * cols + x);
                }
                let place: usize = y * cols + x;
                paint(&mut canvas, x as u32, y as u32, reds[place], greens[place], blues[place]);
                x = x + 1;
            }
            y = y + 1;
        }
        proof {
            assert(canvas_rows(canvas) =~~= composed_rows(
                reds@,
                greens@,
                blues@,
                grid.cols(),
                grid.rows(),
            ));
        }
        Ok(Picture { grid, canvas })
    }

    /// The grid that the picture covers.
    #[verifier::when_used_as_spec(spec_grid)]
    pub fn grid(&self) -> (grid: Grid)
        ensures
            grid == self.spec_grid(),
    {
        self.grid
    }

    /// The number of pixels in a row.
    pub fn width(&self) -> (width: u32)
        ensures
            width == self.spec_grid().cols(),
    {
        proof {
            use_type_invariant(self);
        }
        self.grid.width() as u32
    }

    /// The number of rows.
    pub fn height(&self) -> (height: u32)
        ensures
            height == self.spec_grid().rows(),
    {
        proof {
            use_type_invariant(self);
        }
        self.grid.height() as u32
    }

    /// The `(red, green, blue)` samples at `pixel`, or `None` outside the grid.
    pub fn pixel(&self, pixel: Pixel) -> (rgb: Option<(u8, u8, u8)>)
        ensures
            rgb.is_some() == self.spec_grid().holds(pixel),
            rgb.is_some() ==> rgb.unwrap() == self@[pixel.y as int][pixel.x as int],
    {
        proof {
            use_type_invariant(self);
        }
        if self.grid.contains(pixel) {
            Some(colour_at(&self.canvas, pixel.x as u32, pixel.y as u32))
        } else {
            None
        }
    }

    /// The samples of the picture as one buffer: pixels in row-major order,
    /// each as its red, green and blue sample.
    pub fn to_rgb8(&self) -> (samples: Vec<u8>)
        ensures
            samples@ == interleaved(self@, self.spec_grid().cols()),
            samples@.len() == 3 * self.spec_grid().cells(),
    {
        proof {
            use_type_invariant(self);
            use_type_invariant(&self.grid);
        }
        let cols: usize = self.grid.width();
        let rows: usize = self.grid.height();
        let mut samples: Vec<u8> = Vec::new();
        let mut y: usize = 0;
        while y < rows
            invariant
                y <= rows,
                cols == self.grid.cols(),
                rows == self.grid.rows(),
                self.grid.well_formed(),
                self.well_formed(),
                samples@.len() == 3 * (y * cols),
                forall|i: int|
                    0 <= i < samples@.len() ==> #[trigger] samples@[i] == interleaved_sample(
                        self@,
                        cols as nat,
                        i,
                    ),
            decreases rows - y,
        {
            let mut x: usize = 0;
            while x < cols
                invariant
                    x <= cols,
                    y < rows,
                    cols == self.grid.cols(),
                    rows == self.grid.rows(),
                    self.grid.well_formed(),
                    self.well_formed(),
                    samples@.len() == 3 * (y * cols + x),
                    forall|i: int|
                        0 <= i < samples@.len() ==> #[trigger] samples@[i] == interleaved_sample(
                            self@,
                            cols as nat,
                            i,
                        ),
                decreases cols - x,
            {
                let rgb = colour_at(&self.canvas, x as u32, y as u32);
                proof {
                    row_major_in_range(cols as nat, rows as nat, x as nat, y as nat);
                }
                samples.push(rgb.0);
                samples.push(rgb.1);
                samples.push(rgb.2);
                x = x + 1;
            }
            proof {
                assert(3 * (y * cols + cols) == 3 * ((y + 1) * cols)) by (nonlinear_arith);
            }
            y = y + 1;
        }
        proof {
            assert(3 * (rows * cols) == 3 * self@.len() * cols) by (nonlinear_arith)
                requires
                    self@.len() == rows,
            ;
            assert(rows * cols == self.grid.cells()) by (nonlinear_arith)
                requires
                    self.grid.cells() == cols * rows,
            ;
            assert(samples@ =~= interleaved(self@, cols as nat));
        }
        samples
    }
}

} // verus!
