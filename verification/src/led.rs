//! The grid of lights: square pixels of random colour, laid out row by row.

use crate::geometry::Position;
use rand::rngs::ThreadRng;
use rand::Rng;
use vstd::prelude::*;

verus! {

/// Number of rows of the grid.
pub const GRID_ROWS: usize = 31;

/// Number of pixels in each row of the grid.
pub const GRID_COLUMNS: usize = 51;

/// Side of a pixel, and distance between the corners of neighbouring pixels.
pub const PIXEL_SIZE: i64 = 10;

/// Upper bound, itself never drawn, of each channel of a random colour.
pub const CHANNEL_BOUND: u8 = 255;

/// A colour, by its red, green and blue channels.
#[derive(Clone, Copy, Debug, PartialEq, Eq, Structural)]
pub struct Color {
    pub red: u8,
    pub green: u8,
    pub blue: u8,
}

/// A square of one colour, given by its top-left corner and its side.
#[derive(Clone, Copy, Debug, PartialEq, Eq, Structural)]
pub struct Pixel {
    pub position: Position,
    pub size: i64,
    pub color: Color,
}

/// `rand::rngs::ThreadRng`, the random number generator of the current
/// thread. Nothing is known of its state.
#[verifier::external_type_specification]
#[verifier::external_body]
pub struct ExThreadRng(rand::rngs::ThreadRng);

/// `rand::thread_rng` hands out the generator of the current thread. Nothing
/// is claimed of what it returns; it is taken to return, which it does unless
/// the system has no randomness to seed the generator with.
pub assume_specification[ rand::thread_rng ]() -> (rng: ThreadRng);

/// `rand::Rng::gen_range` on a `ThreadRng`, for bytes. The claim is that of
/// its documentation: the result is some byte from `low` up to, but not
/// including, `high`. Which one is left open, and two calls may differ. The
/// call panics unless `low < high`, which is required here.
#[verifier::external_body]
fn byte_in_range(rng: &mut ThreadRng, low: u8, high: u8) -> (byte: u8)
    requires
        low < high,
    ensures
        low <= byte < high,
{
    rng.gen_range(low, high)
}

impl Color {
    /// No channel of the colour reaches `CHANNEL_BOUND`.
    pub open spec fn below_bound(self) -> bool {
        self.red < CHANNEL_BOUND && self.green < CHANNEL_BOUND && self.blue < CHANNEL_BOUND
    }

    /// The colour with the given channels.
    pub fn new(red: u8, green: u8, blue: u8) -> (color: Color)
        ensures
            color == (Color { red, green, blue }),
    {
        Color { red, green, blue }
    }

    /// Black.
    pub fn default() -> (color: Color)
        ensures
            color == (Color { red: 0, green: 0, blue: 0 }),
    {
        Color { red: 0, blue: 0, green: 0 }
    }

    /// A colour drawn at random, each channel below `CHANNEL_BOUND`.
    pub fn random() -> (color: Color)
        ensures
            color.below_bound(),
    {
        let mut rng = rand::thread_rng();
        Color {
            red: byte_in_range(&mut rng, 0, CHANNEL_BOUND),
            green: byte_in_range(&mut rng, 0, CHANNEL_BOUND),
            blue: byte_in_range(&mut rng, 0, CHANNEL_BOUND),
        }
    }
}

impl Pixel {
    /// The pixel of the given colour and side with its corner at `position`.
    pub fn new(position: Position, color: Color, size: i64) -> (pixel: Pixel)
        ensures
            pixel == (Pixel { position, size, color }),
    {
        Pixel { position, color, size }
    }

    /// The area that the pixel covers.
    pub fn area(&self) -> (area: u128)
        ensures
            area == self.size * self.size,
    {
        let side: u128 = if self.size >= 0 {
            self.size as u128
        } else {
            (-(self.size as i128)) as u128
        };
        assert(side * side == self.size * self.size) by (nonlinear_arith)
            requires
                side == self.size || side == -self.size,
        ;
        assert(side * side <= 0x8000_0000_0000_0000 * 0x8000_0000_0000_0000) by (nonlinear_arith)
            requires
                side <= 0x8000_0000_0000_0000,
        ;
        side * side
    }

    /// Gives the pixel another colour.
    pub fn set_color(&mut self, new_color: Color)
        ensures
            *final(self) == (Pixel { color: new_color, ..*old(self) }),
    {
        self.color = new_color;
    }
}

/// Where the pixel in row `row` and column `column` of the grid has its corner.
pub open spec fn grid_corner(row: int, column: int) -> Position {
    Position { x: (column * PIXEL_SIZE) as i64, y: (row * PIXEL_SIZE) as i64 }
}

/// Whether `pixels` is a frame of the grid: `GRID_ROWS` rows of
/// `GRID_COLUMNS` pixels each, row after row from the top and from left to
/// right within a row, every pixel of side `PIXEL_SIZE` and of a colour whose
/// channels are below `CHANNEL_BOUND`.
pub open spec fn is_grid_frame(pixels: Seq<Pixel>) -> bool {
    &&& pixels.len() == GRID_ROWS * GRID_COLUMNS
    &&& forall|row: int, column: int|
        0 <= row < GRID_ROWS && 0 <= column < GRID_COLUMNS ==> {
            let pixel = #[trigger] pixels[row * GRID_COLUMNS + column];
            &&& pixel.position == grid_corner(row, column)
            &&& pixel.size == PIXEL_SIZE
            &&& pixel.color.below_bound()
        }
}

/// One frame of the grid, with a fresh random colour for every pixel.
pub fn grid_frame() -> (pixels: Vec<Pixel>)
    ensures
        is_grid_frame(pixels@),
{
    let mut pixels: Vec<Pixel> = Vec::new();
    let mut i: usize = 0;
    while i < GRID_ROWS
        invariant
            i <= GRID_ROWS,
            pixels@.len() == i * GRID_COLUMNS,
            forall|row: int, column: int|
                0 <= row < i && 0 <= column < GRID_COLUMNS ==> {
                    let pixel = #[trigger] pixels@[row * GRID_COLUMNS + column];
                    &&& pixel.position == grid_corner(row, column)
                    &&& pixel.size == PIXEL_SIZE
                    &&& pixel.color.below_bound()
                },
        decreases GRID_ROWS - i,
    {
        let mut j: usize = 0;
        while j < GRID_COLUMNS
            invariant
                i < GRID_ROWS,
                j <= GRID_COLUMNS,
                pixels@.len() == i * GRID_COLUMNS + j,
                forall|row: int, column: int|
                    (0 <= row < i && 0 <= column < GRID_COLUMNS) || (row == i && 0 <= column < j)
                        ==> {
                        let pixel = #[trigger] pixels@[row * GRID_COLUMNS + column];
                        &&& pixel.position == grid_corner(row, column)
                        &&& pixel.size == PIXEL_SIZE
                        &&& pixel.color.below_bound()
                    },
            decreases GRID_COLUMNS - j,
        {
            let n_pixel = Pixel::new(
                Position::new(j as i64 * PIXEL_SIZE, i as i64 * PIXEL_SIZE),
                Color::random(),
                PIXEL_SIZE,
            );
            pixels.push(n_pixel);
            j += 1;
        }
        i += 1;
    }
    pixels
}

} // verus!
