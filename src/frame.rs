//! Rendering a board as an image of LED brightnesses.
use vstd::prelude::*;
use crate::grid::{Grid, HEIGHT, WIDTH};

verus! {

/// Brightness given to a live cell; a dead cell is dark (0).
pub const BRIGHTNESS: u8 = 7;

/// An image for the LED matrix: one brightness per cell, indexed
/// `frame[y][x]`, with the board's dimensions.
pub type Frame = [[u8; WIDTH]; HEIGHT];

/// The brightness that shows a cell.
pub open spec fn shade(alive: bool) -> u8 {
    if alive {
        BRIGHTNESS
    } else {
        0
    }
}

/// Whether `f` shows board `g`: each pixel lit exactly where its cell is
/// alive.
pub open spec fn shows(f: Frame, g: Grid) -> bool {
    forall|y: int, x: int|
        0 <= y < HEIGHT && 0 <= x < WIDTH ==> #[trigger] f[y][x] == shade(g[y][x])
}

/// Renders the board: live cells at `BRIGHTNESS`, dead cells at 0.
pub fn draw_grid(grid: &Grid) -> (r: Frame)
    ensures
        shows(r, *grid),
        forall|y: int, x: int|
            0 <= y < HEIGHT && 0 <= x < WIDTH ==> (#[trigger] r[y][x] != 0) == grid[y][x],
{
    let mut a: Frame = [[0u8; WIDTH]; HEIGHT];
    let mut i: usize = 0;
    while i < HEIGHT
        invariant
            i <= HEIGHT,
            forall|y: int, x: int| 0 <= y < i && 0 <= x < WIDTH ==> #[trigger] a[y][x] == shade(grid[y][x]),
        decreases HEIGHT - i,
    {
        let mut row: [u8; WIDTH] = [0u8; WIDTH];
        let mut j: usize = 0;
        while j < WIDTH
            invariant
                i < HEIGHT,
                j <= WIDTH,
                forall|x: int| 0 <= x < j ==> #[trigger] row[x] == shade(grid[i as int][x]),
            decreases WIDTH - j,
        {
            row[j] = if grid[i][j] { BRIGHTNESS } else { 0 };
            j += 1;
        }
        a[i] = row;
        i += 1;
    }
    a
}

} // verus!
