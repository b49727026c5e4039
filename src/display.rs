use vstd::prelude::*;

use crate::framebuffer::{HEIGHT, WIDTH};

verus! {

/// Side of one display pixel in the host window, in window pixels.
pub const SCALE_FACTOR: u32 = 10;

/// Size of the host window: the display scaled up by `SCALE_FACTOR`.
pub fn window_size() -> (r: (u32, u32))
    ensures
        r == ((WIDTH * SCALE_FACTOR) as u32, (HEIGHT * SCALE_FACTOR) as u32),
{
    (WIDTH as u32 * SCALE_FACTOR, HEIGHT as u32 * SCALE_FACTOR)
}

/// The window rectangle that shows display pixel `(x, y)`: left edge, top
/// edge, width and height.
pub fn cell_rect(x: u32, y: u32) -> (r: (i32, i32, u32, u32))
    requires
        x < WIDTH,
        y < HEIGHT,
    ensures
        r == ((x * SCALE_FACTOR) as i32, (y * SCALE_FACTOR) as i32, SCALE_FACTOR, SCALE_FACTOR),
{
    ((x * SCALE_FACTOR) as i32, (y * SCALE_FACTOR) as i32, SCALE_FACTOR, SCALE_FACTOR)
}

/// The colour, as red, green and blue, of a pixel: white where lit, black
/// elsewhere.
pub fn cell_color(lit: bool) -> (r: (u8, u8, u8))
    ensures
        r == (if lit { (255u8, 255u8, 255u8) } else { (0u8, 0u8, 0u8) }),
{
    if lit {
        (255, 255, 255)
    } else {
        (0, 0, 0)
    }
}

} // verus!
