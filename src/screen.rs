use vstd::prelude::*;

verus! {

/// Number of bytes in an RGBA image of the display: four per pixel.
pub const RGBA_SIZE: usize = 8192;

/// The RGBA image of a grid of pixel alpha values: every pixel white, its
/// alpha taken from the grid. Byte `k` belongs to row `k / 256`, column
/// `(k % 256) / 4`, and channel `k % 4` (red, green, blue, alpha).
pub open spec fn rgba_of(grid: Seq<[u8; 64]>) -> Seq<u8> {
    Seq::new(
        RGBA_SIZE as nat,
        |k: int| if k % 4 == 3 { grid[k / 256]@[(k % 256) / 4] } else { 0xFFu8 },
    )
}

/// An RGBA pixel buffer for presenting the display.
pub struct Screen {
    buffer: [u8; 8192],
}

impl View for Screen {
    type V = Seq<u8>;

    closed spec fn view(&self) -> Seq<u8> {
        self.buffer@
    }
}

impl Screen {
    /// A buffer with every byte zero.
    pub fn new() -> (r: Screen)
        ensures
            r@ == Seq::new(RGBA_SIZE as nat, |k: int| 0u8),
    {
        let r = Screen { buffer: [0; 8192] };
        assert(r@ =~= Seq::new(RGBA_SIZE as nat, |k: int| 0u8));
        r
    }

    /// Fills the buffer with the RGBA image of `screen_buffer`, whose entries
    /// are alpha values, and returns it.
    pub fn convert_buffer(&mut self, screen_buffer: &[[u8; 64]; 32]) -> (r: &[u8])
        ensures
            final(self)@ == rgba_of(screen_buffer@),
            r@ == rgba_of(screen_buffer@),
    {
        let ghost grid = screen_buffer@;
        let mut y: usize = 0;
        while y < 32
            invariant
                y <= 32,
                grid == screen_buffer@,
                self@.len() == RGBA_SIZE,
                forall|k: int| 0 <= k < 256 * y ==> self@[k] == #[trigger] rgba_of(grid)[k],
            decreases 32 - y,
        {
            let row = screen_buffer[y];
            let mut x: usize = 0;
            while x < 64
                invariant
                    y < 32,
                    x <= 64,
                    row == grid[y as int],
                    grid == screen_buffer@,
                    self@.len() == RGBA_SIZE,
                    forall|k: int| 0 <= k < 256 * y + 4 * x ==> self@[k] == #[trigger] rgba_of(grid)[k],
                decreases 64 - x,
            {
                let offset = (y * 64 + x) * 4;
                let pixel = row[x];
                self.buffer[offset] = 0xFF;
                self.buffer[offset + 1] = 0xFF;
                self.buffer[offset + 2] = 0xFF;
                self.buffer[offset + 3] = pixel;
                proof {
                    assert forall|k: int| 0 <= k < 256 * y + 4 * (x + 1) implies self@[k]
                        == #[trigger] rgba_of(grid)[k] by {
                        if k >= 256 * y + 4 * x {
                            assert(k / 256 == y as int);
                            assert((k % 256) / 4 == x as int);
                        }
                    }
                }
                x = x + 1;
            }
            y = y + 1;
        }
        assert(self@ =~= rgba_of(grid));
        self.buffer.as_slice()
    }
}

} // verus!
