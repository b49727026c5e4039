use vstd::prelude::*;

verus! {

/// Width of the display in pixels.
pub const WIDTH: usize = 64;

/// Height of the display in pixels.
pub const HEIGHT: usize = 32;

/// Largest number of rows in a sprite (the height field of a draw opcode).
pub const MAX_SPRITE_ROWS: usize = 15;

/// A grid of `HEIGHT` rows of `WIDTH` pixels each.
pub open spec fn is_grid(g: Seq<Seq<bool>>) -> bool {
    &&& g.len() == HEIGHT
    &&& forall|y: int| 0 <= y < HEIGHT ==> (#[trigger] g[y]).len() == WIDTH
}

/// The grid with every pixel dark.
pub open spec fn blank() -> Seq<Seq<bool>> {
    Seq::new(HEIGHT as nat, |y: int| Seq::new(WIDTH as nat, |x: int| false))
}

/// Whether column `col` (0 = leftmost, 7 = rightmost) of a sprite row is set.
pub open spec fn sprite_bit(row: u8, col: int) -> bool {
    row & (0x80u8 >> (col as u8)) != 0
}

/// Whether the sprite drawn with its top-left corner at `(vx, vy)` covers
/// pixel `(x, y)` with a set bit, coordinates wrapping around the edges.
pub open spec fn covered(sprite: Seq<u8>, vx: int, vy: int, x: int, y: int) -> bool {
    let dx = (x - vx) % (WIDTH as int);
    let dy = (y - vy) % (HEIGHT as int);
    dx < 8 && dy < sprite.len() && sprite_bit(sprite[dy], dx)
}

/// The grid after drawing a sprite: every covered pixel is toggled.
pub open spec fn drawn(g: Seq<Seq<bool>>, sprite: Seq<u8>, vx: int, vy: int) -> Seq<Seq<bool>> {
    Seq::new(
        HEIGHT as nat,
        |y: int| Seq::new(WIDTH as nat, |x: int| g[y][x] != covered(sprite, vx, vy, x, y)),
    )
}

/// Whether drawing the sprite turns off a lit pixel.
pub open spec fn collides(g: Seq<Seq<bool>>, sprite: Seq<u8>, vx: int, vy: int) -> bool {
    exists|x: int, y: int|
        0 <= x < WIDTH && 0 <= y < HEIGHT && g[y][x] && #[trigger] covered(sprite, vx, vy, x, y)
}

/// `covered`, restricted to the sprite bits before row `r`, column `c`.
spec fn covered_before(sprite: Seq<u8>, vx: int, vy: int, x: int, y: int, r: int, c: int) -> bool {
    let dx = (x - vx) % (WIDTH as int);
    let dy = (y - vy) % (HEIGHT as int);
    covered(sprite, vx, vy, x, y) && (dy < r || (dy == r && dx < c))
}

spec fn drawn_before(g: Seq<Seq<bool>>, sprite: Seq<u8>, vx: int, vy: int, r: int, c: int) -> Seq<
    Seq<bool>,
> {
    Seq::new(
        HEIGHT as nat,
        |y: int|
            Seq::new(
                WIDTH as nat,
                |x: int| g[y][x] != covered_before(sprite, vx, vy, x, y, r, c),
            ),
    )
}

spec fn collides_before(g: Seq<Seq<bool>>, sprite: Seq<u8>, vx: int, vy: int, r: int, c: int) -> bool {
    exists|x: int, y: int|
        0 <= x < WIDTH && 0 <= y < HEIGHT && g[y][x] && #[trigger] covered_before(
            sprite,
            vx,
            vy,
            x,
            y,
            r,
            c,
        )
}

/// Drawing the same sprite at the same place twice gives back the grid drawn
/// on, and the second draw collides exactly when the first one lit a pixel.
pub proof fn lemma_draw_twice(g: Seq<Seq<bool>>, sprite: Seq<u8>, vx: int, vy: int)
    requires
        is_grid(g),
    ensures
        drawn(drawn(g, sprite, vx, vy), sprite, vx, vy) == g,
        collides(drawn(g, sprite, vx, vy), sprite, vx, vy) <==> exists|x: int, y: int|
            0 <= x < WIDTH && 0 <= y < HEIGHT && !g[y][x] && #[trigger] drawn(g, sprite, vx, vy)[y][x],
{
    let once = drawn(g, sprite, vx, vy);
    assert(drawn(once, sprite, vx, vy) =~~= g);
    if collides(once, sprite, vx, vy) {
        let (x, y) = choose|x: int, y: int|
            0 <= x < WIDTH && 0 <= y < HEIGHT && once[y][x] && #[trigger] covered(sprite, vx, vy, x, y);
        assert(!g[y][x] && once[y][x]);
    }
    if exists|x: int, y: int|
        0 <= x < WIDTH && 0 <= y < HEIGHT && !g[y][x] && #[trigger] drawn(g, sprite, vx, vy)[y][x] {
        let (x, y) = choose|x: int, y: int|
            0 <= x < WIDTH && 0 <= y < HEIGHT && !g[y][x] && #[trigger] drawn(g, sprite, vx, vy)[y][x];
        assert(covered(sprite, vx, vy, x, y));
    }
}

proof fn lemma_wrap_64(v: int, d: int, p: int)
    requires
        0 <= v,
        0 <= d < 64,
        0 <= p < 64,
    ensures
        (p == (v + d) % 64) <==> ((p - v) % 64 == d),
{
}

proof fn lemma_wrap_32(v: int, d: int, p: int)
    requires
        0 <= v,
        0 <= d < 32,
        0 <= p < 32,
    ensures
        (p == (v + d) % 32) <==> ((p - v) % 32 == d),
{
}

/// The monochrome display: `HEIGHT` rows of `WIDTH` pixels, true where lit.
pub struct FrameBuffer {
    rows: [[bool; 64]; 32],
}

impl View for FrameBuffer {
    type V = Seq<Seq<bool>>;

    closed spec fn view(&self) -> Seq<Seq<bool>> {
        Seq::new(HEIGHT as nat, |y: int| self.rows[y]@)
    }
}

impl FrameBuffer {
    /// The view is always a full grid.
    pub proof fn lemma_grid(&self)
        ensures
            is_grid(self@),
    {
    }

    /// A display with every pixel dark.
    pub fn new() -> (r: FrameBuffer)
        ensures
            r@ == blank(),
    {
        let r = FrameBuffer { rows: [[false; 64]; 32] };
        assert(r@ =~~= blank());
        r
    }

    /// Turns every pixel off.
    pub fn clear(&mut self)
        ensures
            final(self)@ == blank(),
    {
        let mut y: usize = 0;
        while y < HEIGHT
            invariant
                y <= HEIGHT,
                forall|k: int| 0 <= k < y ==> self@[k] == blank()[k],
            decreases HEIGHT - y,
        {
            self.rows[y] = [false; 64];
            assert(self@[y as int] =~= blank()[y as int]);
            y = y + 1;
        }
        assert(self@ =~~= blank());
    }

    /// Whether pixel `(x, y)` is lit.
    pub fn pixel(&self, x: usize, y: usize) -> (r: bool)
        requires
            x < WIDTH,
            y < HEIGHT,
        ensures
            r == self@[y as int][x as int],
    {
        self.rows[y][x]
    }

    /// Read-only access to the rows of the display.
    pub fn snapshot(&self) -> (r: &[[bool; 64]; 32])
        ensures
            forall|y: int, x: int|
                0 <= y < HEIGHT && 0 <= x < WIDTH ==> r@[y]@[x] == self@[y][x],
    {
        &self.rows
    }

    /// Flips pixel `(x, y)` and returns whether it was lit before.
    pub fn toggle_pixel(&mut self, x: usize, y: usize) -> (was_lit: bool)
        requires
            x < WIDTH,
            y < HEIGHT,
        ensures
            was_lit == old(self)@[y as int][x as int],
            final(self)@ == old(self)@.update(
                y as int,
                old(self)@[y as int].update(x as int, !old(self)@[y as int][x as int]),
            ),
    {
        let mut row = self.rows[y];
        let was_lit = row[x];
        row[x] = !was_lit;
        self.rows[y] = row;
        assert(self@ =~~= old(self)@.update(
            y as int,
            old(self)@[y as int].update(x as int, !old(self)@[y as int][x as int]),
        ));
        was_lit
    }

    /// XORs a sprite onto the display with its top-left corner at `(vx, vy)`,
    /// wrapping around the edges. Returns whether a lit pixel was turned off.
    pub fn draw_sprite(&mut self, sprite: &[u8], vx: u8, vy: u8) -> (collided: bool)
        requires
            sprite@.len() <= MAX_SPRITE_ROWS,
        ensures
            final(self)@ == drawn(old(self)@, sprite@, vx as int, vy as int),
            collided == collides(old(self)@, sprite@, vx as int, vy as int),
    {
        let ghost g = self@;
        let ghost s = sprite@;
        let n = sprite.len();
        let mut collided = false;
        let mut r: usize = 0;
        assert(self@ =~~= drawn_before(g, s, vx as int, vy as int, 0, 0));
        while r < n
            invariant
                n == s.len() <= MAX_SPRITE_ROWS,
                s == sprite@,
                r <= n,
                is_grid(g),
                self@ == drawn_before(g, s, vx as int, vy as int, r as int, 0),
                collided == collides_before(g, s, vx as int, vy as int, r as int, 0),
            decreases n - r,
        {
            let bits = sprite[r];
            let ty = (vy as usize + r) % HEIGHT;
            let mut c: usize = 0;
            while c < 8
                invariant
                    n == s.len() <= MAX_SPRITE_ROWS,
                    s == sprite@,
                    r < n,
                    bits == s[r as int],
                    ty == (vy as int + r) % 32,
                    c <= 8,
                    is_grid(g),
                    self@ == drawn_before(g, s, vx as int, vy as int, r as int, c as int),
                    collided == collides_before(g, s, vx as int, vy as int, r as int, c as int),
                decreases 8 - c,
            {
                let tx = (vx as usize + c) % WIDTH;
                let ghost before = self@;
                proof {
                    assert forall|x: int, y: int| 0 <= x < WIDTH && 0 <= y < HEIGHT implies
                        #[trigger] covered_before(s, vx as int, vy as int, x, y, r as int, c as int + 1)
                        == (covered_before(s, vx as int, vy as int, x, y, r as int, c as int) || (
                        x == tx && y == ty && sprite_bit(bits, c as int))) by {
                        lemma_wrap_64(vx as int, c as int, x);
                        lemma_wrap_32(vy as int, r as int, y);
                    }
                }
                if bits & (0x80u8 >> (c as u8)) != 0 {
                    let was_lit = self.toggle_pixel(tx, ty);
                    proof {
                        lemma_wrap_64(vx as int, c as int, tx as int);
                        lemma_wrap_32(vy as int, r as int, ty as int);
                        assert(!covered_before(s, vx as int, vy as int, tx as int, ty as int, r as int, c as int));
                        assert(was_lit == g[ty as int][tx as int]);
                    }
                    collided = collided || was_lit;
                }
                assert(self@ =~~= drawn_before(g, s, vx as int, vy as int, r as int, c as int + 1));
                assert(collided == collides_before(g, s, vx as int, vy as int, r as int, c as int + 1)) by {
                    if collided {
                        if collides_before(g, s, vx as int, vy as int, r as int, c as int) {
                            let (x, y) = choose|x: int, y: int|
                                0 <= x < WIDTH && 0 <= y < HEIGHT && g[y][x] && #[trigger] covered_before(
                                    s, vx as int, vy as int, x, y, r as int, c as int);
                            assert(covered_before(s, vx as int, vy as int, x, y, r as int, c as int + 1));
                        } else {
                            assert(covered_before(s, vx as int, vy as int, tx as int, ty as int, r as int, c as int + 1));
                        }
                    }
                }
                c = c + 1;
            }
            proof {
                assert forall|x: int, y: int| 0 <= x < WIDTH && 0 <= y < HEIGHT implies
                    #[trigger] covered_before(s, vx as int, vy as int, x, y, r as int + 1, 0)
                    == covered_before(s, vx as int, vy as int, x, y, r as int, 8) by {}
            }
            assert(self@ =~~= drawn_before(g, s, vx as int, vy as int, r as int + 1, 0));
            assert(collided == collides_before(g, s, vx as int, vy as int, r as int + 1, 0)) by {
                if collided {
                    let (x, y) = choose|x: int, y: int|
                        0 <= x < WIDTH && 0 <= y < HEIGHT && g[y][x] && #[trigger] covered_before(
                            s, vx as int, vy as int, x, y, r as int, 8);
                    assert(covered_before(s, vx as int, vy as int, x, y, r as int + 1, 0));
                }
            }
            r = r + 1;
        }
        proof {
            assert forall|x: int, y: int| 0 <= x < WIDTH && 0 <= y < HEIGHT implies
                #[trigger] covered_before(s, vx as int, vy as int, x, y, n as int, 0)
                == covered(s, vx as int, vy as int, x, y) by {}
        }
        assert(self@ =~~= drawn(g, s, vx as int, vy as int));
        assert(collided == collides(g, s, vx as int, vy as int)) by {
            if collided {
                let (x, y) = choose|x: int, y: int|
                    0 <= x < WIDTH && 0 <= y < HEIGHT && g[y][x] && #[trigger] covered_before(
                        s, vx as int, vy as int, x, y, n as int, 0);
                assert(covered(s, vx as int, vy as int, x, y));
            } else {
                if collides(g, s, vx as int, vy as int) {
                    let (x, y) = choose|x: int, y: int|
                        0 <= x < WIDTH && 0 <= y < HEIGHT && g[y][x] && #[trigger] covered(
                            s, vx as int, vy as int, x, y);
                    assert(covered_before(s, vx as int, vy as int, x, y, n as int, 0));
                }
            }
        }
        collided
    }
}

} // verus!
