use vstd::arithmetic::div_mod::lemma_add_mod_noop;
use vstd::prelude::*;

verus! {

/// Number of pixel columns.
pub const WIDTH: usize = 64;

/// Number of pixel rows.
pub const HEIGHT: usize = 32;

/// The framebuffer as mathematics: thirty-two rows of sixty-four pixels.
pub type Grid = Seq<Seq<u8>>;

/// The monochrome framebuffer: `data[row][column]` is 1 for a lit pixel and 0
/// for a dark one.
#[derive(Debug)]
pub struct Display {
    pub data: [[u8; 64]; 32],
}

/// The grid with every pixel dark.
pub open spec fn blank() -> Grid {
    Seq::new(32, |r: int| Seq::new(64, |c: int| 0u8))
}

/// `g` has the framebuffer's dimensions.
pub open spec fn well_shaped(g: Grid) -> bool {
    &&& g.len() == 32
    &&& forall|r: int| 0 <= r < 32 ==> (#[trigger] g[r]).len() == 64
}

/// Every pixel of `g` is 0 or 1.
pub open spec fn binary(g: Grid) -> bool {
    forall|r: int, c: int| 0 <= r < 32 && 0 <= c < 64 ==> #[trigger] g[r][c] <= 1
}

/// No pixel of `g` is lit.
pub open spec fn clear(g: Grid) -> bool {
    forall|r: int, c: int| 0 <= r < 32 && 0 <= c < 64 ==> #[trigger] g[r][c] == 0
}

/// The row that row `k` of a sprite drawn at height `y` lands on.
pub open spec fn sprite_row(y: u8, k: int) -> int {
    (y as int + k) % 32
}

/// The column that bit `b` of a sprite row drawn at `x` lands on.
pub open spec fn sprite_col(x: u8, b: int) -> int {
    (x as int + b) % 64
}

/// Bit `b` of a sprite row, counted from the most significant one. There is
/// no bit outside `0..8`.
pub open spec fn sprite_bit(byte: u8, b: int) -> bool {
    0 <= b < 8 && (0x80u8 >> (b as u8)) & byte != 0
}

/// The bit of a sprite row drawn at `x` that falls on column `c`: the `b`
/// with `sprite_col(x, b) == c`.
pub open spec fn bit_over(x: u8, c: int) -> int {
    (c - x as int) % 64
}

/// A sprite row `byte` drawn at `x` flips the pixel in column `c`.
pub open spec fn flips(x: u8, byte: u8, c: int) -> bool {
    sprite_bit(byte, bit_over(x, c))
}

/// A pixel row after the sprite row `byte` was drawn onto it at `x`: each set
/// bit flips the pixel below it, the columns wrapping round.
pub open spec fn draw_row(row: Seq<u8>, x: u8, byte: u8) -> Seq<u8> {
    Seq::new(
        64,
        |c: int|
            if flips(x, byte, c) {
                row[c] ^ 1
            } else {
                row[c]
            },
    )
}

/// Bit `b` of the sprite row `byte`, drawn at `x`, puts out a lit pixel.
pub open spec fn bit_hits(row: Seq<u8>, x: u8, byte: u8, b: int) -> bool {
    sprite_bit(byte, b) && row[sprite_col(x, b)] == 1
}

/// Drawing the sprite row `byte` at `x` puts out some lit pixel of `row`.
pub open spec fn row_collides(row: Seq<u8>, x: u8, byte: u8) -> bool {
    exists|b: int| 0 <= b < 8 && #[trigger] bit_hits(row, x, byte, b)
}

/// The grid after `sprite` was drawn at `(x, y)`: row `k` of the sprite is
/// drawn on row `(y + k) mod 32`, one row after the other.
pub open spec fn draw(g: Grid, x: u8, y: u8, sprite: Seq<u8>) -> Grid
    decreases sprite.len(),
{
    if sprite.len() == 0 {
        g
    } else {
        let before = draw(g, x, y, sprite.drop_last());
        let r = sprite_row(y, sprite.len() - 1);
        before.update(r, draw_row(before[r], x, sprite.last()))
    }
}

/// Drawing `sprite` at `(x, y)` puts out a pixel that was lit when its turn
/// came.
pub open spec fn collides(g: Grid, x: u8, y: u8, sprite: Seq<u8>) -> bool
    decreases sprite.len(),
{
    if sprite.len() == 0 {
        false
    } else {
        let before = draw(g, x, y, sprite.drop_last());
        let r = sprite_row(y, sprite.len() - 1);
        collides(g, x, y, sprite.drop_last()) || row_collides(before[r], x, sprite.last())
    }
}

impl View for Display {
    type V = Grid;

    open spec fn view(&self) -> Grid {
        Seq::new(32, |r: int| self.data@[r]@)
    }
}

impl Display {
    /// A framebuffer with every pixel dark.
    pub fn new() -> (display: Display)
        ensures
            display@ == blank(),
    {
        let display = Display { data: [[0u8; 64]; 32] };
        assert(display@ =~~= blank());
        display
    }

    /// Writes one pixel.
    fn put(&mut self, r: usize, c: usize, value: u8)
        requires
            r < 32,
            c < 64,
        ensures
            final(self)@ == old(self)@.update(
                r as int,
                old(self)@[r as int].update(c as int, value),
            ),
    {
        self.data[r][c] = value;
        assert(self@ =~~= old(self)@.update(
            r as int,
            old(self)@[r as int].update(c as int, value),
        ));
    }

    /// Draws one sprite row on pixel row `r`, and says whether a lit pixel
    /// went out.
    fn draw_sprite_row(&mut self, x: u8, r: usize, byte: u8) -> (collision: bool)
        requires
            r < 32,
        ensures
            final(self)@ == old(self)@.update(r as int, draw_row(old(self)@[r as int], x, byte)),
            collision == row_collides(old(self)@[r as int], x, byte),
    {
        let ghost row = self@[r as int];
        let mut collision = false;
        let mut b: u8 = 0;
        while b < 8
            invariant
                b <= 8,
                r < 32,
                row == old(self)@[r as int],
                row.len() == 64,
                self@.len() == 32,
                forall|q: int| 0 <= q < 32 && q != r ==> self@[q] == old(self)@[q],
                self@[r as int].len() == 64,
                forall|c: int|
                    0 <= c < 64 ==> #[trigger] self@[r as int][c] == (if bit_over(x, c) < b
                        && flips(x, byte, c) {
                        row[c] ^ 1
                    } else {
                        row[c]
                    }),
                collision <==> exists|j: int| 0 <= j < b && #[trigger] bit_hits(row, x, byte, j),
            decreases 8 - b,
        {
            let c = (x as usize + b as usize) % 64;
            assert(bit_over(x, c as int) == b);
            assert forall|c2: int| 0 <= c2 < 64 && c2 != c implies bit_over(x, c2) != b by {}
            if (0x80u8 >> b) & byte != 0 {
                assert(sprite_bit(byte, b as int));
                let lit = self.data[r][c];
                assert(lit == row[c as int]);
                if lit == 1 {
                    assert(bit_hits(row, x, byte, b as int));
                    collision = true;
                }
                self.put(r, c, lit ^ 1);
            }
            b = b + 1;
        }
        assert(self@[r as int] =~= draw_row(row, x, byte));
        assert(self@ =~= old(self)@.update(r as int, draw_row(row, x, byte)));
        collision
    }

    /// Draws `sprite` with its top left corner at `(x, y)`. Each byte is one
    /// row of eight pixels, most significant bit leftmost; a set bit flips the
    /// pixel below it. Rows and columns wrap round the edges. The result says
    /// whether any lit pixel went out.
    pub fn display_sprite(&mut self, x: u8, y: u8, sprite: &[u8]) -> (collision: bool)
        ensures
            final(self)@ == draw(old(self)@, x, y, sprite@),
            collision == collides(old(self)@, x, y, sprite@),
    {
        let mut collision = false;
        let mut k: usize = 0;
        assert(sprite@.subrange(0, 0) =~= Seq::<u8>::empty());
        while k < sprite.len()
            invariant
                k <= sprite.len(),
                self@ == draw(old(self)@, x, y, sprite@.subrange(0, k as int)),
                collision == collides(old(self)@, x, y, sprite@.subrange(0, k as int)),
            decreases sprite.len() - k,
        {
            let r = (y as usize % 32 + k % 32) % 32;
            proof {
                lemma_add_mod_noop(y as int, k as int, 32);
                let drawn = sprite@.subrange(0, k + 1);
                assert(drawn.drop_last() =~= sprite@.subrange(0, k as int));
                assert(drawn.last() == sprite@[k as int]);
                assert(drawn.len() == k + 1);
            }
            let hit = self.draw_sprite_row(x, r, sprite[k]);
            collision = collision || hit;
            k = k + 1;
        }
        assert(sprite@.subrange(0, k as int) =~= sprite@);
        collision
    }

    /// Puts every pixel out.
    pub fn reset(&mut self)
        ensures
            final(self)@ == blank(),
    {
        let mut r: usize = 0;
        while r < 32
            invariant
                r <= 32,
                forall|q: int, c: int| 0 <= q < r && 0 <= c < 64 ==> #[trigger] self@[q][c] == 0,
            decreases 32 - r,
        {
            let mut c: usize = 0;
            while c < 64
                invariant
                    r < 32,
                    c <= 64,
                    forall|q: int, p: int|
                        0 <= q < r && 0 <= p < 64 ==> #[trigger] self@[q][p] == 0,
                    forall|p: int| 0 <= p < c ==> #[trigger] self@[r as int][p] == 0,
                decreases 64 - c,
            {
                self.put(r, c, 0);
                c = c + 1;
            }
            r = r + 1;
        }
        assert(self@ =~~= blank());
    }

    /// Whether every pixel is dark.
    pub fn is_clear(&self) -> (dark: bool)
        ensures
            dark == clear(self@),
    {
        let mut r: usize = 0;
        while r < 32
            invariant
                r <= 32,
                forall|q: int, c: int| 0 <= q < r && 0 <= c < 64 ==> #[trigger] self@[q][c] == 0,
            decreases 32 - r,
        {
            let mut c: usize = 0;
            while c < 64
                invariant
                    r < 32,
                    c <= 64,
                    forall|q: int, p: int|
                        0 <= q < r && 0 <= p < 64 ==> #[trigger] self@[q][p] == 0,
                    forall|p: int| 0 <= p < c ==> #[trigger] self@[r as int][p] == 0,
                decreases 64 - c,
            {
                if self.data[r][c] != 0 {
                    assert(self@[r as int][c as int] != 0);
                    return false;
                }
                c = c + 1;
            }
            r = r + 1;
        }
        true
    }
}

} // verus!
