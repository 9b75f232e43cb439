use crate::display::{
    binary, bit_hits, bit_over, blank, clear, collides, draw, flips, sprite_bit, sprite_col,
    sprite_row, well_shaped, Grid,
};
use crate::operation::{operation_of, Operation};
use crate::semantics::step;
use crate::state::{consistent, power_on, Machine};
use vstd::prelude::*;

verus! {

/// The row of a sprite that falls on pixel row `r` when the sprite is drawn
/// at height `y`: the `k` below 32 with `sprite_row(y, k) == r`.
pub open spec fn row_under(y: u8, r: int) -> int {
    (r - y as int) % 32
}

/// A sprite of at most thirty-two rows, drawn at `(x, y)`, flips the pixel
/// at row `r` and column `c`.
pub open spec fn covers(x: u8, y: u8, sprite: Seq<u8>, r: int, c: int) -> bool {
    row_under(y, r) < sprite.len() && flips(x, sprite[row_under(y, r)], c)
}

/// Wherever a sprite is drawn, the pixels it touches lie on the grid: the
/// row of each sprite row is in `0..32` and the column of each bit in
/// `0..64`, whatever `x` and `y` are.
pub proof fn lemma_sprite_lands_on_grid(x: u8, y: u8, k: int, b: int)
    requires
        0 <= k,
        0 <= b,
    ensures
        0 <= sprite_row(y, k) < 32,
        0 <= sprite_col(x, b) < 64,
{
}

/// Bit `b` of a sprite row is the one that falls on column
/// `sprite_col(x, b)`, and row `k` of a sprite of at most thirty-two rows the
/// one that falls on row `sprite_row(y, k)`.
pub proof fn lemma_sprite_cells_distinct(x: u8, y: u8, k: int, b: int)
    requires
        0 <= k < 32,
        0 <= b < 64,
    ensures
        bit_over(x, sprite_col(x, b)) == b,
        row_under(y, sprite_row(y, k)) == k,
{
}

/// Drawing keeps the dimensions of the grid.
pub proof fn lemma_draw_keeps_shape(g: Grid, x: u8, y: u8, sprite: Seq<u8>)
    requires
        well_shaped(g),
    ensures
        well_shaped(draw(g, x, y, sprite)),
    decreases sprite.len(),
{
    if sprite.len() > 0 {
        lemma_draw_keeps_shape(g, x, y, sprite.drop_last());
    }
}

/// Drawing on a grid of zeros and ones leaves a grid of zeros and ones.
pub proof fn lemma_draw_keeps_binary(g: Grid, x: u8, y: u8, sprite: Seq<u8>)
    requires
        well_shaped(g),
        binary(g),
    ensures
        binary(draw(g, x, y, sprite)),
    decreases sprite.len(),
{
    if sprite.len() > 0 {
        let before = draw(g, x, y, sprite.drop_last());
        lemma_draw_keeps_binary(g, x, y, sprite.drop_last());
        lemma_draw_keeps_shape(g, x, y, sprite.drop_last());
        let r0 = sprite_row(y, sprite.len() - 1);
        let after = draw(g, x, y, sprite);
        assert forall|r: int, c: int| 0 <= r < 32 && 0 <= c < 64 implies #[trigger] after[r][c]
            <= 1 by {
            let p = before[r][c];
            assert(p <= 1);
            assert(p <= 1 ==> p ^ 1 <= 1) by (bit_vector);
        }
    }
}

/// What drawing does to each pixel depends on the sprite and the place
/// alone: it is the pixel XOR what the same drawing leaves on a dark grid.
pub proof fn lemma_draw_is_xor(g: Grid, x: u8, y: u8, sprite: Seq<u8>)
    requires
        well_shaped(g),
    ensures
        forall|r: int, c: int|
            0 <= r < 32 && 0 <= c < 64 ==> #[trigger] draw(g, x, y, sprite)[r][c] == g[r][c] ^ draw(
                blank(),
                x,
                y,
                sprite,
            )[r][c],
    decreases sprite.len(),
{
    let on_g = draw(g, x, y, sprite);
    let on_dark = draw(blank(), x, y, sprite);
    if sprite.len() == 0 {
        assert forall|r: int, c: int| 0 <= r < 32 && 0 <= c < 64 implies #[trigger] on_g[r][c]
            == g[r][c] ^ on_dark[r][c] by {
            let p = g[r][c];
            assert(p ^ 0 == p) by (bit_vector);
        }
    } else {
        let rest = sprite.drop_last();
        lemma_draw_is_xor(g, x, y, rest);
        lemma_draw_keeps_shape(g, x, y, rest);
        lemma_draw_keeps_shape(blank(), x, y, rest);
        let g1 = draw(g, x, y, rest);
        let d1 = draw(blank(), x, y, rest);
        assert forall|r: int, c: int| 0 <= r < 32 && 0 <= c < 64 implies #[trigger] on_g[r][c]
            == g[r][c] ^ on_dark[r][c] by {
            let p = g[r][c];
            let q = d1[r][c];
            assert(g1[r][c] == p ^ q);
            assert((p ^ q) ^ 1 == p ^ (q ^ 1)) by (bit_vector);
        }
    }
}

/// Drawing the same sprite at the same place twice restores the grid.
pub proof fn lemma_draw_twice_restores(g: Grid, x: u8, y: u8, sprite: Seq<u8>)
    requires
        well_shaped(g),
    ensures
        draw(draw(g, x, y, sprite), x, y, sprite) == g,
{
    let once = draw(g, x, y, sprite);
    let twice = draw(once, x, y, sprite);
    let on_dark = draw(blank(), x, y, sprite);
    lemma_draw_keeps_shape(g, x, y, sprite);
    lemma_draw_keeps_shape(once, x, y, sprite);
    lemma_draw_keeps_shape(blank(), x, y, sprite);
    lemma_draw_is_xor(g, x, y, sprite);
    lemma_draw_is_xor(once, x, y, sprite);
    assert forall|r: int, c: int| 0 <= r < 32 && 0 <= c < 64 implies #[trigger] twice[r][c]
        == g[r][c] by {
        let p = g[r][c];
        let q = on_dark[r][c];
        assert(once[r][c] == p ^ q);
        assert((p ^ q) ^ q == p) by (bit_vector);
    }
    assert forall|r: int| 0 <= r < 32 implies #[trigger] twice[r] == g[r] by {
        assert(twice[r] =~= g[r]);
    }
    assert(twice =~= g);
}

/// A sprite of at most thirty-two rows touches no pixel twice: it flips the
/// pixels under its set bits and leaves the others alone.
pub proof fn lemma_draw_pixels(g: Grid, x: u8, y: u8, sprite: Seq<u8>)
    requires
        well_shaped(g),
        sprite.len() <= 32,
    ensures
        forall|r: int, c: int|
            0 <= r < 32 && 0 <= c < 64 ==> #[trigger] draw(g, x, y, sprite)[r][c] == (if covers(
                x,
                y,
                sprite,
                r,
                c,
            ) {
                g[r][c] ^ 1
            } else {
                g[r][c]
            }),
    decreases sprite.len(),
{
    if sprite.len() > 0 {
        let rest = sprite.drop_last();
        lemma_draw_pixels(g, x, y, rest);
        lemma_draw_keeps_shape(g, x, y, rest);
        let before = draw(g, x, y, rest);
        let after = draw(g, x, y, sprite);
        let k = sprite.len() - 1;
        lemma_sprite_cells_distinct(x, y, k, 0);
        assert forall|r: int, c: int| 0 <= r < 32 && 0 <= c < 64 implies #[trigger] after[r][c]
            == (if covers(x, y, sprite, r, c) {
            g[r][c] ^ 1
        } else {
            g[r][c]
        }) by {
            if row_under(y, r) < k {
                assert(rest[row_under(y, r)] == sprite[row_under(y, r)]);
            }
            assert(covers(x, y, rest, r, c) == (row_under(y, r) < k && covers(
                x,
                y,
                sprite,
                r,
                c,
            )));
        }
    }
}

/// What was drawn of a sprite stays a collision when more of it is drawn.
pub proof fn lemma_collision_stays(g: Grid, x: u8, y: u8, sprite: Seq<u8>, k: int)
    requires
        0 <= k <= sprite.len(),
        collides(g, x, y, sprite.subrange(0, k)),
    ensures
        collides(g, x, y, sprite),
    decreases sprite.len() - k,
{
    if k < sprite.len() {
        assert(sprite.subrange(0, k + 1).drop_last() =~= sprite.subrange(0, k));
        lemma_collision_stays(g, x, y, sprite, k + 1);
    } else {
        assert(sprite.subrange(0, k) =~= sprite);
    }
}

/// A sprite of at most thirty-two rows collides exactly where one of its set
/// bits lies over a pixel that was lit before the drawing began.
pub proof fn lemma_collision_is_overlap(g: Grid, x: u8, y: u8, sprite: Seq<u8>)
    requires
        well_shaped(g),
        sprite.len() <= 32,
    ensures
        collides(g, x, y, sprite) <==> exists|k: int, b: int|
            0 <= k < sprite.len() && 0 <= b < 8 && #[trigger] bit_hits(
                g[sprite_row(y, k)],
                x,
                sprite[k],
                b,
            ),
    decreases sprite.len(),
{
    if sprite.len() > 0 {
        let rest = sprite.drop_last();
        let last = sprite.len() - 1;
        let r0 = sprite_row(y, last);
        lemma_collision_is_overlap(g, x, y, rest);
        lemma_draw_pixels(g, x, y, rest);
        lemma_draw_keeps_shape(g, x, y, rest);
        lemma_sprite_cells_distinct(x, y, last, 0);
        let before = draw(g, x, y, rest);
        assert(!covers(x, y, rest, r0, 0));
        assert forall|b: int| 0 <= b < 8 implies bit_hits(before[r0], x, sprite[last], b)
            == bit_hits(g[r0], x, sprite[last], b) by {
            let c = sprite_col(x, b);
            assert(!covers(x, y, rest, r0, c));
            assert(before[r0][c] == g[r0][c]);
        }
        if collides(g, x, y, sprite) {
            if collides(g, x, y, rest) {
                let (k, b) = choose|k: int, b: int|
                    0 <= k < rest.len() && 0 <= b < 8 && #[trigger] bit_hits(
                        g[sprite_row(y, k)],
                        x,
                        rest[k],
                        b,
                    );
                assert(bit_hits(g[sprite_row(y, k)], x, sprite[k], b));
            } else {
                let b = choose|b: int|
                    0 <= b < 8 && #[trigger] bit_hits(before[r0], x, sprite[last], b);
                assert(bit_hits(g[sprite_row(y, last)], x, sprite[last], b));
            }
        }
        if exists|k: int, b: int|
            0 <= k < sprite.len() && 0 <= b < 8 && #[trigger] bit_hits(
                g[sprite_row(y, k)],
                x,
                sprite[k],
                b,
            ) {
            let (k, b) = choose|k: int, b: int|
                0 <= k < sprite.len() && 0 <= b < 8 && #[trigger] bit_hits(
                    g[sprite_row(y, k)],
                    x,
                    sprite[k],
                    b,
                );
            if k < last {
                assert(bit_hits(g[sprite_row(y, k)], x, rest[k], b));
            } else {
                assert(bit_hits(before[r0], x, sprite[last], b));
            }
        }
    }
}

/// A byte that is not zero has a set bit.
pub proof fn lemma_nonzero_byte_has_bit(byte: u8) -> (b: int)
    requires
        byte != 0,
    ensures
        sprite_bit(byte, b),
{
    assert(byte != 0 ==> (0x80u8 >> 0u8) & byte != 0 || (0x80u8 >> 1u8) & byte != 0 || (0x80u8
        >> 2u8) & byte != 0 || (0x80u8 >> 3u8) & byte != 0 || (0x80u8 >> 4u8) & byte != 0 || (0x80u8
        >> 5u8) & byte != 0 || (0x80u8 >> 6u8) & byte != 0 || (0x80u8 >> 7u8) & byte != 0)
        by (bit_vector);
    if (0x80u8 >> 0u8) & byte != 0 {
        0
    } else if (0x80u8 >> 1u8) & byte != 0 {
        1
    } else if (0x80u8 >> 2u8) & byte != 0 {
        2
    } else if (0x80u8 >> 3u8) & byte != 0 {
        3
    } else if (0x80u8 >> 4u8) & byte != 0 {
        4
    } else if (0x80u8 >> 5u8) & byte != 0 {
        5
    } else if (0x80u8 >> 6u8) & byte != 0 {
        6
    } else {
        7
    }
}

/// On a dark grid, a sprite of at most thirty-two rows with a set bit shows:
/// the first drawing lights a pixel, and a second drawing at the same place
/// collides and leaves the grid dark again.
pub proof fn lemma_draw_twice_on_dark(g: Grid, x: u8, y: u8, sprite: Seq<u8>, k: int)
    requires
        well_shaped(g),
        clear(g),
        sprite.len() <= 32,
        0 <= k < sprite.len(),
        sprite[k] != 0,
    ensures
        !collides(g, x, y, sprite),
        !clear(draw(g, x, y, sprite)),
        collides(draw(g, x, y, sprite), x, y, sprite),
        clear(draw(draw(g, x, y, sprite), x, y, sprite)),
{
    let once = draw(g, x, y, sprite);
    let b = lemma_nonzero_byte_has_bit(sprite[k]);
    let r = sprite_row(y, k);
    let c = sprite_col(x, b);
    lemma_sprite_cells_distinct(x, y, k, b);
    lemma_draw_pixels(g, x, y, sprite);
    lemma_draw_keeps_shape(g, x, y, sprite);
    assert(covers(x, y, sprite, r, c));
    assert(g[r][c] == 0);
    assert(0u8 ^ 1 == 1) by (bit_vector);
    assert(once[r][c] == 1);
    lemma_collision_is_overlap(g, x, y, sprite);
    lemma_collision_is_overlap(once, x, y, sprite);
    assert(bit_hits(once[sprite_row(y, k)], x, sprite[k], b));
    lemma_draw_twice_restores(g, x, y, sprite);
}

/// Clearing the screen leaves every pixel dark, wherever the program counter
/// has room to move on.
pub proof fn lemma_cls_clears(m: Machine, random: u8)
    requires
        m.pc + 2 <= 0xFFFF,
    ensures
        step(m, Operation::Cls, random) is Ok,
        clear(step(m, Operation::Cls, random)->Ok_0.display),
{
}

/// A jump sets the program counter to its address, whatever the counter was,
/// and changes nothing else.
pub proof fn lemma_jmp_sets_pc(m: Machine, opcode: u16, random: u8)
    requires
        0x1000 <= opcode < 0x2000,
    ensures
        operation_of(opcode) == (Operation::Jmp { addr: (opcode - 0x1000) as u16 }),
        step(m, operation_of(opcode), random) == Ok::<Machine, crate::error::Chip8Error>(
            Machine { pc: (opcode - 0x1000) as u16, ..m },
        ),
{
}

/// The machine is consistent when it is switched on.
pub proof fn lemma_power_on_consistent()
    ensures
        consistent(power_on()),
{
}

/// Only `Cls` and `Drw` change the framebuffer.
pub proof fn lemma_step_keeps_display(m: Machine, op: Operation, random: u8)
    requires
        !(op is Cls),
        !(op is Drw),
    ensures
        step(m, op, random) matches Ok(after) ==> after.display == m.display,
{
}

/// No instruction changes the number of registers, stack slots, keys or
/// bytes of memory, nor moves the stack pointer beyond the stack.
pub proof fn lemma_step_keeps_sizes(m: Machine, op: Operation, random: u8)
    requires
        m.v.len() == 16,
        m.stack.len() == 16,
        m.keypad.len() == 16,
        m.ram.len() == 4096,
        m.sp <= 16,
        op.valid(),
    ensures
        step(m, op, random) matches Ok(after) ==> after.v.len() == 16 && after.stack.len() == 16
            && after.keypad.len() == 16 && after.ram.len() == 4096 && after.sp <= 16,
{
}

/// No instruction leads from a consistent machine to one that is not: the
/// stack pointer stays within the stack and the pixels stay zeros and ones.
pub proof fn lemma_step_keeps_consistent(m: Machine, op: Operation, random: u8)
    requires
        consistent(m),
        op.valid(),
    ensures
        step(m, op, random) matches Ok(after) ==> consistent(after),
{
    lemma_step_keeps_sizes(m, op, random);
    match op {
        Operation::Drw { x, y, n } => {
            if m.i + n <= 4096 {
                let sprite = m.ram.subrange(m.i as int, m.i + n);
                lemma_draw_keeps_shape(m.display, m.v[x as int], m.v[y as int], sprite);
                lemma_draw_keeps_binary(m.display, m.v[x as int], m.v[y as int], sprite);
            }
        },
        Operation::Cls => {},
        _ => {
            lemma_step_keeps_display(m, op, random);
        },
    }
}

/// Only `Rnd` looks at the random byte.
pub proof fn lemma_random_only_for_rnd(m: Machine, op: Operation, first: u8, second: u8)
    requires
        !(op is Rnd),
    ensures
        step(m, op, first) == step(m, op, second),
{
}

} // verus!
