use vstd::prelude::*;

verus! {

use vstd::arithmetic::div_mod::{lemma_add_mod_noop, lemma_mod_equivalence, lemma_small_mod};

/// The glyphs of the hexadecimal digits 0..F, five rows each, glyph `d` at
/// offset `5 * d`. Each row uses the four high bits of its byte.
pub const FONT: [u8; 80] = [
    // 0
    0xF0, 0x90, 0x90, 0x90, 0xF0,
    // 1
    0x20, 0x60, 0x20, 0x20, 0x70,
    // 2
    0xF0, 0x10, 0xF0, 0x80, 0xF0,
    // 3
    0xF0, 0x10, 0xF0, 0x10, 0xF0,
    // 4
    0x90, 0x90, 0xF0, 0x10, 0x10,
    // 5
    0xF0, 0x80, 0xF0, 0x10, 0xF0,
    // 6
    0xF0, 0x80, 0xF0, 0x90, 0xF0,
    // 7
    0xF0, 0x10, 0x20, 0x40, 0x40,
    // 8
    0xF0, 0x90, 0xF0, 0x90, 0xF0,
    // 9
    0xF0, 0x90, 0xF0, 0x10, 0xF0,
    // A
    0xF0, 0x90, 0xF0, 0x90, 0x90,
    // B
    0xE0, 0x90, 0xE0, 0x90, 0xE0,
    // C
    0xF0, 0x80, 0x80, 0x80, 0xF0,
    // D
    0xE0, 0x90, 0x90, 0x90, 0xE0,
    // E
    0xF0, 0x80, 0xF0, 0x80, 0xF0,
    // F
    0xF0, 0x80, 0xF0, 0x80, 0x80,
];

/// The font table as a sequence of bytes.
pub open spec fn font_bytes() -> Seq<u8> {
    seq![
        0xF0u8, 0x90u8, 0x90u8, 0x90u8, 0xF0u8,
        0x20u8, 0x60u8, 0x20u8, 0x20u8, 0x70u8,
        0xF0u8, 0x10u8, 0xF0u8, 0x80u8, 0xF0u8,
        0xF0u8, 0x10u8, 0xF0u8, 0x10u8, 0xF0u8,
        0x90u8, 0x90u8, 0xF0u8, 0x10u8, 0x10u8,
        0xF0u8, 0x80u8, 0xF0u8, 0x10u8, 0xF0u8,
        0xF0u8, 0x80u8, 0xF0u8, 0x90u8, 0xF0u8,
        0xF0u8, 0x10u8, 0x20u8, 0x40u8, 0x40u8,
        0xF0u8, 0x90u8, 0xF0u8, 0x90u8, 0xF0u8,
        0xF0u8, 0x90u8, 0xF0u8, 0x10u8, 0xF0u8,
        0xF0u8, 0x90u8, 0xF0u8, 0x90u8, 0x90u8,
        0xE0u8, 0x90u8, 0xE0u8, 0x90u8, 0xE0u8,
        0xF0u8, 0x80u8, 0x80u8, 0x80u8, 0xF0u8,
        0xE0u8, 0x90u8, 0x90u8, 0x90u8, 0xE0u8,
        0xF0u8, 0x80u8, 0xF0u8, 0x80u8, 0xF0u8,
        0xF0u8, 0x80u8, 0xF0u8, 0x80u8, 0x80u8,
    ]
}

/// `p` rotated right by `k` bit positions (`k < 64`).
pub open spec fn rotated(p: u64, k: u64) -> u64 {
    if k == 0 {
        p
    } else {
        (p >> k) | (p << ((64 - k) as u64))
    }
}

/// The framebuffer row pattern of a sprite byte placed with its
/// most-significant bit at column `x`, wrapping past column 63 to column 0.
pub open spec fn sprite_row(byte: u8, x: u8) -> u64 {
    rotated((byte as u64) << 56u64, (x % 64) as u64)
}

/// The framebuffer row that sprite byte `j` lands on when drawn at row `y`.
pub open spec fn target_row(y: u8, j: int) -> int {
    (y as int + j) % 32
}

/// The rows after XOR-drawing the bytes of `sprite`, one after another, at (`x`, `y`).
pub open spec fn drawn(rows: Seq<u64>, x: u8, y: u8, sprite: Seq<u8>) -> Seq<u64>
    decreases sprite.len(),
{
    if sprite.len() == 0 {
        rows
    } else {
        let before = drawn(rows, x, y, sprite.drop_last());
        let r = target_row(y, sprite.len() - 1);
        before.update(r, before[r] ^ sprite_row(sprite.last(), x))
    }
}

/// Whether drawing `sprite` at (`x`, `y`) turns off a lit pixel: some byte
/// meets a set bit in the row it is XORed into, as that row stands when the
/// byte is drawn.
pub open spec fn collides(rows: Seq<u64>, x: u8, y: u8, sprite: Seq<u8>) -> bool
    decreases sprite.len(),
{
    if sprite.len() == 0 {
        false
    } else {
        let before = drawn(rows, x, y, sprite.drop_last());
        collides(rows, x, y, sprite.drop_last())
            || before[target_row(y, sprite.len() - 1)] & sprite_row(sprite.last(), x) != 0
    }
}

/// A 64x32 monochrome framebuffer, one `u64` per row, most-significant bit
/// leftmost.
#[derive(Debug)]
pub struct Display {
    pub contents: [u64; 32],
    /// Set whenever the framebuffer is changed, so a renderer knows to repaint.
    pub should_redraw: bool,
}

impl Display {
    pub fn new() -> (r: Self)
        ensures
            r.contents@ == Seq::new(32, |_i: int| 0u64),
            !r.should_redraw,
    {
        let r = Display { contents: [0; 32], should_redraw: false };
        assert(r.contents@ =~= Seq::new(32, |_i: int| 0u64));
        r
    }

    pub fn get_font() -> (r: [u8; 80])
        ensures
            r@ == font_bytes(),
    {
        assert(FONT@ =~= font_bytes());
        FONT
    }
    /// Turns every pixel off.
    pub fn clear(&mut self)
        ensures
            final(self).contents@ == Seq::new(32, |_i: int| 0u64),
            final(self).should_redraw,
    {
        self.contents = [0; 32];
        self.should_redraw = true;
        assert(self.contents@ =~= Seq::new(32, |_i: int| 0u64));
    }

    /// XORs each byte of `sprites` into row `(y + r) mod 32`, its most-significant
    /// bit at column `x`, wrapping horizontally. Returns whether any lit pixel
    /// was turned off.
    pub fn draw(&mut self, x: u8, y: u8, sprites: &[u8]) -> (collision: bool)
        ensures
            final(self).contents@ == drawn(old(self).contents@, x, y, sprites@),
            collision == collides(old(self).contents@, x, y, sprites@),
            final(self).should_redraw,
    {
        let mut collision = false;
        let mut row_idx: usize = (y % 32) as usize;
        let mut i: usize = 0;
        while i < sprites.len()
            invariant
                i <= sprites@.len(),
                row_idx as int == target_row(y, i as int),
                self.contents@ == drawn(old(self).contents@, x, y, sprites@.take(i as int)),
                collision == collides(old(self).contents@, x, y, sprites@.take(i as int)),
            decreases sprites@.len() - i,
        {
            let row = self.contents[row_idx];
            let part = placed(sprites[i], x);
            if row & part != 0 {
                collision = true;
            }
            self.contents[row_idx] = row ^ part;
            proof {
                assert(sprites@.take(i + 1).drop_last() =~= sprites@.take(i as int));
                lemma_add_mod_noop(y as int + i as int, 1, 32);
            }
            row_idx = (row_idx + 1) % 32;
            i = i + 1;
        }
        assert(sprites@.take(sprites@.len() as int) =~= sprites@);
        self.should_redraw = true;
        collision
    }
}

/// The row pattern of `byte` with its most-significant bit at column `x`.
fn placed(byte: u8, x: u8) -> (r: u64)
    ensures
        r == sprite_row(byte, x),
{
    let p = (byte as u64) << 56;
    let k = (x % 64) as u64;
    if k == 0 {
        p
    } else {
        (p >> k) | (p << (64 - k))
    }
}

/// Drawing never changes the number of rows.
pub proof fn lemma_drawn_len(rows: Seq<u64>, x: u8, y: u8, sprite: Seq<u8>)
    requires
        rows.len() == 32,
    ensures
        drawn(rows, x, y, sprite).len() == 32,
    decreases sprite.len(),
{
    if sprite.len() > 0 {
        lemma_drawn_len(rows, x, y, sprite.drop_last());
    }
}

/// Two bytes fewer than 32 rows apart land on different rows.
proof fn lemma_rows_distinct(y: u8, k: int, j: int)
    requires
        0 <= k < j < k + 32,
    ensures
        target_row(y, k) != target_row(y, j),
{
    lemma_mod_equivalence(y as int + j, y as int + k, 32);
    lemma_small_mod((j - k) as nat, 32);
    assert((y as int + j) - (y as int + k) == j - k);
}

/// A row that no byte of the sprite lands on is left as it was.
proof fn lemma_drawn_untouched(rows: Seq<u64>, x: u8, y: u8, sprite: Seq<u8>, r: int)
    requires
        rows.len() == 32,
        0 <= r < 32,
        forall|k: int| 0 <= k < sprite.len() ==> target_row(y, k) != r,
    ensures
        drawn(rows, x, y, sprite)[r] == rows[r],
    decreases sprite.len(),
{
    if sprite.len() > 0 {
        lemma_drawn_untouched(rows, x, y, sprite.drop_last(), r);
        lemma_drawn_len(rows, x, y, sprite.drop_last());
        assert(target_row(y, sprite.len() - 1) != r);
    }
}

/// With at most 32 bytes, each row is hit at most once: the row of byte `j`
/// ends up as it was XOR that byte's pattern.
proof fn lemma_drawn_at(rows: Seq<u64>, x: u8, y: u8, sprite: Seq<u8>, j: int)
    requires
        rows.len() == 32,
        sprite.len() <= 32,
        0 <= j < sprite.len(),
    ensures
        drawn(rows, x, y, sprite)[target_row(y, j)] == rows[target_row(y, j)] ^ sprite_row(
            sprite[j],
            x,
        ),
    decreases sprite.len(),
{
    let last = sprite.len() - 1;
    let r = target_row(y, j);
    lemma_drawn_len(rows, x, y, sprite.drop_last());
    if j == last {
        assert forall|k: int| 0 <= k < sprite.drop_last().len() implies target_row(y, k) != r by {
            lemma_rows_distinct(y, k, j);
        }
        lemma_drawn_untouched(rows, x, y, sprite.drop_last(), r);
    } else {
        lemma_rows_distinct(y, j, last);
        lemma_drawn_at(rows, x, y, sprite.drop_last(), j);
    }
}

/// Collision, stated byte by byte: some byte meets a lit bit in its row as
/// the earlier bytes left it.
proof fn lemma_collides_iff(rows: Seq<u64>, x: u8, y: u8, sprite: Seq<u8>)
    ensures
        collides(rows, x, y, sprite) <==> exists|j: int|
            0 <= j < sprite.len() && #[trigger] drawn(rows, x, y, sprite.take(j))[target_row(y, j)]
                & sprite_row(sprite[j], x) != 0,
    decreases sprite.len(),
{
    if sprite.len() > 0 {
        let init = sprite.drop_last();
        let last = sprite.len() - 1;
        lemma_collides_iff(rows, x, y, init);
        assert(sprite.take(last) =~= init);
        assert forall|j: int| 0 <= j < init.len() implies #[trigger] sprite.take(j) == init.take(j) && sprite[j] == init[j] by {
            assert(sprite.take(j) =~= init.take(j));
        }
        if collides(rows, x, y, sprite) {
            if collides(rows, x, y, init) {
                let j = choose|j: int|
                    0 <= j < init.len() && #[trigger] drawn(rows, x, y, init.take(j))[target_row(y, j)]
                        & sprite_row(init[j], x) != 0;
                assert(drawn(rows, x, y, sprite.take(j))[target_row(y, j)] & sprite_row(sprite[j], x) != 0);
            } else {
                assert(drawn(rows, x, y, sprite.take(last))[target_row(y, last)] & sprite_row(sprite[last], x) != 0);
            }
        }
        if exists|j: int|
            0 <= j < sprite.len() && #[trigger] drawn(rows, x, y, sprite.take(j))[target_row(y, j)]
                & sprite_row(sprite[j], x) != 0 {
            let j = choose|j: int|
                0 <= j < sprite.len() && #[trigger] drawn(rows, x, y, sprite.take(j))[target_row(y, j)]
                    & sprite_row(sprite[j], x) != 0;
            if j < last {
                assert(drawn(rows, x, y, init.take(j))[target_row(y, j)] & sprite_row(init[j], x) != 0);
            }
        }
    }
}

/// XOR-ing a pattern into one row.
pub open spec fn toggled(rows: Seq<u64>, r: int, p: u64) -> Seq<u64> {
    rows.update(r, rows[r] ^ p)
}

/// Toggling a row before a draw is the same as toggling it after.
proof fn lemma_toggle_commutes(rows: Seq<u64>, x: u8, y: u8, sprite: Seq<u8>, r: int, p: u64)
    requires
        rows.len() == 32,
        0 <= r < 32,
    ensures
        drawn(toggled(rows, r, p), x, y, sprite) == toggled(drawn(rows, x, y, sprite), r, p),
    decreases sprite.len(),
{
    if sprite.len() > 0 {
        let init = sprite.drop_last();
        lemma_toggle_commutes(rows, x, y, init, r, p);
        lemma_drawn_len(rows, x, y, init);
        let d = drawn(rows, x, y, init);
        let q = sprite_row(sprite.last(), x);
        let t = target_row(y, sprite.len() - 1);
        if t == r {
            let a = d[r];
            assert((a ^ p) ^ q == (a ^ q) ^ p) by (bit_vector);
        }
        assert(toggled(toggled(d, r, p), t, q) =~= toggled(toggled(d, t, q), r, p));
    }
}

/// Drawing the same sprite twice at the same place leaves the framebuffer as
/// it was: XOR cancels itself.
pub proof fn lemma_draw_twice_restores(rows: Seq<u64>, x: u8, y: u8, sprite: Seq<u8>)
    requires
        rows.len() == 32,
    ensures
        drawn(drawn(rows, x, y, sprite), x, y, sprite) == rows,
    decreases sprite.len(),
{
    if sprite.len() > 0 {
        let init = sprite.drop_last();
        let d = drawn(rows, x, y, init);
        let q = sprite_row(sprite.last(), x);
        let t = target_row(y, sprite.len() - 1);
        lemma_drawn_len(rows, x, y, init);
        lemma_draw_twice_restores(rows, x, y, init);
        lemma_toggle_commutes(d, x, y, init, t, q);
        let a = drawn(d, x, y, init)[t];
        assert((a ^ q) ^ q == a) by (bit_vector);
        assert(toggled(toggled(drawn(d, x, y, init), t, q), t, q) =~= drawn(d, x, y, init));
    }
}

/// On an empty framebuffer a sprite of at most 32 rows draws without
/// collision; drawing it again at the same place collides exactly when the
/// sprite has a lit pixel, and leaves the framebuffer empty again.
pub proof fn lemma_redraw_collides(x: u8, y: u8, sprite: Seq<u8>)
    requires
        sprite.len() <= 32,
    ensures
        !collides(Seq::new(32, |_i: int| 0u64), x, y, sprite),
        collides(drawn(Seq::new(32, |_i: int| 0u64), x, y, sprite), x, y, sprite)
            <==> exists|j: int| 0 <= j < sprite.len() && sprite[j] != 0,
        drawn(drawn(Seq::new(32, |_i: int| 0u64), x, y, sprite), x, y, sprite) == Seq::new(
            32,
            |_i: int| 0u64,
        ),
{
    let empty = Seq::new(32, |_i: int| 0u64);
    let once = drawn(empty, x, y, sprite);
    lemma_drawn_len(empty, x, y, sprite);
    lemma_draw_twice_restores(empty, x, y, sprite);
    lemma_collides_iff(empty, x, y, sprite);
    lemma_collides_iff(once, x, y, sprite);
    if collides(once, x, y, sprite) {
        let j = choose|j: int|
            0 <= j < sprite.len() && #[trigger] drawn(once, x, y, sprite.take(j))[target_row(y, j)]
                & sprite_row(sprite[j], x) != 0;
        lemma_redraw_row(x, y, sprite, j);
    }
    if exists|j: int| 0 <= j < sprite.len() && sprite[j] != 0 {
        let j = choose|j: int| 0 <= j < sprite.len() && sprite[j] != 0;
        lemma_redraw_row(x, y, sprite, j);
        assert(drawn(once, x, y, sprite.take(j))[target_row(y, j)] & sprite_row(sprite[j], x) != 0);
    }
    if collides(empty, x, y, sprite) {
        let j = choose|j: int|
            0 <= j < sprite.len() && #[trigger] drawn(empty, x, y, sprite.take(j))[target_row(y, j)]
                & sprite_row(sprite[j], x) != 0;
        lemma_redraw_row(x, y, sprite, j);
    }
}

/// What byte `j` of a sprite meets, on an empty framebuffer and on the
/// framebuffer that drawing the sprite once left.
proof fn lemma_redraw_row(x: u8, y: u8, sprite: Seq<u8>, j: int)
    requires
        sprite.len() <= 32,
        0 <= j < sprite.len(),
    ensures
        drawn(Seq::new(32, |_i: int| 0u64), x, y, sprite.take(j))[target_row(y, j)] & sprite_row(
            sprite[j],
            x,
        ) == 0,
        drawn(drawn(Seq::new(32, |_i: int| 0u64), x, y, sprite), x, y, sprite.take(j))[target_row(
            y,
            j,
        )] & sprite_row(sprite[j], x) != 0 <==> sprite[j] != 0,
{
    let empty = Seq::new(32, |_i: int| 0u64);
    let once = drawn(empty, x, y, sprite);
    let r = target_row(y, j);
    assert forall|k: int| 0 <= k < sprite.take(j).len() implies target_row(y, k) != r by {
        lemma_rows_distinct(y, k, j);
    }
    lemma_drawn_len(empty, x, y, sprite);
    lemma_drawn_untouched(empty, x, y, sprite.take(j), r);
    lemma_drawn_untouched(once, x, y, sprite.take(j), r);
    lemma_drawn_at(empty, x, y, sprite, j);
    lemma_xor_and_zero(sprite_row(sprite[j], x));
    let b = sprite[j] as u64;
    let k = (x % 64) as u64;
    assert(b < 256 && k < 64 ==> (b != 0 <==> (rotated(b << 56u64, k) & rotated(b << 56u64, k))
        != 0)) by (bit_vector);
}

proof fn lemma_xor_and_zero(q: u64)
    ensures
        0u64 ^ q == q,
        0u64 & q == 0,
{
    assert(0u64 ^ q == q) by (bit_vector);
    assert(0u64 & q == 0) by (bit_vector);
}

/// A two-row sprite drawn at the bottom row wraps: its second row lands on
/// the top row.
pub proof fn lemma_vertical_wrap(rows: Seq<u64>, x: u8, sprite: Seq<u8>)
    requires
        rows.len() == 32,
        sprite.len() == 2,
    ensures
        drawn(rows, x, 31, sprite)[31] == rows[31] ^ sprite_row(sprite[0], x),
        drawn(rows, x, 31, sprite)[0] == rows[0] ^ sprite_row(sprite[1], x),
{
    lemma_drawn_at(rows, x, 31, sprite, 0);
    lemma_drawn_at(rows, x, 31, sprite, 1);
}

} // verus!
