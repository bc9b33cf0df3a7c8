//! The 64 x 32 monochrome framebuffer: XOR sprite drawing with collision
//! reporting, and a dirty flag that throttles redraws.
use vstd::prelude::*;

verus! {

/// Pixels per row.
pub const SCREEN_WIDTH: usize = 64;

/// Rows on the screen.
pub const SCREEN_HEIGHT: usize = 32;

/// The most rows a sprite has.
pub const MAX_SPRITE_ROWS: usize = 15;

/// Whether column `col` of a row word is lit; column 0 is the high bit.
pub open spec fn pixel_on(row: u64, col: int) -> bool {
    (row >> ((63 - col) as u64)) & 1 == 1
}

/// Whether bit `b` of a sprite byte, counted from the left, is set.
pub open spec fn sprite_bit(byte: u8, b: int) -> bool {
    (byte >> ((7 - b) as u8)) & 1 == 1
}

/// A sprite byte placed at column `x` of a row word, wrapping past the right
/// edge to column 0.
pub open spec fn sprite_mask(byte: u8, x: u8) -> u64 {
    let v = ((byte as u64) << 56u64) as u64;
    let s = (x % 64) as u64;
    if s == 0 {
        v
    } else {
        ((v >> s) | (v << ((64 - s) as u64))) as u64
    }
}

/// The row of a sprite that lands on screen row `row` when the sprite's top
/// is at `y`, counting downward with wraparound.
pub open spec fn sprite_row_at(row: int, y: u8) -> int {
    (row - y) % 32
}

/// The rows after XOR-ing `sprite` at `(x, y)` into `rows`.
pub open spec fn drawn_rows(rows: Seq<u64>, sprite: Seq<u8>, x: u8, y: u8) -> Seq<u64> {
    Seq::new(
        rows.len(),
        |j: int|
            if sprite_row_at(j, y) < sprite.len() {
                rows[j] ^ sprite_mask(sprite[sprite_row_at(j, y)], x)
            } else {
                rows[j]
            },
    )
}

/// Whether drawing `sprite` at `(x, y)` turns off a lit pixel.
pub open spec fn collides(rows: Seq<u64>, sprite: Seq<u8>, x: u8, y: u8) -> bool {
    exists|r: int|
        0 <= r < sprite.len() && #[trigger] (rows[(y + r) % 32] & sprite_mask(sprite[r], x)) != 0
}

/// Whether the sprite drawn at `(x, y)` has a set bit on screen pixel
/// `(col, row)`.
pub open spec fn covers(sprite: Seq<u8>, x: u8, y: u8, col: int, row: int) -> bool {
    let r = sprite_row_at(row, y);
    let b = (col - x) % 64;
    r < sprite.len() && b < 8 && sprite_bit(sprite[r], b)
}

/// Thirty-two all-dark rows.
pub open spec fn blank_rows() -> Seq<u64> {
    Seq::new(SCREEN_HEIGHT as nat, |j: int| 0u64)
}

proof fn lemma_pixel_xor(v: u64, m: u64, col: int)
    requires
        0 <= col < 64,
    ensures
        pixel_on(v ^ m, col) == (pixel_on(v, col) != pixel_on(m, col)),
{
    let s = (63 - col) as u64;
    assert(s < 64);
    assert(((v ^ m) >> s) & 1 == 1 <==> (((v >> s) & 1 == 1) != ((m >> s) & 1 == 1)))
        by (bit_vector);
}

proof fn lemma_pixel_and(v: u64, m: u64, col: int)
    requires
        0 <= col < 64,
        pixel_on(v, col),
        pixel_on(m, col),
    ensures
        v & m != 0,
{
    let s = (63 - col) as u64;
    assert(s < 64);
    assert((v >> s) & 1 == 1 && (m >> s) & 1 == 1 ==> v & m != 0) by (bit_vector);
}

proof fn lemma_mask_pixel(byte: u8, x: u8, col: int)
    requires
        0 <= col < 64,
    ensures
        pixel_on(sprite_mask(byte, x), col) == ((col - x) % 64 < 8 && sprite_bit(
            byte,
            (col - x) % 64,
        )),
{
    let c = col as u64;
    let s = (x % 64) as u64;
    let b = ((c + 64 - s) % 64) as u64;
    assert((col - x) % 64 == b as int);
    assert(s < 64 && c < 64);
    let v = ((byte as u64) << 56u64) as u64;
    let m = sprite_mask(byte, x);
    assert(m == if s == 0 {
        v
    } else {
        ((v >> s) | (v << ((64 - s) as u64))) as u64
    });
    let sb = (63 - c) as u64;
    assert(sb == (63 - col) as u64);
    assert(b < 8 ==> (7 - b) as u8 == ((7 - b) as u64) as u8);
    let bit7 = if b < 8 { (7 - b) as u64 } else { 0 };
    assert(c < 64 && s < 64 && b == (c + 64 - s) % 64 && v == ((byte as u64) << 56u64) && m == (
    if s == 0 {
        v
    } else {
        (v >> s) | (v << ((64 - s) as u64))
    }) && sb == 63 - c && (b < 8 ==> bit7 == 7 - b) ==> (((m >> sb) & 1 == 1) == (b < 8 && ((byte as u64)
        >> bit7) & 1 == 1))) by (bit_vector);
    assert(((m >> sb) & 1 == 1) == pixel_on(m, col));
    if b < 8 {
        assert((byte >> ((7 - b) as u8)) & 1 == 1 <==> ((byte as u64) >> bit7) & 1 == 1)
            by (bit_vector)
            requires
                bit7 == 7 - b,
                b < 8,
        ;
        assert(sprite_bit(byte, b as int) == (((byte as u64) >> bit7) & 1 == 1));
    }
}

proof fn lemma_row_offset(j: int, y: u8, r: int)
    requires
        0 <= j < 32,
        0 <= r < 32,
    ensures
        (sprite_row_at(j, y) == r) <==> (j == (y + r) % 32),
        sprite_row_at((y + r) % 32, y) == r,
        0 <= sprite_row_at(j, y) < 32,
{
}

/// Over every screen pixel, drawing toggles exactly the pixels that the
/// sprite's set bits land on, with wraparound at both edges.
pub proof fn lemma_draw_pixels(rows: Seq<u64>, sprite: Seq<u8>, x: u8, y: u8)
    requires
        rows.len() == SCREEN_HEIGHT,
        sprite.len() <= MAX_SPRITE_ROWS,
    ensures
        forall|col: int, row: int|
            0 <= col < 64 && 0 <= row < 32 ==> #[trigger] pixel_on(
                drawn_rows(rows, sprite, x, y)[row],
                col,
            ) == (pixel_on(rows[row], col) != covers(sprite, x, y, col, row)),
{
    assert forall|col: int, row: int| 0 <= col < 64 && 0 <= row < 32 implies #[trigger] pixel_on(
        drawn_rows(rows, sprite, x, y)[row],
        col,
    ) == (pixel_on(rows[row], col) != covers(sprite, x, y, col, row)) by {
        lemma_row_offset(row, y, 0);
        let r = sprite_row_at(row, y);
        if r < sprite.len() {
            lemma_pixel_xor(rows[row], sprite_mask(sprite[r], x), col);
            lemma_mask_pixel(sprite[r], x, col);
        }
    }
}

/// Drawing the same sprite twice at the same place restores every row, and
/// the second draw collides whenever one of the sprite's pixels was lit after
/// the first.
pub proof fn lemma_draw_twice(rows: Seq<u64>, sprite: Seq<u8>, x: u8, y: u8)
    requires
        rows.len() == SCREEN_HEIGHT,
        sprite.len() <= MAX_SPRITE_ROWS,
    ensures
        drawn_rows(drawn_rows(rows, sprite, x, y), sprite, x, y) == rows,
        forall|col: int, row: int|
            0 <= col < 64 && 0 <= row < 32 && #[trigger] covers(sprite, x, y, col, row)
                && pixel_on(drawn_rows(rows, sprite, x, y)[row], col) ==> collides(
                drawn_rows(rows, sprite, x, y),
                sprite,
                x,
                y,
            ),
{
    let once = drawn_rows(rows, sprite, x, y);
    assert forall|j: int| 0 <= j < rows.len() implies drawn_rows(once, sprite, x, y)[j]
        == rows[j] by {
        let r = sprite_row_at(j, y);
        if r < sprite.len() {
            let v = rows[j];
            let m = sprite_mask(sprite[r], x);
            assert((v ^ m) ^ m == v) by (bit_vector);
        }
    }
    assert(drawn_rows(once, sprite, x, y) =~= rows);
    assert forall|col: int, row: int|
        0 <= col < 64 && 0 <= row < 32 && #[trigger] covers(sprite, x, y, col, row) && pixel_on(
            once[row],
            col,
        ) implies collides(once, sprite, x, y) by {
        let r = sprite_row_at(row, y);
        lemma_row_offset(row, y, r);
        lemma_mask_pixel(sprite[r], x, col);
        lemma_pixel_and(once[row], sprite_mask(sprite[r], x), col);
        assert(once[(y + r) % 32] & sprite_mask(sprite[r], x) != 0);
    }
}

/// A sprite bit `b` of row `r` lands on column `(x + b) mod 64` of row
/// `(y + r) mod 32`: a sprite that runs off the right or bottom edge wraps to
/// the left or top, and is never clipped.
pub proof fn lemma_draw_wraps(rows: Seq<u64>, sprite: Seq<u8>, x: u8, y: u8)
    requires
        rows.len() == SCREEN_HEIGHT,
        sprite.len() <= MAX_SPRITE_ROWS,
    ensures
        forall|r: int, b: int|
            0 <= r < sprite.len() && 0 <= b < 8 ==> #[trigger] pixel_on(
                drawn_rows(rows, sprite, x, y)[(y + r) % 32],
                (x + b) % 64,
            ) == (pixel_on(rows[(y + r) % 32], (x + b) % 64) != sprite_bit(sprite[r], b)),
{
    lemma_draw_pixels(rows, sprite, x, y);
    assert forall|r: int, b: int| 0 <= r < sprite.len() && 0 <= b < 8 implies #[trigger] pixel_on(
        drawn_rows(rows, sprite, x, y)[(y + r) % 32],
        (x + b) % 64,
    ) == (pixel_on(rows[(y + r) % 32], (x + b) % 64) != sprite_bit(sprite[r], b)) by {
        let row = (y + r) % 32;
        let col = (x + b) % 64;
        lemma_row_offset(row, y, r);
        assert((col - x) % 64 == b);
        assert(covers(sprite, x, y, col, row) == sprite_bit(sprite[r], b));
    }
}

fn mask_of(byte: u8, x: u8) -> (m: u64)
    ensures
        m == sprite_mask(byte, x),
{
    let v: u64 = (byte as u64) << 56u64;
    let s: u64 = (x % 64) as u64;
    if s == 0 {
        v
    } else {
        (v >> s) | (v << (64 - s))
    }
}

/// The screen: one 64-bit word per row, and whether it changed since it was
/// last presented.
pub struct Video {
    rows: Vec<u64>,
    draw_flag: bool,
}

impl View for Video {
    type V = Seq<u64>;

    closed spec fn view(&self) -> Seq<u64> {
        self.rows@
    }
}

impl Video {
    pub open spec fn wf(&self) -> bool {
        self@.len() == SCREEN_HEIGHT
    }

    /// Whether the screen changed since it was last presented.
    pub closed spec fn dirty(&self) -> bool {
        self.draw_flag
    }

    /// A dark screen, due to be presented.
    pub fn new() -> (r: Video)
        ensures
            r.wf(),
            r@ == blank_rows(),
            r.dirty(),
    {
        let rows: Vec<u64> = vec![0u64; SCREEN_HEIGHT];
        assert(rows@ =~= blank_rows());
        Video { rows, draw_flag: true }
    }

    /// Turns every pixel off.
    pub fn clear(&mut self)
        requires
            old(self).wf(),
        ensures
            final(self).wf(),
            final(self)@ == blank_rows(),
            final(self).dirty(),
    {
        self.rows = vec![0u64; SCREEN_HEIGHT];
        self.draw_flag = true;
        assert(self.rows@ =~= blank_rows());
    }

    /// XORs `sprite`, one byte per row, onto the screen with its top left
    /// corner at `(x, y)`, wrapping at the edges. Returns 1 when a lit pixel
    /// was turned off, else 0.
    pub fn draw_sprite(&mut self, sprite: &Vec<u8>, x: u8, y: u8) -> (r: u8)
        requires
            old(self).wf(),
            sprite@.len() <= MAX_SPRITE_ROWS,
        ensures
            final(self).wf(),
            final(self)@ == drawn_rows(old(self)@, sprite@, x, y),
            r == (if collides(old(self)@, sprite@, x, y) {
                1u8
            } else {
                0u8
            }),
            final(self).dirty(),
    {
        self.draw_flag = true;
        let ghost before = self.rows@;
        let mut collision: u8 = 0;
        let mut r: usize = 0;
        assert(drawn_rows(before, sprite@.take(0), x, y) =~= before);
        while r < sprite.len()
            invariant
                self.wf(),
                self.draw_flag,
                before.len() == SCREEN_HEIGHT,
                sprite@.len() <= MAX_SPRITE_ROWS,
                r <= sprite@.len(),
                self.rows@ == drawn_rows(before, sprite@.take(r as int), x, y),
                collision == (if collides(before, sprite@.take(r as int), x, y) {
                    1u8
                } else {
                    0u8
                }),
            decreases sprite@.len() - r,
        {
            let j: usize = ((y as usize) + r) % SCREEN_HEIGHT;
            let m = mask_of(sprite[r], x);
            proof {
                lemma_row_offset(j as int, y, r as int);
            }
            let old_row = self.rows[j];
            assert(old_row == before[j as int]);
            if old_row & m != 0 {
                collision = 1;
            }
            self.rows.set(j, old_row ^ m);
            let ghost next = sprite@.take(r + 1);
            proof {
                assert(next[r as int] == sprite@[r as int]);
                assert forall|k: int| 0 <= k < SCREEN_HEIGHT implies self.rows@[k]
                    == drawn_rows(before, next, x, y)[k] by {
                    lemma_row_offset(k, y, r as int);
                    if sprite_row_at(k, y) < r {
                        assert(next[sprite_row_at(k, y)] == sprite@.take(r as int)[sprite_row_at(k, y)]);
                    }
                }
                assert(self.rows@ =~= drawn_rows(before, next, x, y));
                if collides(before, sprite@.take(r as int), x, y) {
                    let w = choose|w: int|
                        0 <= w < r && #[trigger] (before[(y + w) % 32] & sprite_mask(
                            sprite@.take(r as int)[w],
                            x,
                        )) != 0;
                    assert(before[(y + w) % 32] & sprite_mask(next[w], x) != 0);
                }
                if old_row & m != 0 {
                    assert(before[(y + r) % 32] & sprite_mask(next[r as int], x) != 0);
                }
                if collides(before, next, x, y) {
                    let w = choose|w: int|
                        0 <= w < r + 1 && #[trigger] (before[(y + w) % 32] & sprite_mask(
                            next[w],
                            x,
                        )) != 0;
                    if w < r {
                        assert(before[(y + w) % 32] & sprite_mask(sprite@.take(r as int)[w], x)
                            != 0);
                    }
                }
            }
            r = r + 1;
        }
        assert(sprite@.take(r as int) =~= sprite@);
        collision
    }

    /// Whether the screen is due to be presented; answering true clears that,
    /// so the next call answers false until the screen changes again.
    pub fn refresh(&mut self) -> (r: bool)
        requires
            old(self).wf(),
        ensures
            final(self).wf(),
            final(self)@ == old(self)@,
            r == old(self).dirty(),
            !final(self).dirty(),
    {
        let due = self.draw_flag;
        self.draw_flag = false;
        due
    }

    /// Whether the pixel at column `col`, row `row` is lit.
    pub fn pixel(&self, col: usize, row: usize) -> (r: bool)
        requires
            self.wf(),
            col < SCREEN_WIDTH,
            row < SCREEN_HEIGHT,
        ensures
            r == pixel_on(self@[row as int], col as int),
    {
        let shift: u64 = (63 - col) as u64;
        (self.rows[row] >> shift) & 1 == 1
    }
}

} // verus!
