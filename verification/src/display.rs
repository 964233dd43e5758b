//! The 64x32 monochrome display buffer and XOR sprite compositing.

use vstd::prelude::*;

verus! {

/// Pixels per display row.
pub const DISPLAY_WIDTH: usize = 64;

/// Display rows.
pub const DISPLAY_HEIGHT: usize = 32;

/// Total pixel cells.
pub const DISPLAY_CELLS: usize = 2048;

/// Index in the flat pixel sequence of the cell at column `cx`, row `cy`.
pub open spec fn cell(cx: int, cy: int) -> int {
    cy * 64 + cx
}

/// Whether bit `c` of sprite row byte `b` is set, counting bit 0 as the
/// most significant: bit `c` lands `c` pixels to the right of the
/// sprite's origin column.
pub open spec fn sprite_bit(b: u8, c: int) -> bool
    recommends
        0 <= c < 8,
{
    (b >> ((7 - c) as u8)) & 1u8 == 1u8
}

/// The pixels and collision flag after drawing bits `0..c` of the sprite
/// row byte `b` into row `cy` starting at column `x`: each set bit
/// toggles its cell (XOR), columns wrap modulo 64, and the collision
/// flag records whether some toggled cell was set before the toggle.
pub open spec fn draw_row(p: Seq<bool>, x: int, cy: int, b: u8, c: int) -> (Seq<bool>, bool)
    decreases c,
{
    if c <= 0 {
        (p, false)
    } else {
        let (q, col) = draw_row(p, x, cy, b, c - 1);
        if sprite_bit(b, c - 1) {
            let ix = cell((x + c - 1) % 64, cy);
            (q.update(ix, !q[ix]), col || q[ix])
        } else {
            (q, col)
        }
    }
}

/// The pixels and collision flag after drawing rows `0..r` of the sprite
/// `s` at origin `(x, y)`: row `k` lands on display row `(y + k) mod 32`,
/// and the collision flags of all rows are OR-ed together.
pub open spec fn draw_rows(p: Seq<bool>, x: int, y: int, s: Seq<u8>, r: int) -> (Seq<bool>, bool)
    decreases r,
{
    if r <= 0 {
        (p, false)
    } else {
        let (q, col) = draw_rows(p, x, y, s, r - 1);
        let (q2, col2) = draw_row(q, x, (y + r - 1) % 32, s[r - 1], 8);
        (q2, col || col2)
    }
}

/// The pixels and collision flag after drawing the whole sprite `s` at
/// origin `(x, y)`.
pub open spec fn spec_draw(p: Seq<bool>, x: int, y: int, s: Seq<u8>) -> (Seq<bool>, bool) {
    draw_rows(p, x, y, s, s.len() as int)
}

/// An all-clear display.
pub open spec fn blank_display() -> Seq<bool> {
    Seq::new(DISPLAY_CELLS as nat, |ix: int| false)
}

/// Whether drawing bits `0..c` of row byte `b` (row `cy`, origin column
/// `x`) toggles the cell at flat index `ix`: the parity of the set bits
/// that land there.
pub open spec fn row_toggles(x: int, cy: int, b: u8, c: int, ix: int) -> bool
    decreases c,
{
    if c <= 0 {
        false
    } else {
        row_toggles(x, cy, b, c - 1, ix) != (sprite_bit(b, c - 1) && ix == cell(
            (x + c - 1) % 64,
            cy,
        ))
    }
}

/// Whether drawing rows `0..r` of sprite `s` at origin `(x, y)` toggles
/// the cell at flat index `ix`.
pub open spec fn sprite_toggles(x: int, y: int, s: Seq<u8>, r: int, ix: int) -> bool
    decreases r,
{
    if r <= 0 {
        false
    } else {
        sprite_toggles(x, y, s, r - 1, ix) != row_toggles(x, (y + r - 1) % 32, s[r - 1], 8, ix)
    }
}

/// Drawing one sprite row changes each cell exactly by its toggle parity,
/// and keeps the pixel count.
proof fn lemma_draw_row_pointwise(p: Seq<bool>, x: int, cy: int, b: u8, c: int)
    requires
        p.len() == DISPLAY_CELLS,
        0 <= cy < 32,
        0 <= c <= 8,
    ensures
        draw_row(p, x, cy, b, c).0.len() == DISPLAY_CELLS,
        forall|ix: int|
            0 <= ix < DISPLAY_CELLS ==> draw_row(p, x, cy, b, c).0[ix] == (p[ix] != row_toggles(
                x,
                cy,
                b,
                c,
                ix,
            )),
    decreases c,
{
    if c > 0 {
        lemma_draw_row_pointwise(p, x, cy, b, c - 1);
        assert(0 <= (x + c - 1) % 64 < 64);
    }
}

/// Drawing a sprite changes each cell exactly by its toggle parity, and
/// keeps the pixel count.
proof fn lemma_draw_rows_pointwise(p: Seq<bool>, x: int, y: int, s: Seq<u8>, r: int)
    requires
        p.len() == DISPLAY_CELLS,
        0 <= r <= s.len(),
    ensures
        draw_rows(p, x, y, s, r).0.len() == DISPLAY_CELLS,
        forall|ix: int|
            0 <= ix < DISPLAY_CELLS ==> draw_rows(p, x, y, s, r).0[ix] == (p[ix] != sprite_toggles(
                x,
                y,
                s,
                r,
                ix,
            )),
    decreases r,
{
    if r > 0 {
        lemma_draw_rows_pointwise(p, x, y, s, r - 1);
        assert(0 <= (y + r - 1) % 32 < 32);
        lemma_draw_row_pointwise(draw_rows(p, x, y, s, r - 1).0, x, (y + r - 1) % 32, s[r - 1], 8);
    }
}

/// Whether some set bit of the sprite `s`, drawn at origin `(x, y)`,
/// lands on a cell that is set in `p`.
pub open spec fn spec_overlap(p: Seq<bool>, x: int, y: int, s: Seq<u8>) -> bool {
    exists|r: int, c: int|
        0 <= r < s.len() && 0 <= c < 8 && sprite_bit(s[r], c) && p[cell(
            (x + c) % 64,
            (y + r) % 32,
        )]
}

/// Two distinct offsets below 8 land on distinct columns, whatever the
/// origin: the sprite is narrower than the display, so one row never
/// wraps onto itself.
proof fn lemma_col_distinct(x: int, c1: int, c2: int)
    requires
        0 <= c1 < c2 < 8,
    ensures
        (x + c1) % 64 != (x + c2) % 64,
{
    assert(x + c1 == 64 * ((x + c1) / 64) + (x + c1) % 64);
    assert(x + c2 == 64 * ((x + c2) / 64) + (x + c2) % 64);
}

/// Two distinct row offsets below 32 land on distinct display rows,
/// whatever the origin: a sprite is never taller than the display, so it
/// never wraps onto itself vertically.
proof fn lemma_row_distinct(y: int, r1: int, r2: int)
    requires
        0 <= r1 < r2 < 32,
    ensures
        (y + r1) % 32 != (y + r2) % 32,
{
    assert(y + r1 == 32 * ((y + r1) / 32) + (y + r1) % 32);
    assert(y + r2 == 32 * ((y + r2) / 32) + (y + r2) % 32);
}

/// A cell toggled by bits `0..c` of a row is the target of one of those
/// bits — the lemma hands that bit back — and lies in that row.
proof fn lemma_row_toggles_located(x: int, cy: int, b: u8, c: int, ix: int) -> (c2: int)
    requires
        0 <= cy < 32,
        0 <= c <= 8,
        row_toggles(x, cy, b, c, ix),
    ensures
        0 <= c2 < c,
        sprite_bit(b, c2),
        ix == cell((x + c2) % 64, cy),
        ix / 64 == cy,
    decreases c,
{
    if row_toggles(x, cy, b, c - 1, ix) {
        lemma_row_toggles_located(x, cy, b, c - 1, ix)
    } else {
        assert(sprite_bit(b, c - 1) && ix == cell((x + c - 1) % 64, cy));
        assert(0 <= (x + c - 1) % 64 < 64);
        c - 1
    }
}

/// A cell toggled by rows `0..r` of a sprite lies in the display row of
/// one of those sprite rows — the lemma hands that row back.
proof fn lemma_sprite_toggles_located(x: int, y: int, s: Seq<u8>, r: int, ix: int) -> (r2: int)
    requires
        0 <= r <= s.len(),
        sprite_toggles(x, y, s, r, ix),
    ensures
        0 <= r2 < r,
        ix / 64 == (y + r2) % 32,
    decreases r,
{
    if row_toggles(x, (y + r - 1) % 32, s[r - 1], 8, ix) {
        let _ = lemma_row_toggles_located(x, (y + r - 1) % 32, s[r - 1], 8, ix);
        r - 1
    } else {
        lemma_sprite_toggles_located(x, y, s, r - 1, ix)
    }
}

/// Within one row, the collision flag of `draw_row` reports exactly
/// whether some set bit among `0..c` lands on a cell that was set before
/// the row was drawn: the bits of a row touch pairwise distinct cells,
/// so each bit reads its cell's original value.
proof fn lemma_row_collision(p: Seq<bool>, x: int, cy: int, b: u8, c: int)
    requires
        p.len() == DISPLAY_CELLS,
        0 <= cy < 32,
        0 <= c <= 8,
    ensures
        draw_row(p, x, cy, b, c).1 == exists|c2: int|
            0 <= c2 < c && sprite_bit(b, c2) && p[cell((x + c2) % 64, cy)],
    decreases c,
{
    if c > 0 {
        lemma_row_collision(p, x, cy, b, c - 1);
        lemma_draw_row_pointwise(p, x, cy, b, c - 1);
        let prev = draw_row(p, x, cy, b, c - 1);
        let ix0 = cell((x + c - 1) % 64, cy);
        assert(0 <= (x + c - 1) % 64 < 64);
        // no earlier bit of this row toggled the cell bit c - 1 targets
        if row_toggles(x, cy, b, c - 1, ix0) {
            let c2 = lemma_row_toggles_located(x, cy, b, c - 1, ix0);
            lemma_col_distinct(x, c2, c - 1);
            assert(false);
        }
        assert(prev.0[ix0] == p[ix0]);
        if draw_row(p, x, cy, b, c).1 {
            if prev.1 {
                let c2 = choose|c2: int|
                    0 <= c2 < c - 1 && sprite_bit(b, c2) && p[cell((x + c2) % 64, cy)];
                assert(0 <= c2 < c && sprite_bit(b, c2) && p[cell((x + c2) % 64, cy)]);
            } else {
                assert(sprite_bit(b, c - 1) && p[cell((x + c - 1) % 64, cy)]);
            }
        }
        if exists|c2: int| 0 <= c2 < c && sprite_bit(b, c2) && p[cell((x + c2) % 64, cy)] {
            let c2 = choose|c2: int|
                0 <= c2 < c && sprite_bit(b, c2) && p[cell((x + c2) % 64, cy)];
            if c2 < c - 1 {
                assert(prev.1);
            } else {
                assert(prev.0[ix0] && sprite_bit(b, c - 1));
            }
            assert(draw_row(p, x, cy, b, c).1);
        }
    }
}

/// The collision flag of `draw_rows` reports exactly whether some set
/// bit among rows `0..r` lands on a cell that was set before the whole
/// draw: distinct rows touch distinct display rows, so every row reads
/// original pixel values.
proof fn lemma_rows_collision(p: Seq<bool>, x: int, y: int, s: Seq<u8>, r: int)
    requires
        p.len() == DISPLAY_CELLS,
        0 <= r <= s.len() <= 32,
    ensures
        draw_rows(p, x, y, s, r).1 == exists|r2: int, c2: int|
            0 <= r2 < r && 0 <= c2 < 8 && sprite_bit(s[r2], c2) && p[cell(
                (x + c2) % 64,
                (y + r2) % 32,
            )],
    decreases r,
{
    if r > 0 {
        lemma_rows_collision(p, x, y, s, r - 1);
        lemma_draw_rows_pointwise(p, x, y, s, r - 1);
        let q = draw_rows(p, x, y, s, r - 1).0;
        let cy = (y + r - 1) % 32;
        assert(0 <= cy < 32);
        lemma_row_collision(q, x, cy, s[r - 1], 8);
        // rows 0..r-1 never toggled a cell of display row cy
        assert forall|ix: int|
            0 <= ix < DISPLAY_CELLS && ix / 64 == cy implies q[ix] == p[ix] by {
            if sprite_toggles(x, y, s, r - 1, ix) {
                let r2 = lemma_sprite_toggles_located(x, y, s, r - 1, ix);
                lemma_row_distinct(y, r2, r - 1);
                assert(false);
            }
        }
        assert forall|c2: int| 0 <= c2 < 8 implies q[#[trigger] cell((x + c2) % 64, cy)] == p[cell(
            (x + c2) % 64,
            cy,
        )] by {
            assert(0 <= (x + c2) % 64 < 64);
            assert(cell((x + c2) % 64, cy) / 64 == cy);
        }
        if draw_rows(p, x, y, s, r).1 {
            if draw_rows(p, x, y, s, r - 1).1 {
                let (r2, c2) = choose|r2: int, c2: int|
                    0 <= r2 < r - 1 && 0 <= c2 < 8 && sprite_bit(s[r2], c2) && p[cell(
                        (x + c2) % 64,
                        (y + r2) % 32,
                    )];
                assert(0 <= r2 < r && 0 <= c2 < 8 && sprite_bit(s[r2], c2) && p[cell(
                    (x + c2) % 64,
                    (y + r2) % 32,
                )]);
            } else {
                let c2 = choose|c2: int|
                    0 <= c2 < 8 && #[trigger] sprite_bit(s[r - 1], c2) && q[cell(
                        (x + c2) % 64,
                        cy,
                    )];
                assert(0 <= r - 1 < r && 0 <= c2 < 8 && sprite_bit(s[r - 1], c2) && p[cell(
                    (x + c2) % 64,
                    (y + r - 1) % 32,
                )]);
            }
        }
        if exists|r2: int, c2: int|
            0 <= r2 < r && 0 <= c2 < 8 && sprite_bit(s[r2], c2) && p[cell(
                (x + c2) % 64,
                (y + r2) % 32,
            )] {
            let (r2, c2) = choose|r2: int, c2: int|
                0 <= r2 < r && 0 <= c2 < 8 && sprite_bit(s[r2], c2) && p[cell(
                    (x + c2) % 64,
                    (y + r2) % 32,
                )];
            if r2 < r - 1 {
                assert(draw_rows(p, x, y, s, r - 1).1);
            } else {
                assert(q[cell((x + c2) % 64, cy)]);
                assert(draw_row(q, x, cy, s[r - 1], 8).1);
            }
            assert(draw_rows(p, x, y, s, r).1);
        }
    }
}

/// Law: a draw reports a collision exactly when some set sprite bit
/// lands on a pixel that was set before the draw began. In particular a
/// second, identical draw reports a collision exactly when it overlaps
/// the content the first draw left behind.
pub proof fn lemma_collision_iff_overlap(p: Seq<bool>, x: int, y: int, s: Seq<u8>)
    requires
        p.len() == DISPLAY_CELLS,
        s.len() <= 32,
    ensures
        spec_draw(p, x, y, s).1 == spec_overlap(p, x, y, s),
{
    lemma_rows_collision(p, x, y, s, s.len() as int);
}

/// Law: XOR compositing is self-inverse. Drawing the same sprite twice at
/// the same origin restores every pixel, so the second draw clears
/// exactly the pixels the first one set and sets back exactly those it
/// cleared.
pub proof fn lemma_draw_twice_restores(p: Seq<bool>, x: int, y: int, s: Seq<u8>)
    requires
        p.len() == DISPLAY_CELLS,
    ensures
        spec_draw(spec_draw(p, x, y, s).0, x, y, s).0 == p,
{
    let q = spec_draw(p, x, y, s).0;
    lemma_draw_rows_pointwise(p, x, y, s, s.len() as int);
    lemma_draw_rows_pointwise(q, x, y, s, s.len() as int);
    assert(spec_draw(q, x, y, s).0 =~= p);
}

/// The 64x32 monochrome pixel grid. Sprite-draw opcodes are the only
/// mutators of pixel state; the dirty flag tells a rendering collaborator
/// that pixel state changed since it last caught up.
pub struct Display {
    pub pixels: Vec<bool>,
    pub dirty: bool,
}

impl View for Display {
    type V = Seq<bool>;

    open spec fn view(&self) -> Seq<bool> {
        self.pixels@
    }
}

impl Display {
    /// The grid always holds exactly 64 x 32 cells.
    pub open spec fn wf(&self) -> bool {
        self@.len() == DISPLAY_CELLS
    }

    /// Builds a blank display with the dirty flag down.
    pub fn new() -> (d: Display)
        ensures
            d.wf(),
            d@ == blank_display(),
            !d.dirty,
    {
        let mut pixels: Vec<bool> = Vec::new();
        while pixels.len() < DISPLAY_CELLS
            invariant
                pixels@.len() <= DISPLAY_CELLS,
                forall|ix: int| 0 <= ix < pixels@.len() ==> !pixels@[ix],
            decreases DISPLAY_CELLS - pixels@.len(),
        {
            pixels.push(false);
        }
        let d = Display { pixels, dirty: false };
        proof {
            assert(d@ =~= blank_display());
        }
        d
    }

    /// Clears every pixel and raises the dirty flag.
    pub fn clear(&mut self)
        requires
            old(self).wf(),
        ensures
            final(self).wf(),
            final(self)@ == blank_display(),
            final(self).dirty,
    {
        let mut k: usize = 0;
        while k < DISPLAY_CELLS
            invariant
                k <= DISPLAY_CELLS,
                self.pixels@.len() == DISPLAY_CELLS,
                forall|ix: int| 0 <= ix < k ==> !self.pixels@[ix],
            decreases DISPLAY_CELLS - k,
        {
            self.pixels[k] = false;
            k = k + 1;
        }
        self.dirty = true;
        proof {
            assert(self@ =~= blank_display());
        }
    }

    /// Reads the pixel at column `cx`, row `cy`.
    pub fn pixel(&self, cx: usize, cy: usize) -> (on: bool)
        requires
            self.wf(),
            cx < DISPLAY_WIDTH,
            cy < DISPLAY_HEIGHT,
        ensures
            on == self@[cell(cx as int, cy as int)],
    {
        self.pixels[cy * 64 + cx]
    }

    /// Whether pixel state changed since the flag was last lowered.
    pub fn is_dirty(&self) -> (d: bool)
        ensures
            d == self.dirty,
    {
        self.dirty
    }

    /// Lowers the dirty flag; a rendering collaborator calls this after
    /// it has consumed the pixel state.
    pub fn clear_dirty(&mut self)
        ensures
            final(self)@ == old(self)@,
            !final(self).dirty,
    {
        self.dirty = false;
    }

    /// Draws a sprite of up to 32 rows at origin `(x, y)`: each set bit
    /// toggles its cell, both axes wrap, and the result reports whether
    /// any toggled cell was set before (a collision). Raises the dirty
    /// flag.
    pub fn draw_sprite(&mut self, x: u8, y: u8, sprite: &[u8]) -> (collision: bool)
        requires
            old(self).wf(),
            sprite@.len() <= DISPLAY_HEIGHT,
        ensures
            final(self).wf(),
            final(self)@ == spec_draw(old(self)@, x as int, y as int, sprite@).0,
            collision == spec_draw(old(self)@, x as int, y as int, sprite@).1,
            collision == spec_overlap(old(self)@, x as int, y as int, sprite@),
            final(self).dirty,
    {
        proof {
            lemma_collision_iff_overlap(old(self)@, x as int, y as int, sprite@);
        }
        let mut collision = false;
        let mut row: usize = 0;
        while row < sprite.len()
            invariant
                row <= sprite@.len(),
                sprite@.len() <= DISPLAY_HEIGHT,
                old(self)@.len() == DISPLAY_CELLS,
                self.pixels@.len() == DISPLAY_CELLS,
                self.dirty == old(self).dirty,
                self.pixels@ == draw_rows(old(self)@, x as int, y as int, sprite@, row as int).0,
                collision == draw_rows(old(self)@, x as int, y as int, sprite@, row as int).1,
            decreases sprite@.len() - row,
        {
            let b = sprite[row];
            let cy = (y as usize + row) % 32;
            let mut c: usize = 0;
            while c < 8
                invariant
                    c <= 8,
                    row < sprite@.len(),
                    sprite@.len() <= DISPLAY_HEIGHT,
                    b == sprite@[row as int],
                    cy == (y as int + row) % 32,
                    old(self)@.len() == DISPLAY_CELLS,
                    self.pixels@.len() == DISPLAY_CELLS,
                    self.dirty == old(self).dirty,
                    ({
                        let before = draw_rows(old(self)@, x as int, y as int, sprite@, row as int);
                        let within = draw_row(before.0, x as int, cy as int, b, c as int);
                        self.pixels@ == within.0 && collision == (before.1 || within.1)
                    }),
                decreases 8 - c,
            {
                proof {
                    lemma_draw_rows_pointwise(
                        old(self)@,
                        x as int,
                        y as int,
                        sprite@,
                        row as int,
                    );
                    lemma_draw_row_pointwise(
                        draw_rows(old(self)@, x as int, y as int, sprite@, row as int).0,
                        x as int,
                        cy as int,
                        b,
                        c as int,
                    );
                }
                let sh: u8 = (7 - c) as u8;
                if (b >> sh) & 1u8 == 1u8 {
                    let cx = (x as usize + c) % 64;
                    let ix = cy * 64 + cx;
                    let was_set = self.pixels[ix];
                    self.pixels[ix] = !was_set;
                    if was_set {
                        collision = true;
                    }
                }
                c = c + 1;
            }
            row = row + 1;
        }
        self.dirty = true;
        collision
    }
}

} // verus!
