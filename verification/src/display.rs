//! The 64 by 32 monochrome framebuffer.

use vstd::prelude::*;

verus! {

/// Width of the screen in pixels.
pub const WIDTH: usize = 64;

/// Height of the screen in pixels.
pub const HEIGHT: usize = 32;

/// Number of pixels on the screen.
pub const PIXEL_COUNT: usize = 2048;

/// State of one pixel.
#[derive(Clone, Copy, Debug, PartialEq, Eq, PartialOrd, Structural)]
pub enum Pixel {
    Off,
    On,
}

impl Pixel {
    /// The pixel as it is stored: 0 for off, 1 for on.
    pub fn as_bit(self) -> (r: u8)
        ensures
            r == if self is On { 1u8 } else { 0u8 },
    {
        match self {
            Pixel::Off => 0,
            Pixel::On => 1,
        }
    }
}

impl From<u8> for Pixel {
    /// Zero is off; every other value is on.
    fn from(v: u8) -> (r: Pixel) {
        if v == 0 {
            Pixel::Off
        } else {
            Pixel::On
        }
    }
}

impl vstd::std_specs::convert::FromSpecImpl<u8> for Pixel {
    open spec fn obeys_from_spec() -> bool {
        true
    }

    open spec fn from_spec(v: u8) -> Pixel {
        if v == 0 {
            Pixel::Off
        } else {
            Pixel::On
        }
    }
}

/// The screen with every pixel off.
pub open spec fn blank_screen() -> Seq<bool> {
    Seq::new(PIXEL_COUNT as nat, |p: int| false)
}

/// The screen `pixels` as packed 24-bit RGB: three bytes per pixel, those of `front` for a
/// pixel that is on and those of `back` for one that is off.
pub open spec fn rgb24(pixels: Seq<bool>, front: Seq<u8>, back: Seq<u8>) -> Seq<u8> {
    Seq::new(
        3 * pixels.len(),
        |k: int|
            if pixels[k / 3] {
                front[k % 3]
            } else {
                back[k % 3]
            },
    )
}

/// Position of the pixel in column `x` of row `y` within the row-major grid.
pub open spec fn pixel_index(x: int, y: int) -> int {
    x + y * 64
}

/// Whether bit `col` of a sprite row is set; column 0 is the most significant bit.
pub open spec fn sprite_bit(bits: u8, col: int) -> bool {
    (bits >> ((7 - col) as u8)) & 1 == 1
}

/// Whether the sprite row `bits`, drawn with its left edge at column `x` of row `y`, has a set
/// bit that lands on the pixel `(px, py)`. Coordinates wrap around both screen edges.
pub open spec fn row_covers(x: int, y: int, bits: u8, px: int, py: int) -> bool {
    &&& py == y % 32
    &&& (px - x) % 64 < 8
    &&& sprite_bit(bits, (px - x) % 64)
}

/// The screen after one sprite row is XOR-ed onto it: exactly the covered pixels flip.
pub open spec fn draw_row(pixels: Seq<bool>, x: int, y: int, bits: u8) -> Seq<bool> {
    Seq::new(pixels.len(), |p: int| pixels[p] != row_covers(x, y, bits, p % 64, p / 64))
}

/// Whether drawing one sprite row turns off a pixel that was on.
pub open spec fn row_collides(pixels: Seq<bool>, x: int, y: int, bits: u8) -> bool {
    exists|p: int| 0 <= p < pixels.len() && pixels[p] && row_covers(x, y, bits, p % 64, p / 64)
}

/// The screen after the rows of `sprite` are drawn in order, the first at `(x, y)` and each
/// following one a row further down.
pub open spec fn draw_sprite(pixels: Seq<bool>, x: int, y: int, sprite: Seq<u8>) -> Seq<bool>
    decreases sprite.len(),
{
    if sprite.len() == 0 {
        pixels
    } else {
        draw_row(
            draw_sprite(pixels, x, y, sprite.drop_last()),
            x,
            y + sprite.len() - 1,
            sprite.last(),
        )
    }
}

/// Whether drawing `sprite` at `(x, y)` turns off, at any step, a pixel that was on just
/// before that step.
pub open spec fn sprite_collides(pixels: Seq<bool>, x: int, y: int, sprite: Seq<u8>) -> bool
    decreases sprite.len(),
{
    if sprite.len() == 0 {
        false
    } else {
        sprite_collides(pixels, x, y, sprite.drop_last()) || row_collides(
            draw_sprite(pixels, x, y, sprite.drop_last()),
            x,
            y + sprite.len() - 1,
            sprite.last(),
        )
    }
}

/// The screen: a grid of `WIDTH` by `HEIGHT` pixels, each on or off.
pub struct Display {
    memory: [u8; 2048],
}

impl View for Display {
    type V = Seq<bool>;

    closed spec fn view(&self) -> Seq<bool> {
        Seq::new(PIXEL_COUNT as nat, |p: int| self.memory[p] != 0)
    }
}

impl Display {
    #[verifier::type_invariant]
    spec fn cells_are_bits(&self) -> bool {
        forall|p: int| 0 <= p < PIXEL_COUNT ==> self.memory[p] <= 1
    }

    /// A screen has `PIXEL_COUNT` pixels.
    pub proof fn lemma_pixel_count(&self)
        ensures
            self@.len() == PIXEL_COUNT,
    {
    }

    /// A screen with every pixel off.
    pub fn new() -> (r: Display)
        ensures
            r@ == blank_screen(),
    {
        let r = Display { memory: [0; 2048] };
        assert(r@ =~= blank_screen());
        r
    }

    /// Sets the pixel in column `x` of row `y`. The coordinates are not wrapped: they index
    /// the row-major grid directly and must stay inside it.
    pub fn set_pixel(&mut self, x: usize, y: usize, new_pixel: Pixel)
        requires
            pixel_index(x as int, y as int) < PIXEL_COUNT,
        ensures
            final(self)@ == old(self)@.update(pixel_index(x as int, y as int), new_pixel is On),
    {
        proof {
            use_type_invariant(&*self);
        }
        self.memory[x + y * WIDTH] = new_pixel.as_bit();
        assert(self@ =~= old(self)@.update(pixel_index(x as int, y as int), new_pixel is On));
    }

    /// The pixel in column `x` of row `y`. The coordinates are not wrapped: they index the
    /// row-major grid directly and must stay inside it.
    pub fn get_pixel(&self, x: usize, y: usize) -> (r: Pixel)
        requires
            pixel_index(x as int, y as int) < PIXEL_COUNT,
        ensures
            r is On == self@[pixel_index(x as int, y as int)],
    {
        Pixel::from(self.memory[x + y * WIDTH])
    }

    /// Turns every pixel off.
    pub fn clear_screen(&mut self)
        ensures
            final(self)@ == blank_screen(),
    {
        self.memory = [0; 2048];
        assert(self@ =~= blank_screen());
    }

    /// Whether the pixel in column `x` of row `y` is on. The coordinates are not wrapped.
    pub fn is_pixel_set(&self, x: usize, y: usize) -> (r: bool)
        requires
            pixel_index(x as int, y as int) < PIXEL_COUNT,
        ensures
            r == self@[pixel_index(x as int, y as int)],
    {
        self.get_pixel(x, y) == Pixel::On
    }

    /// XOR-draws `sprite` with its top-left corner at `(x, y)`, wrapping around the screen
    /// edges, and reports whether any pixel that was on has been turned off.
    pub fn draw(&mut self, x: usize, y: usize, sprite: &[u8]) -> (collided: bool)
        ensures
            final(self)@ == draw_sprite(old(self)@, x as int, y as int, sprite@),
            collided == sprite_collides(old(self)@, x as int, y as int, sprite@),
    {
        let mut collision = false;
        let mut j: usize = 0;
        assert(sprite@.take(0) =~= Seq::<u8>::empty());
        while j < sprite.len()
            invariant
                j <= sprite.len(),
                self@.len() == PIXEL_COUNT,
                self@ == draw_sprite(old(self)@, x as int, y as int, sprite@.take(j as int)),
                collision == sprite_collides(
                    old(self)@,
                    x as int,
                    y as int,
                    sprite@.take(j as int),
                ),
            decreases sprite.len() - j,
        {
            let row = sprite[j];
            let ghost start = self@;
            let ghost collided_before = collision;
            let yj = (y % HEIGHT + j % HEIGHT) % HEIGHT;
            let mut i: usize = 0;
            proof {
                lemma_draw_row_bounds(start, x as int, y + j, row);
            }
            while i < 8
                invariant
                    i <= 8,
                    yj == (y + j) % 32,
                    start.len() == PIXEL_COUNT,
                    self@ == draw_row_upto(start, x as int, y + j, row, i as int),
                    collision == (collided_before || row_collides_upto(
                        start,
                        x as int,
                        y + j,
                        row,
                        i as int,
                    )),
                decreases 8 - i,
            {
                let new_value = (row >> ((7 - i) as u8)) & 0x01;
                let xi = (x % WIDTH + i) % WIDTH;
                proof {
                    lemma_draw_bit(
                        start,
                        x as int,
                        y + j,
                        row,
                        i as int,
                        pixel_index(xi as int, yj as int),
                    );
                }
                if new_value == 1 {
                    let old_value = self.get_pixel(xi, yj);
                    let flipped = match old_value {
                        Pixel::On => {
                            collision = true;
                            Pixel::Off
                        },
                        Pixel::Off => Pixel::On,
                    };
                    self.set_pixel(xi, yj, flipped);
                }
                i += 1;
            }
            proof {
                lemma_draw_row_bounds(start, x as int, y + j, row);
                let prefix = sprite@.take(j + 1);
                assert(prefix.drop_last() =~= sprite@.take(j as int));
                assert(prefix.last() == row);
            }
            j += 1;
        }
        assert(sprite@.take(sprite.len() as int) =~= sprite@);
        collision
    }

    /// The screen as packed 24-bit RGB, three bytes per pixel in row-major order: `front`
    /// for a pixel that is on, `back` for one that is off.
    pub fn to_rgb24(&self, front: [u8; 3], back: [u8; 3]) -> (r: Vec<u8>)
        ensures
            r@ == rgb24(self@, front@, back@),
    {
        let mut buffer: Vec<u8> = Vec::new();
        let mut p: usize = 0;
        while p < PIXEL_COUNT
            invariant
                p <= PIXEL_COUNT,
                self@.len() == PIXEL_COUNT,
                buffer@ == rgb24(self@, front@, back@).take(3 * p),
            decreases PIXEL_COUNT - p,
        {
            let color = if self.memory[p] != 0 { &front } else { &back };
            buffer.push(color[0]);
            buffer.push(color[1]);
            buffer.push(color[2]);
            p += 1;
            assert(buffer@ =~= rgb24(self@, front@, back@).take(3 * p));
        }
        assert(buffer@ =~= rgb24(self@, front@, back@));
        buffer
    }

    /// The raw framebuffer, one byte per pixel in row-major order: 1 for on, 0 for off.
    pub fn get_video_mem(&self) -> (r: &[u8; 2048])
        ensures
            forall|p: int| 0 <= p < PIXEL_COUNT ==> r[p] == if self@[p] { 1u8 } else { 0u8 },
    {
        proof {
            use_type_invariant(&*self);
        }
        &self.memory
    }
}

impl Default for Display {
    /// A screen with every pixel off.
    fn default() -> (r: Display)
        ensures
            r@ == blank_screen(),
    {
        Display::new()
    }
}

/// A pixel is covered by a sprite row exactly when it is the wrapped target
/// `((x + col) mod 64, y mod 32)` of one of the row's set bits.
pub proof fn lemma_row_covers_target(x: int, y: int, bits: u8, px: int, py: int)
    requires
        0 <= px < WIDTH,
    ensures
        row_covers(x, y, bits, px, py) <==> exists|col: int|
            0 <= col < 8 && #[trigger] sprite_bit(bits, col) && px == (x + col) % 64 && py == y
                % 32,
{
    if row_covers(x, y, bits, px, py) {
        let col = (px - x) % 64;
        assert(sprite_bit(bits, col) && px == (x + col) % 64);
    }
}

/// Whether the pixel `(px, py)` is flipped an odd number of times when `sprite` is drawn at
/// `(x, y)`. A sprite taller than the screen wraps onto its own rows, so that a pixel may be
/// flipped more than once.
pub open spec fn sprite_flips(x: int, y: int, sprite: Seq<u8>, px: int, py: int) -> bool
    decreases sprite.len(),
{
    if sprite.len() == 0 {
        false
    } else {
        sprite_flips(x, y, sprite.drop_last(), px, py) != row_covers(
            x,
            y + sprite.len() - 1,
            sprite.last(),
            px,
            py,
        )
    }
}

/// Whether a sprite of at most 32 rows, drawn at `(x, y)`, has a set bit on the pixel
/// `(px, py)`: the one row that can reach the pixel's screen row is looked up directly.
pub open spec fn sprite_covers(x: int, y: int, sprite: Seq<u8>, px: int, py: int) -> bool {
    let row = (py - y) % 32;
    row < sprite.len() && row_covers(x, y + row, sprite[row], px, py)
}

/// Drawing a sprite keeps the size of the screen and changes each pixel by exactly the
/// parity of the sprite bits that land on it.
pub proof fn lemma_draw_sprite_pixels(pixels: Seq<bool>, x: int, y: int, sprite: Seq<u8>)
    ensures
        draw_sprite(pixels, x, y, sprite).len() == pixels.len(),
        forall|p: int|
            0 <= p < pixels.len() ==> #[trigger] draw_sprite(pixels, x, y, sprite)[p] == (pixels[p]
                != sprite_flips(x, y, sprite, p % 64, p / 64)),
    decreases sprite.len(),
{
    if sprite.len() > 0 {
        lemma_draw_sprite_pixels(pixels, x, y, sprite.drop_last());
    }
}

/// Drawing the same sprite at the same position twice in succession restores the screen.
pub proof fn lemma_draw_twice_restores(pixels: Seq<bool>, x: int, y: int, sprite: Seq<u8>)
    ensures
        draw_sprite(draw_sprite(pixels, x, y, sprite), x, y, sprite) == pixels,
{
    let once = draw_sprite(pixels, x, y, sprite);
    let twice = draw_sprite(once, x, y, sprite);
    lemma_draw_sprite_pixels(pixels, x, y, sprite);
    lemma_draw_sprite_pixels(once, x, y, sprite);
    assert(twice =~= pixels);
}

/// A pixel that is on and that the sprite flips an odd number of times makes the draw
/// report a collision.
pub proof fn lemma_flipped_on_pixel_collides(
    pixels: Seq<bool>,
    x: int,
    y: int,
    sprite: Seq<u8>,
    p: int,
)
    requires
        0 <= p < pixels.len(),
        pixels[p],
        sprite_flips(x, y, sprite, p % 64, p / 64),
    ensures
        sprite_collides(pixels, x, y, sprite),
    decreases sprite.len(),
{
    let rest = sprite.drop_last();
    if sprite_flips(x, y, rest, p % 64, p / 64) {
        lemma_flipped_on_pixel_collides(pixels, x, y, rest, p);
    } else {
        lemma_draw_sprite_pixels(pixels, x, y, rest);
        assert(draw_sprite(pixels, x, y, rest)[p]);
        assert(row_collides(
            draw_sprite(pixels, x, y, rest),
            x,
            y + sprite.len() - 1,
            sprite.last(),
        ));
    }
}

/// If the first of two identical draws turned a pixel on, the second draw reports a
/// collision.
pub proof fn lemma_redraw_collides(pixels: Seq<bool>, x: int, y: int, sprite: Seq<u8>, p: int)
    requires
        0 <= p < pixels.len(),
        !pixels[p],
        draw_sprite(pixels, x, y, sprite)[p],
    ensures
        sprite_collides(draw_sprite(pixels, x, y, sprite), x, y, sprite),
{
    lemma_draw_sprite_pixels(pixels, x, y, sprite);
    lemma_flipped_on_pixel_collides(draw_sprite(pixels, x, y, sprite), x, y, sprite, p);
}

/// A sprite of at most 32 rows reaches each pixel with at most one of its bits.
pub proof fn lemma_short_sprite_flips(x: int, y: int, sprite: Seq<u8>, px: int, py: int)
    requires
        sprite.len() <= HEIGHT,
        0 <= py < HEIGHT,
    ensures
        sprite_flips(x, y, sprite, px, py) == sprite_covers(x, y, sprite, px, py),
    decreases sprite.len(),
{
    if sprite.len() > 0 {
        let rest = sprite.drop_last();
        lemma_short_sprite_flips(x, y, rest, px, py);
        let row = (py - y) % 32;
        let last = sprite.len() - 1;
        assert(py == (y + last) % 32 <==> row == last);
        if row < last {
            assert(rest[row] == sprite[row]);
        }
    }
}

/// Drawing a sprite of at most 32 rows flips exactly the pixels under its set bits, and
/// collides exactly when one of those pixels was on.
pub proof fn lemma_draw_short_sprite(pixels: Seq<bool>, x: int, y: int, sprite: Seq<u8>)
    requires
        pixels.len() == PIXEL_COUNT,
        sprite.len() <= HEIGHT,
    ensures
        draw_sprite(pixels, x, y, sprite) == Seq::new(
            PIXEL_COUNT as nat,
            |p: int| pixels[p] != sprite_covers(x, y, sprite, p % 64, p / 64),
        ),
        sprite_collides(pixels, x, y, sprite) == exists|p: int|
            0 <= p < PIXEL_COUNT && pixels[p] && #[trigger] sprite_covers(
                x,
                y,
                sprite,
                p % 64,
                p / 64,
            ),
    decreases sprite.len(),
{
    lemma_draw_sprite_pixels(pixels, x, y, sprite);
    assert forall|p: int| 0 <= p < PIXEL_COUNT implies sprite_flips(x, y, sprite, p % 64, p / 64)
        == #[trigger] sprite_covers(x, y, sprite, p % 64, p / 64) by {
        lemma_short_sprite_flips(x, y, sprite, p % 64, p / 64);
    }
    assert(draw_sprite(pixels, x, y, sprite) =~= Seq::new(
        PIXEL_COUNT as nat,
        |p: int| pixels[p] != sprite_covers(x, y, sprite, p % 64, p / 64),
    ));
    if sprite.len() > 0 {
        let rest = sprite.drop_last();
        let last = sprite.len() - 1;
        let before = draw_sprite(pixels, x, y, rest);
        lemma_draw_short_sprite(pixels, x, y, rest);
        lemma_draw_sprite_pixels(pixels, x, y, rest);
        assert forall|p: int| 0 <= p < PIXEL_COUNT implies (#[trigger] sprite_covers(
            x,
            y,
            sprite,
            p % 64,
            p / 64,
        ) == (sprite_covers(x, y, rest, p % 64, p / 64) || row_covers(
            x,
            y + last,
            sprite.last(),
            p % 64,
            p / 64,
        ))) && (row_covers(x, y + last, sprite.last(), p % 64, p / 64) ==> before[p]
            == pixels[p]) by {
            let row = (p / 64 - y) % 32;
            assert(p / 64 == (y + last) % 32 <==> row == last);
            if row < last {
                assert(rest[row] == sprite[row]);
            }
            lemma_short_sprite_flips(x, y, rest, p % 64, p / 64);
        }
        if sprite_collides(pixels, x, y, sprite) {
            if sprite_collides(pixels, x, y, rest) {
                let p = choose|p: int|
                    0 <= p < PIXEL_COUNT && pixels[p] && #[trigger] sprite_covers(
                        x,
                        y,
                        rest,
                        p % 64,
                        p / 64,
                    );
                assert(sprite_covers(x, y, sprite, p % 64, p / 64));
            } else {
                let p = choose|p: int|
                    0 <= p < before.len() && before[p] && row_covers(
                        x,
                        y + last,
                        sprite.last(),
                        p % 64,
                        p / 64,
                    );
                assert(sprite_covers(x, y, sprite, p % 64, p / 64));
            }
        }
        if exists|p: int|
            0 <= p < PIXEL_COUNT && pixels[p] && #[trigger] sprite_covers(
                x,
                y,
                sprite,
                p % 64,
                p / 64,
            ) {
            let p = choose|p: int|
                0 <= p < PIXEL_COUNT && pixels[p] && #[trigger] sprite_covers(
                    x,
                    y,
                    sprite,
                    p % 64,
                    p / 64,
                );
            if sprite_covers(x, y, rest, p % 64, p / 64) {
                assert(sprite_collides(pixels, x, y, rest));
            } else {
                assert(row_covers(x, y + last, sprite.last(), p % 64, p / 64));
                assert(row_collides(before, x, y + last, sprite.last()));
            }
        }
    }
}

/// `row_covers`, counting only the leftmost `ncols` bits of the row.
spec fn row_covers_upto(x: int, y: int, bits: u8, ncols: int, px: int, py: int) -> bool {
    row_covers(x, y, bits, px, py) && (px - x) % 64 < ncols
}

/// The screen on which the leftmost `ncols` bits of a sprite row have been drawn.
spec fn draw_row_upto(pixels: Seq<bool>, x: int, y: int, bits: u8, ncols: int) -> Seq<bool> {
    Seq::new(
        pixels.len(),
        |p: int| pixels[p] != row_covers_upto(x, y, bits, ncols, p % 64, p / 64),
    )
}

/// Whether one of the leftmost `ncols` bits of a sprite row lands on a pixel that is on.
spec fn row_collides_upto(pixels: Seq<bool>, x: int, y: int, bits: u8, ncols: int) -> bool {
    exists|p: int|
        0 <= p < pixels.len() && pixels[p] && row_covers_upto(x, y, bits, ncols, p % 64, p / 64)
}

/// Bit `col` of a row drawn at `(x, y)` lands on the pixel `target` and on no other.
proof fn lemma_bit_target(x: int, y: int, col: int, target: int, p: int)
    requires
        0 <= col < 8,
        target == pixel_index((x + col) % 64, y % 32),
        0 <= p < PIXEL_COUNT,
    ensures
        0 <= target < PIXEL_COUNT,
        p == target <==> ((p % 64 - x) % 64 == col && p / 64 == y % 32),
{
}

/// Drawing bit `col` of a row, after the bits to its left, flips its target pixel if the bit
/// is set and changes nothing otherwise.
proof fn lemma_draw_bit(pixels: Seq<bool>, x: int, y: int, bits: u8, col: int, target: int)
    requires
        pixels.len() == PIXEL_COUNT,
        0 <= col < 8,
        target == pixel_index((x + col) % 64, y % 32),
    ensures
        0 <= target < PIXEL_COUNT,
        draw_row_upto(pixels, x, y, bits, col)[target] == pixels[target],
        draw_row_upto(pixels, x, y, bits, col + 1) == if sprite_bit(bits, col) {
            draw_row_upto(pixels, x, y, bits, col).update(target, !pixels[target])
        } else {
            draw_row_upto(pixels, x, y, bits, col)
        },
        row_collides_upto(pixels, x, y, bits, col + 1) == (row_collides_upto(
            pixels,
            x,
            y,
            bits,
            col,
        ) || (sprite_bit(bits, col) && pixels[target])),
{
    let before = draw_row_upto(pixels, x, y, bits, col);
    let after = draw_row_upto(pixels, x, y, bits, col + 1);
    lemma_bit_target(x, y, col, target, target);
    assert forall|p: int| 0 <= p < PIXEL_COUNT implies #[trigger] after[p] == if sprite_bit(
        bits,
        col,
    ) && p == target {
        !pixels[target]
    } else {
        before[p]
    } by {
        lemma_bit_target(x, y, col, target, p);
    }
    if sprite_bit(bits, col) {
        assert(after =~= before.update(target, !pixels[target]));
    } else {
        assert(after =~= before);
    }
    if row_collides_upto(pixels, x, y, bits, col + 1) {
        let p = choose|p: int|
            0 <= p < pixels.len() && pixels[p] && row_covers_upto(
                x,
                y,
                bits,
                col + 1,
                p % 64,
                p / 64,
            );
        lemma_bit_target(x, y, col, target, p);
        if p != target {
            assert(row_covers_upto(x, y, bits, col, p % 64, p / 64));
        }
    }
    if row_collides_upto(pixels, x, y, bits, col) {
        let p = choose|p: int|
            0 <= p < pixels.len() && pixels[p] && row_covers_upto(
                x,
                y,
                bits,
                col,
                p % 64,
                p / 64,
            );
        assert(row_covers_upto(x, y, bits, col + 1, p % 64, p / 64));
    }
    if sprite_bit(bits, col) && pixels[target] {
        assert(row_covers_upto(x, y, bits, col + 1, target % 64, target / 64));
    }
}

/// Before any bit of a row is drawn the screen is unchanged; after all eight, the row is.
proof fn lemma_draw_row_bounds(pixels: Seq<bool>, x: int, y: int, bits: u8)
    ensures
        draw_row_upto(pixels, x, y, bits, 0) == pixels,
        !row_collides_upto(pixels, x, y, bits, 0),
        draw_row_upto(pixels, x, y, bits, 8) == draw_row(pixels, x, y, bits),
        row_collides_upto(pixels, x, y, bits, 8) == row_collides(pixels, x, y, bits),
{
    assert(draw_row_upto(pixels, x, y, bits, 0) =~= pixels);
    assert(draw_row_upto(pixels, x, y, bits, 8) =~= draw_row(pixels, x, y, bits));
    if row_collides(pixels, x, y, bits) {
        let p = choose|p: int|
            0 <= p < pixels.len() && pixels[p] && row_covers(x, y, bits, p % 64, p / 64);
        assert(row_covers_upto(x, y, bits, 8, p % 64, p / 64));
    }
}

} // verus!
