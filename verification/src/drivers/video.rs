//! The frame buffer: a grid of pixels of 32 bits.

use vstd::prelude::*;

verus! {

/// A frame buffer and its geometry. `pitch` is the length of a row in
/// bytes, `bpp` the number of bits of a pixel.
#[derive(Debug)]
pub struct Framebuffer {
    pub width: usize,
    pub height: usize,
    pub bpp: usize,
    pub pitch: usize,
    /// The pixels, row after row; a row is `pitch / 4` pixels long.
    pub pixels: Vec<u32>,
}

/// Height of a character in pixels.
pub const FONT_HEIGHT: usize = 16;

/// Width of a character in pixels.
pub const FONT_WIDTH: usize = 8;

impl Framebuffer {
    /// The number of pixels in a row of the buffer.
    pub open spec fn stride(&self) -> int {
        self.pitch as int / 4
    }

    /// A frame buffer has pixels of 32 bits, rows that are long enough for
    /// its width, and as many rows as its height.
    pub open spec fn wf(&self) -> bool {
        &&& self.bpp == 32
        &&& self.pitch % 4 == 0
        &&& self.width <= self.stride()
        &&& self.pixels@.len() == self.stride() * self.height
    }

    /// The place of the pixel in column `x` of row `y` in the buffer.
    pub open spec fn index(&self, x: int, y: int) -> int {
        y * self.stride() + x
    }

    /// A black frame buffer of `width` by `height` pixels of `bpp` bits,
    /// with rows of `pitch` bytes.
    pub fn new(bpp: usize, pitch: usize, width: usize, height: usize) -> (r: Option<Self>)
        ensures
            match r {
                Some(fb) => fb.wf() && fb.width == width && fb.height == height && fb.pitch
                    == pitch && forall|i: int| 0 <= i < fb.pixels@.len() ==> fb.pixels@[i] == 0,
                None => bpp != 32 || pitch % 4 != 0 || width > pitch / 4 || (pitch / 4) * height
                    > usize::MAX,
            },
    {
        if bpp != 32 || pitch % 4 != 0 || width > pitch / 4 {
            return None;
        }
        let count = match (pitch / 4).checked_mul(height) {
            Some(count) => count,
            None => {
                return None;
            },
        };
        let mut pixels: Vec<u32> = Vec::new();
        let mut i: usize = 0;
        while i < count
            invariant
                i <= count,
                pixels@.len() == i,
                forall|k: int| 0 <= k < i ==> pixels@[k] == 0,
            decreases count - i,
        {
            pixels.push(0);
            i += 1;
        }
        Some(Framebuffer { width, height, bpp, pitch, pixels })
    }

    /// The size of the frame buffer in bytes; the largest number where the
    /// size is no number.
    pub fn len(&self) -> (r: usize)
        ensures
            r == if self.pitch * self.height <= usize::MAX {
                (self.pitch * self.height) as usize
            } else {
                usize::MAX
            },
    {
        match self.pitch.checked_mul(self.height) {
            Some(len) => len,
            None => usize::MAX,
        }
    }

    /// Gives the pixel in column `x` of row `y` the colour `color`. A pixel
    /// outside the screen is passed over.
    pub fn put_pixel(&mut self, x: u32, y: u32, color: u32)
        requires
            old(self).wf(),
        ensures
            final(self).wf(),
            final(self).width == old(self).width,
            final(self).height == old(self).height,
            final(self).pitch == old(self).pitch,
            final(self).pixels@ == if x < old(self).width && y < old(self).height {
                old(self).pixels@.update(old(self).index(x as int, y as int), color)
            } else {
                old(self).pixels@
            },
    {
        if (x as usize) < self.width && (y as usize) < self.height {
            let stride = self.pitch / 4;
            assert(y * stride + x < stride * self.height && 0 <= y * stride) by (nonlinear_arith)
                requires
                    0 <= x < self.width <= stride,
                    0 <= y < self.height,
            ;
            let count = self.pixels.len();
            assert(stride * self.height == count);
            assert(y * stride <= y * stride + x < count);
            let at = y as usize * stride + x as usize;
            self.pixels.set(at, color);
        }
    }

    /// Gives every pixel of the buffer the colour `color`.
    pub fn fill_screen(&mut self, color: u32)
        requires
            old(self).wf(),
        ensures
            final(self).wf(),
            final(self).width == old(self).width,
            final(self).height == old(self).height,
            final(self).pitch == old(self).pitch,
            forall|i: int| 0 <= i < final(self).pixels@.len() ==> final(self).pixels@[i] == color,
    {
        let mut i: usize = 0;
        while i < self.pixels.len()
            invariant
                i <= self.pixels.len(),
                self.wf(),
                self.width == old(self).width,
                self.height == old(self).height,
                self.pitch == old(self).pitch,
                forall|k: int| 0 <= k < i ==> self.pixels@[k] == color,
            decreases self.pixels.len() - i,
        {
            self.pixels.set(i, color);
            i += 1;
        }
    }

    /// Copies `buffer` over the start of the frame buffer, as far as both
    /// reach.
    pub fn blit_screen(&mut self, buffer: &[u32])
        requires
            old(self).wf(),
        ensures
            final(self).wf(),
            final(self).width == old(self).width,
            final(self).height == old(self).height,
            final(self).pitch == old(self).pitch,
            forall|i: int|
                0 <= i < final(self).pixels@.len() ==> final(self).pixels@[i] == if i
                    < buffer@.len() {
                    buffer@[i]
                } else {
                    old(self).pixels@[i]
                },
    {
        let mut i: usize = 0;
        while i < self.pixels.len() && i < buffer.len()
            invariant
                i <= self.pixels.len(),
                i <= buffer.len(),
                self.wf(),
                self.width == old(self).width,
                self.height == old(self).height,
                self.pitch == old(self).pitch,
                self.pixels@.len() == old(self).pixels@.len(),
                forall|k: int|
                    0 <= k < self.pixels@.len() ==> self.pixels@[k] == if k < i {
                        buffer@[k]
                    } else {
                        old(self).pixels@[k]
                    },
            decreases self.pixels.len() - i,
        {
            self.pixels.set(i, buffer[i]);
            i += 1;
        }
    }
}

/// Whether the pixel in column `col` of the row `row_bits` of a character
/// is set: the leftmost column is the most significant bit.
pub open spec fn glyph_bit(row_bits: u8, col: int) -> bool {
    (row_bits >> ((7 - col) as u8)) & 0x01 == 1
}

/// A pixel of a character: where it lies and which colour it has.
#[derive(Clone, Copy, Debug, PartialEq, Eq, Structural)]
pub struct Pixel {
    pub x: u32,
    pub y: u32,
    pub color: u32,
}

/// The pixel in column `col` of row `row` of the character with the rows
/// `rows`, drawn in the cell `(cx, cy)` of the screen in the colours `fg`
/// and `bg`: cells are 8 pixels wide and 16 pixels high, and the
/// coordinates wrap round at 16 bits.
pub open spec fn char_pixel(rows: Seq<u8>, cx: u16, cy: u16, fg: u32, bg: u32, row: int, col: int) -> Pixel {
    Pixel {
        x: ((cx as int * 8 + col) % 0x1_0000) as u32,
        y: ((cy as int * 16 + row) % 0x1_0000) as u32,
        color: if glyph_bit(rows[row], col) {
            fg
        } else {
            bg
        },
    }
}

/// The pixels of a character, row after row; see [`char_pixel`]. `rows`
/// holds the rows of the character, one byte each.
pub fn put_char(rows: &[u8], cx: u16, cy: u16, fg: u32, bg: u32) -> (r: Vec<Pixel>)
    ensures
        r@.len() == rows@.len() * 8,
        forall|row: int, col: int|
            0 <= row < rows@.len() && 0 <= col < 8 ==> #[trigger] r@[row * 8 + col] == char_pixel(
                rows@,
                cx,
                cy,
                fg,
                bg,
                row,
                col,
            ),
{
    let mut out: Vec<Pixel> = Vec::new();
    let mut row: usize = 0;
    while row < rows.len()
        invariant
            row <= rows.len(),
            out@.len() == row * 8,
            forall|r0: int, col: int|
                0 <= r0 < row && 0 <= col < 8 ==> #[trigger] out@[r0 * 8 + col] == char_pixel(
                    rows@,
                    cx,
                    cy,
                    fg,
                    bg,
                    r0,
                    col,
                ),
        decreases rows.len() - row,
    {
        let character_byte = rows[row];
        let ghost before = out@;
        let mut col: usize = 0;
        while col < 8
            invariant
                col <= 8,
                row < rows.len(),
                character_byte == rows@[row as int],
                before.len() == row * 8,
                out@.len() == row * 8 + col,
                forall|k: int| 0 <= k < before.len() ==> out@[k] == before[k],
                forall|c: int|
                    0 <= c < col ==> #[trigger] out@[row * 8 + c] == char_pixel(
                        rows@,
                        cx,
                        cy,
                        fg,
                        bg,
                        row as int,
                        c,
                    ),
            decreases 8 - col,
        {
            let pixel = (character_byte >> ((7 - col) as u8)) & 0x01;

            let x = ((cx as u128 * 8 + col as u128) % 0x1_0000) as u32;
            let y = ((cy as u128 * 16 + row as u128) % 0x1_0000) as u32;

            if pixel == 1 {
                out.push(Pixel { x, y, color: fg });
            } else {
                out.push(Pixel { x, y, color: bg });
            }
            col += 1;
        }
        proof {
            assert forall|r0: int, c: int| 0 <= r0 < row + 1 && 0 <= c < 8 implies #[trigger] out@[r0
                * 8 + c] == char_pixel(rows@, cx, cy, fg, bg, r0, c) by {
                if r0 < row {
                    assert(before[r0 * 8 + c] == char_pixel(rows@, cx, cy, fg, bg, r0, c));
                }
            }
        }
        row += 1;
    }
    out
}

/// The pixels of the character with the rows `rows`, row after row; see
/// [`char_pixel`].
pub open spec fn char_pixels(rows: Seq<u8>, cx: u16, cy: u16, fg: u32, bg: u32) -> Seq<Pixel> {
    Seq::new(rows.len() * 8, |i: int| char_pixel(rows, cx, cy, fg, bg, i / 8, i % 8))
}

/// What the screen shows at first: the prompt and a blank after it, in
/// white on black, at the start of the first row. `prompt` and `blank`
/// hold the rows of the two characters.
pub fn init_video(prompt: &[u8], blank: &[u8]) -> (r: Vec<Pixel>)
    ensures
        r@ == char_pixels(prompt@, 0, 0, 0xFFFFFF, 0x000000) + char_pixels(
            blank@,
            1,
            0,
            0xFFFFFF,
            0x000000,
        ),
{
    let mut pixels = put_char(prompt, 0, 0, 0xFFFFFF, 0x000000);
    let ghost first = pixels@;
    let second = put_char(blank, 1, 0, 0xFFFFFF, 0x000000);
    let mut i: usize = 0;
    while i < second.len()
        invariant
            i <= second@.len(),
            pixels@ == first + second@.take(i as int),
        decreases second@.len() - i,
    {
        proof {
            assert((first + second@.take(i as int)).push(second@[i as int]) =~= first
                + second@.take(i + 1));
        }
        pixels.push(second[i]);
        i += 1;
    }
    proof {
        assert(second@.take(second@.len() as int) =~= second@);
        assert forall|k: int| 0 <= k < first.len() implies first[k] == char_pixels(
            prompt@,
            0,
            0,
            0xFFFFFF,
            0x000000,
        )[k] by {
            assert(first[(k / 8) * 8 + k % 8] == char_pixel(
                prompt@,
                0,
                0,
                0xFFFFFF,
                0x000000,
                k / 8,
                k % 8,
            ));
        }
        assert forall|k: int| 0 <= k < second@.len() implies second@[k] == char_pixels(
            blank@,
            1,
            0,
            0xFFFFFF,
            0x000000,
        )[k] by {
            assert(second@[(k / 8) * 8 + k % 8] == char_pixel(
                blank@,
                1,
                0,
                0xFFFFFF,
                0x000000,
                k / 8,
                k % 8,
            ));
        }
        assert(first =~= char_pixels(prompt@, 0, 0, 0xFFFFFF, 0x000000));
        assert(second@ =~= char_pixels(blank@, 1, 0, 0xFFFFFF, 0x000000));
    }
    pixels
}

} // verus!
