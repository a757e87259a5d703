use vstd::prelude::*;

verus! {

/// The color of one QR module, as the symbol encoder reports it.
#[derive(Clone, Copy, Debug, PartialEq, Eq, Structural)]
pub enum ModuleColor {
    Light,
    Dark,
}

/// One pixel of a [`BitCanvas`]; light modules are the lit ones.
#[derive(Clone, Copy, Debug, PartialEq, Eq, Structural)]
pub struct BitPixel(bool);

impl BitPixel {
    /// Whether this pixel stands for a lit dot.
    pub closed spec fn lit(self) -> bool {
        self.0
    }

    /// The pixel that a module of `color` maps to: light modules are lit,
    /// dark modules are not.
    pub fn default_color(color: ModuleColor) -> (pixel: BitPixel)
        ensures
            pixel.lit() == (color == ModuleColor::Light),
    {
        match color {
            ModuleColor::Light => BitPixel(true),
            ModuleColor::Dark => BitPixel(false),
        }
    }
}

/// Whether bit `k` (0 is the least significant) of `b` is set.
pub open spec fn bit_set(b: u8, k: u32) -> bool {
    (b >> k) & 1 == 1
}

/// `width` rounded up to the next multiple of eight.
pub open spec fn round_up_to_byte(width: int) -> int {
    if width % 8 == 0 {
        width
    } else {
        width + (8 - width % 8)
    }
}

/// Where pixel `(x, y)` lives in a bitmap whose rows are `width` pixels wide:
/// its byte, with the leftmost pixel in the most significant bit.
pub open spec fn byte_index(width: int, x: int, y: int) -> int {
    y * (width / 8) + x / 8
}

/// Which bit of its byte pixel `x` of a row occupies.
pub open spec fn bit_index(x: int) -> u32 {
    (7 - x % 8) as u32
}

/// A one-bit-per-pixel image, rows padded to whole bytes, most significant
/// bit first, a set bit for each dark module drawn.
pub struct BitCanvas {
    data: Vec<u8>,
    width: usize,
    height: usize,
}

proof fn lemma_index_in_bounds(width: int, height: int, x: int, y: int)
    requires
        width % 8 == 0,
        0 <= x < width,
        0 <= y < height,
    ensures
        0 <= y * (width / 8) <= byte_index(width, x, y) < width * height / 8,
        width * height / 8 == (width / 8) * height,
{
    let w8 = width / 8;
    assert(width == w8 * 8);
    assert(width * height == (w8 * height) * 8) by (nonlinear_arith)
        requires
            width == w8 * 8,
    ;
    assert(0 <= x / 8 < w8);
    assert(y * w8 + w8 <= height * w8) by (nonlinear_arith)
        requires
            0 <= y < height,
            0 <= w8,
    ;
    assert(0 <= y * w8) by (nonlinear_arith)
        requires
            0 <= y,
            0 <= w8,
    ;
}

pub(crate) proof fn lemma_index_injective(width: int, x1: int, y1: int, x2: int, y2: int)
    requires
        width % 8 == 0,
        0 <= x1 < width,
        0 <= x2 < width,
        0 <= y1,
        0 <= y2,
        byte_index(width, x1, y1) == byte_index(width, x2, y2),
    ensures
        y1 == y2,
        x1 / 8 == x2 / 8,
{
    let w8 = width / 8;
    assert(0 <= x1 / 8 < w8);
    assert(0 <= x2 / 8 < w8);
    if y1 < y2 {
        assert(y1 * w8 + w8 <= y2 * w8) by (nonlinear_arith)
            requires
                y1 < y2,
                0 <= w8,
        ;
    } else if y2 < y1 {
        assert(y2 * w8 + w8 <= y1 * w8) by (nonlinear_arith)
            requires
                y2 < y1,
                0 <= w8,
        ;
    }
}

pub(crate) proof fn lemma_or_bit(b: u8, j: u32, k: u32)
    requires
        j < 8,
        k < 8,
    ensures
        bit_set(b | (1u8 << j), k) == (bit_set(b, k) || k == j),
{
    assert(bit_set(b | (1u8 << j), k) == (bit_set(b, k) || k == j)) by (bit_vector)
        requires
            j < 8,
            k < 8,
    ;
}

pub(crate) proof fn lemma_zero_has_no_bits(k: u32)
    requires
        k < 8,
    ensures
        !bit_set(0u8, k),
{
    assert(!bit_set(0u8, k)) by (bit_vector)
        requires
            k < 8,
    ;
}

impl BitCanvas {
    /// The canvas is consistent: whole-byte rows and one byte per eight
    /// pixels.
    pub closed spec fn wf(&self) -> bool {
        &&& self.width % 8 == 0
        &&& self.width <= u32::MAX
        &&& self.data@.len() == self.width * self.height / 8
        &&& self.data@.len() <= usize::MAX
    }

    /// Row width in pixels, a multiple of eight.
    pub closed spec fn pixel_width(&self) -> nat {
        self.width as nat
    }

    /// Number of rows.
    pub closed spec fn pixel_height(&self) -> nat {
        self.height as nat
    }

    /// The packed bitmap, row after row.
    pub closed spec fn bytes(&self) -> Seq<u8> {
        self.data@
    }

    /// Whether pixel `(x, y)` is dark (its bit is set).
    pub open spec fn is_dark(&self, x: int, y: int) -> bool {
        bit_set(self.bytes()[byte_index(self.pixel_width() as int, x, y)], bit_index(x))
    }

    /// A blank canvas for an image of `width` by `height` pixels; the width
    /// is rounded up to a whole number of bytes. The two pixel values are
    /// not used: a blank canvas is all zero bits and dark pixels set bits.
    pub fn new(width: u32, height: u32, dark_pixel: BitPixel, light_pixel: BitPixel) -> (canvas: BitCanvas)
        requires
            round_up_to_byte(width as int) <= u32::MAX,
            round_up_to_byte(width as int) * height <= usize::MAX,
        ensures
            canvas.wf(),
            canvas.pixel_width() == round_up_to_byte(width as int),
            canvas.pixel_height() == height,
            canvas.bytes().len() == canvas.pixel_width() * canvas.pixel_height() / 8,
            forall|i: int| 0 <= i < canvas.bytes().len() ==> #[trigger] canvas.bytes()[i] == 0,
    {
        let rounded: u32 = if width % 8 == 0 {
            width
        } else {
            width + (8 - width % 8)
        };
        let width = rounded as usize;
        let height = height as usize;
        proof {
            assert(width * height <= usize::MAX);
        }
        let len = width * height / 8;
        let data = vec![0u8; len];
        let canvas = BitCanvas { data, width, height };
        assert forall|i: int| 0 <= i < canvas.bytes().len() implies #[trigger] canvas.bytes()[i] == 0 by {
            assert(cloned(0u8, data@[i]));
        }
        canvas
    }

    /// Sets the bit of pixel `(x, y)`.
    pub fn draw_dark_pixel(&mut self, x: u32, y: u32)
        requires
            old(self).wf(),
            x < old(self).pixel_width(),
            y < old(self).pixel_height(),
        ensures
            final(self).wf(),
            final(self).pixel_width() == old(self).pixel_width(),
            final(self).pixel_height() == old(self).pixel_height(),
            final(self).bytes() == old(self).bytes().update(
                byte_index(old(self).pixel_width() as int, x as int, y as int),
                old(self).bytes()[byte_index(old(self).pixel_width() as int, x as int, y as int)]
                    | (1u8 << bit_index(x as int)),
            ),
            final(self).is_dark(x as int, y as int),
            forall|px: int, py: int|
                0 <= px < final(self).pixel_width() && 0 <= py < final(self).pixel_height()
                    && (px != x || py != y) ==> #[trigger] final(self).is_dark(px, py) == old(
                    self,
                ).is_dark(px, py),
    {
        proof {
            lemma_index_in_bounds(self.width as int, self.height as int, x as int, y as int);
            assert(self.data@.len() <= usize::MAX);
            assert(byte_index(self.width as int, x as int, y as int) < self.data@.len());
            assert((y as usize) * (self.width / 8) == (y as int) * (self.width as int / 8));
        }
        let index = y as usize * (self.width / 8) + (x as usize / 8);
        let shift: u32 = 7 - x % 8;
        let mask: u8 = 1u8 << shift;
        let old_byte = self.data[index];
        self.data.set(index, old_byte | mask);
        proof {
            lemma_or_bit(old_byte, shift, shift);
            let w = self.width as int;
            assert forall|px: int, py: int|
                0 <= px < self.pixel_width() && 0 <= py < self.pixel_height() && (px != x || py
                    != y) implies #[trigger] self.is_dark(px, py) == old(self).is_dark(px, py) by {
                lemma_index_in_bounds(w, self.height as int, px, py);
                if byte_index(w, px, py) == index {
                    lemma_index_injective(w, px, py, x as int, y as int);
                    lemma_or_bit(old_byte, shift, bit_index(px));
                }
            }
        }
    }

    /// Row width in pixels.
    pub fn width(&self) -> (w: usize)
        ensures
            w == self.pixel_width(),
    {
        self.width
    }

    /// Number of rows.
    pub fn height(&self) -> (h: usize)
        ensures
            h == self.pixel_height(),
    {
        self.height
    }

    /// The finished image is the canvas itself.
    pub fn into_image(self) -> (image: BitCanvas)
        ensures
            image == self,
    {
        self
    }

    /// Copies as much of the bitmap as fits into `buf_ref`, from its start,
    /// leaves the rest of `buf_ref` as it was, and returns the row width in
    /// pixels.
    pub fn set_bytearray(&self, buf_ref: &mut [u8]) -> (row_width: u32)
        requires
            self.wf(),
        ensures
            row_width == self.pixel_width(),
            final(buf_ref)@.len() == old(buf_ref)@.len(),
            forall|i: int|
                0 <= i < final(buf_ref)@.len() ==> #[trigger] final(buf_ref)@[i] == if i
                    < self.bytes().len() {
                    self.bytes()[i]
                } else {
                    old(buf_ref)@[i]
                },
    {
        let len = if buf_ref.len() < self.data.len() {
            buf_ref.len()
        } else {
            self.data.len()
        };
        let mut i: usize = 0;
        while i < len
            invariant
                len <= buf_ref@.len(),
                len <= self.data@.len(),
                len == buf_ref@.len() || len == self.data@.len(),
                i <= len,
                buf_ref@.len() == old(buf_ref)@.len(),
                forall|k: int| 0 <= k < i ==> #[trigger] buf_ref@[k] == self.data@[k],
                forall|k: int| i <= k < buf_ref@.len() ==> #[trigger] buf_ref@[k] == old(buf_ref)@[k],
            decreases len - i,
        {
            buf_ref[i] = self.data[i];
            i += 1;
        }
        self.width as u32
    }
}

/// A blank canvas has no dark pixel.
pub proof fn lemma_blank_canvas_is_light(canvas: BitCanvas, x: int, y: int)
    requires
        canvas.wf(),
        forall|i: int| 0 <= i < canvas.bytes().len() ==> #[trigger] canvas.bytes()[i] == 0,
        0 <= x < canvas.pixel_width(),
        0 <= y < canvas.pixel_height(),
    ensures
        !canvas.is_dark(x, y),
{
    lemma_index_in_bounds(canvas.pixel_width() as int, canvas.pixel_height() as int, x, y);
    lemma_zero_has_no_bits(bit_index(x));
}

} // verus!
