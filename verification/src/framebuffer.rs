//! A pixel grid of fixed size, row after row in one run of 16-bit words,
//! as a display controller reads it.

use vstd::prelude::*;
use crate::color::{swapped, swap_bytes, Rgb565};
use crate::engine::Point2;

verus! {

/// The word that is written for a colour: its storage word, with the two
/// bytes exchanged where the display wants the high byte first.
pub open spec fn stored_word(color: Rgb565, big_endian: bool) -> u16 {
    if big_endian {
        swapped(color.storage)
    } else {
        color.storage
    }
}

/// The position lies on a grid `w` wide and `h` high.
pub open spec fn in_bounds(w: int, h: int, x: int, y: int) -> bool {
    0 <= x < w && 0 <= y < h
}

/// The word of the pixel in column `x` of row `y`.
pub open spec fn pixel_at(words: Seq<u16>, w: int, x: int, y: int) -> u16 {
    words[y * w + x]
}

/// The grid after one pixel is set. A position off the grid changes
/// nothing.
pub open spec fn plot(words: Seq<u16>, w: int, h: int, x: int, y: int, word: u16) -> Seq<u16> {
    if in_bounds(w, h, x, y) {
        words.update(y * w + x, word)
    } else {
        words
    }
}

/// A position on the grid has a word of its own.
pub proof fn lemma_index_in_range(w: int, h: int, x: int, y: int)
    requires
        in_bounds(w, h, x, y),
    ensures
        0 <= y * w <= y * w + x < w * h,
{
    assert(0 <= y * w && (y + 1) * w <= h * w && (y + 1) * w == y * w + w && h * w == w * h)
        by (nonlinear_arith)
        requires
            0 <= y < h,
            0 < w,
    ;
}

/// Two positions on the grid that share a word are the same position.
pub proof fn lemma_index_unique(w: int, h: int, x1: int, y1: int, x2: int, y2: int)
    requires
        in_bounds(w, h, x1, y1),
        in_bounds(w, h, x2, y2),
        y1 * w + x1 == y2 * w + x2,
    ensures
        x1 == x2,
        y1 == y2,
{
    if y1 < y2 {
        assert((y1 + 1) * w <= y2 * w && (y1 + 1) * w == y1 * w + w) by (nonlinear_arith)
            requires
                y1 + 1 <= y2,
                0 < w,
        ;
    } else if y2 < y1 {
        assert((y2 + 1) * w <= y1 * w && (y2 + 1) * w == y2 * w + w) by (nonlinear_arith)
            requires
                y2 + 1 <= y1,
                0 < w,
        ;
    }
}

/// Setting a pixel changes that pixel, if it is on the grid, and no
/// other.
pub proof fn lemma_plot_pixel(
    words: Seq<u16>,
    w: int,
    h: int,
    x: int,
    y: int,
    word: u16,
    x2: int,
    y2: int,
)
    requires
        words.len() == w * h,
        in_bounds(w, h, x2, y2),
    ensures
        plot(words, w, h, x, y, word).len() == words.len(),
        pixel_at(plot(words, w, h, x, y, word), w, x2, y2) == if x2 == x && y2 == y {
            word
        } else {
            pixel_at(words, w, x2, y2)
        },
{
    lemma_index_in_range(w, h, x2, y2);
    if in_bounds(w, h, x, y) {
        lemma_index_in_range(w, h, x, y);
        if y * w + x == y2 * w + x2 {
            lemma_index_unique(w, h, x, y, x2, y2);
        }
    }
}

/// One pixel to set: where, and in which colour.
#[derive(Clone, Copy, Debug, PartialEq, Eq, Structural)]
pub struct Pixel {
    pub point: Point2,
    pub color: Rgb565,
}

/// The grid after the first `n` of the pixels are set, one after the
/// other.
pub open spec fn plot_pixels(
    words: Seq<u16>,
    w: int,
    h: int,
    pixels: Seq<Pixel>,
    big_endian: bool,
    n: nat,
) -> Seq<u16>
    decreases n,
{
    if n == 0 {
        words
    } else {
        plot(
            plot_pixels(words, w, h, pixels, big_endian, (n - 1) as nat),
            w,
            h,
            pixels[n - 1].point.x as int,
            pixels[n - 1].point.y as int,
            stored_word(pixels[n - 1].color, big_endian),
        )
    }
}

/// A grid of `len` words that all hold `word`.
pub open spec fn filled(len: nat, word: u16) -> Seq<u16> {
    Seq::new(len, |i: int| word)
}

/// A grid `W` pixels wide and `H` pixels high.
pub struct DmaReadyFramebuffer<const W: usize, const H: usize> {
    framebuffer: Vec<u16>,
    big_endian: bool,
}

impl<const W: usize, const H: usize> View for DmaReadyFramebuffer<W, H> {
    type V = Seq<u16>;

    /// The words of the grid, row after row.
    closed spec fn view(&self) -> Seq<u16> {
        self.framebuffer@
    }
}

impl<const W: usize, const H: usize> DmaReadyFramebuffer<W, H> {
    /// The grid holds one word for every pixel.
    pub open spec fn wf(&self) -> bool {
        self@.len() == W * H
    }

    /// Whether words are written with their bytes exchanged.
    pub closed spec fn is_big_endian(&self) -> bool {
        self.big_endian
    }

    /// The word of the pixel in column `x` of row `y`.
    pub open spec fn pixel(&self, x: int, y: int) -> u16 {
        pixel_at(self@, W as int, x, y)
    }

    /// Takes over memory that holds one word for every pixel. Its words
    /// stay as they are.
    pub fn new(raw_framebuffer: Vec<u16>, big_endian: bool) -> (fb: Self)
        requires
            raw_framebuffer@.len() == W * H,
        ensures
            fb.wf(),
            fb@ == raw_framebuffer@,
            fb.is_big_endian() == big_endian,
    {
        DmaReadyFramebuffer { framebuffer: raw_framebuffer, big_endian }
    }

    /// Width and height in pixels.
    pub fn size(&self) -> (size: (usize, usize))
        ensures
            size == (W, H),
    {
        (W, H)
    }

    /// The word that is written for the colour.
    fn word_for(&self, color: Rgb565) -> (word: u16)
        ensures
            word == stored_word(color, self.is_big_endian()),
    {
        if self.big_endian {
            swap_bytes(color.into_storage())
        } else {
            color.into_storage()
        }
    }

    /// Sets one pixel. A point off the grid is ignored.
    pub fn set_pixel(&mut self, point: Point2, color: Rgb565)
        requires
            old(self).wf(),
        ensures
            final(self).wf(),
            final(self)@ == plot(
                old(self)@,
                W as int,
                H as int,
                point.x as int,
                point.y as int,
                stored_word(color, old(self).is_big_endian()),
            ),
            final(self).is_big_endian() == old(self).is_big_endian(),
    {
        if point.x >= 0 && point.y >= 0 {
            let x = point.x as usize;
            let y = point.y as usize;
            if x < W && y < H {
                let len = self.framebuffer.len();
                proof {
                    lemma_index_in_range(W as int, H as int, x as int, y as int);
                    assert(len == W * H);
                }
                let word = self.word_for(color);
                self.framebuffer.set(y * W + x, word);
            }
        }
    }

    /// Sets the pixels one after the other.
    pub fn draw_iter(&mut self, pixels: &[Pixel])
        requires
            old(self).wf(),
        ensures
            final(self).wf(),
            final(self)@ == plot_pixels(
                old(self)@,
                W as int,
                H as int,
                pixels@,
                old(self).is_big_endian(),
                pixels@.len(),
            ),
            final(self).is_big_endian() == old(self).is_big_endian(),
    {
        let mut i: usize = 0;
        while i < pixels.len()
            invariant
                i <= pixels@.len(),
                self@ == plot_pixels(
                    old(self)@,
                    W as int,
                    H as int,
                    pixels@,
                    old(self).is_big_endian(),
                    i as nat,
                ),
                self.wf(),
                self.is_big_endian() == old(self).is_big_endian(),
            decreases pixels@.len() - i,
        {
            self.set_pixel(pixels[i].point, pixels[i].color);
            i += 1;
        }
    }

    /// Sets every pixel to the colour.
    pub fn clear(&mut self, color: Rgb565)
        requires
            old(self).wf(),
        ensures
            final(self).wf(),
            final(self)@ == filled((W * H) as nat, stored_word(color, old(self).is_big_endian())),
            final(self).is_big_endian() == old(self).is_big_endian(),
    {
        let word = self.word_for(color);
        let mut i: usize = 0;
        while i < self.framebuffer.len()
            invariant
                i <= self.framebuffer@.len(),
                self.framebuffer@.len() == W * H,
                self.big_endian == old(self).big_endian,
                forall|k: int| 0 <= k < i ==> self.framebuffer@[k] == word,
            decreases self.framebuffer@.len() - i,
        {
            self.framebuffer.set(i, word);
            i += 1;
        }
        assert(self.framebuffer@ =~= filled((W * H) as nat, word));
    }

    /// The words of the grid, row after row.
    pub fn as_slice(&self) -> (words: &[u16])
        ensures
            words@ == self@,
    {
        self.framebuffer.as_slice()
    }

    /// The words of the grid, row after row, to be written to. What is
    /// written is stored as it is, with no exchange of bytes.
    pub fn as_mut_slice(&mut self) -> (words: &mut [u16])
        ensures
            words@ == old(self)@,
            final(self)@ == final(words)@,
            final(self).is_big_endian() == old(self).is_big_endian(),
    {
        self.framebuffer.as_mut_slice()
    }
}

/// Clearing a grid that exchanges bytes leaves in every word the bytes of
/// the word that clearing without the exchange leaves there, exchanged.
pub proof fn lemma_clear_exchanges_bytes(len: nat, color: Rgb565, i: int)
    requires
        0 <= i < len,
    ensures
        filled(len, stored_word(color, true))[i] == swapped(
            filled(len, stored_word(color, false))[i],
        ),
{
}

} // verus!
