//! 16-bit colour with five bits of red, six of green and five of blue.

use vstd::prelude::*;

verus! {

/// Largest value of the red channel.
pub const MAX_R: u8 = 31;

/// Largest value of the green channel.
pub const MAX_G: u8 = 63;

/// Largest value of the blue channel.
pub const MAX_B: u8 = 31;

/// The storage word that holds the three channels: red in the top five
/// bits, green in the middle six, blue in the low five. Channel values
/// that are too large lose their unused high bits.
pub open spec fn pack(r: u8, g: u8, b: u8) -> u16 {
    (((r & 31) as u16) << 11) | (((g & 63) as u16) << 5) | ((b & 31) as u16)
}

/// The red channel of a storage word.
pub open spec fn red_of(word: u16) -> u8 {
    ((word >> 11) as u8) & 31
}

/// The green channel of a storage word.
pub open spec fn green_of(word: u16) -> u8 {
    ((word >> 5) as u8) & 63
}

/// The blue channel of a storage word.
pub open spec fn blue_of(word: u16) -> u8 {
    (word as u8) & 31
}

/// The word with its two bytes exchanged.
pub open spec fn swapped(word: u16) -> u16 {
    (word << 8) | (word >> 8)
}

/// A colour as the display stores it.
#[derive(Clone, Copy, Debug, PartialEq, Eq, Structural)]
pub struct Rgb565 {
    pub storage: u16,
}

impl Rgb565 {
    /// Builds a colour from its channels, dropping the unused high bits of
    /// each.
    pub fn new(r: u8, g: u8, b: u8) -> (color: Rgb565)
        ensures
            color.storage == pack(r, g, b),
    {
        let rs: u16 = ((r & 31) as u16) << 11;
        let gs: u16 = ((g & 63) as u16) << 5;
        let bs: u16 = (b & 31) as u16;
        Rgb565 { storage: rs | gs | bs }
    }

    /// The colour that a storage word stands for.
    pub fn from_storage(word: u16) -> (color: Rgb565)
        ensures
            color.storage == word,
    {
        Rgb565 { storage: word }
    }

    /// The storage word of the colour.
    pub fn into_storage(self) -> (word: u16)
        ensures
            word == self.storage,
    {
        self.storage
    }

    /// Full intensity on all three channels.
    pub fn white() -> (color: Rgb565)
        ensures
            color.storage == 0xffff,
    {
        Rgb565 { storage: 0xffff }
    }

    /// The red channel, at most 31.
    pub fn r(&self) -> (value: u8)
        ensures
            value == red_of(self.storage),
            value <= MAX_R,
    {
        let word: u16 = self.storage;
        let value: u8 = ((word >> 11) as u8) & 31;
        assert(value <= 31) by (bit_vector)
            requires
                value == ((word >> 11) as u8) & 31,
        ;
        value
    }

    /// The green channel, at most 63.
    pub fn g(&self) -> (value: u8)
        ensures
            value == green_of(self.storage),
            value <= MAX_G,
    {
        let word: u16 = self.storage;
        let value: u8 = ((word >> 5) as u8) & 63;
        assert(value <= 63) by (bit_vector)
            requires
                value == ((word >> 5) as u8) & 63,
        ;
        value
    }

    /// The blue channel, at most 31.
    pub fn b(&self) -> (value: u8)
        ensures
            value == blue_of(self.storage),
            value <= MAX_B,
    {
        let word: u16 = self.storage;
        let value: u8 = (word as u8) & 31;
        assert(value <= 31) by (bit_vector)
            requires
                value == (word as u8) & 31,
        ;
        value
    }
}

/// Exchanges the two bytes of a word.
pub fn swap_bytes(word: u16) -> (out: u16)
    ensures
        out == swapped(word),
{
    (word << 8) | (word >> 8)
}

/// A colour built from channels gives the channels back, each without its
/// unused high bits.
pub proof fn lemma_channels_of_pack(r: u8, g: u8, b: u8)
    ensures
        red_of(pack(r, g, b)) == r & 31,
        green_of(pack(r, g, b)) == g & 63,
        blue_of(pack(r, g, b)) == b & 31,
{
    assert(((((((r & 31) as u16) << 11) | (((g & 63) as u16) << 5) | ((b & 31) as u16)) >> 11) as u8)
        & 31 == r & 31) by (bit_vector);
    assert(((((((r & 31) as u16) << 11) | (((g & 63) as u16) << 5) | ((b & 31) as u16)) >> 5) as u8)
        & 63 == g & 63) by (bit_vector);
    assert((((((r & 31) as u16) << 11) | (((g & 63) as u16) << 5) | ((b & 31) as u16)) as u8) & 31
        == b & 31) by (bit_vector);
}

} // verus!
