//! Decoding of raw planar tile bytes into 2-bit color indices.
//!
//! A tile is 8x8 pixels stored as 16 bytes: 8 bytes of bitplane 0
//! followed by 8 bytes of bitplane 1. Each plane byte holds one row,
//! most-significant bit first: column 0 reads the top bit. The color
//! index of a pixel is `(bit1 << 1) | bit0`, a value in 0..4.

use vstd::prelude::*;
use vstd::arithmetic::div_mod::lemma_fundamental_div_mod;

verus! {

/// The 2-bit color index selected by a (plane0 byte, plane1 byte, column)
/// triple. The column is taken modulo 8, so the result is defined for every
/// input.
pub open spec fn spec_color_index(plane0: u8, plane1: u8, column: u8) -> u8 {
    let shift = (7 - (column % 8)) as u8;
    let bit0 = (plane0 >> shift) & 1;
    let bit1 = (plane1 >> shift) & 1;
    (bit1 << 1) | bit0
}

/// A color index is always one of 0, 1, 2, 3.
pub proof fn lemma_color_index_in_range(plane0: u8, plane1: u8, column: u8)
    by (bit_vector)
    ensures
        spec_color_index(plane0, plane1, column) <= 3,
{
}

/// Extracts a pixel's 2-bit color index from its row's two plane bytes.
pub fn compute_color_index(plane0: u8, plane1: u8, pixel_index: u8) -> (index: u8)
    ensures
        index == spec_color_index(plane0, plane1, pixel_index),
        index <= 3,
{
    let shift = 7 - (pixel_index % 8);
    let bit0 = (plane0 >> shift) & 0x1;
    let bit1 = (plane1 >> shift) & 0x1;
    proof {
        lemma_color_index_in_range(plane0, plane1, pixel_index);
    }
    (bit1 << 1) | bit0
}

/// One decoded pixel: which of the four logical color slots it occupies.
#[derive(Copy, Clone, Debug, PartialEq, Eq, Structural)]
pub enum NesPixel {
    Background,
    Palette1,
    Palette2,
    Palette3,
}

/// The pixel variant that stands for a given 2-bit color index.
pub open spec fn spec_pixel_of_index(index: u8) -> NesPixel {
    if index == 0 {
        NesPixel::Background
    } else if index == 1 {
        NesPixel::Palette1
    } else if index == 2 {
        NesPixel::Palette2
    } else {
        NesPixel::Palette3
    }
}

/// The 2-bit color index that a pixel variant stands for.
pub open spec fn spec_index_of_pixel(pixel: NesPixel) -> u8 {
    match pixel {
        NesPixel::Background => 0,
        NesPixel::Palette1 => 1,
        NesPixel::Palette2 => 2,
        NesPixel::Palette3 => 3,
    }
}

/// The two spec views of a pixel invert each other on the indices a
/// decoded pixel can have.
pub proof fn lemma_pixel_index_roundtrip(index: u8)
    requires
        index <= 3,
    ensures
        spec_index_of_pixel(spec_pixel_of_index(index)) == index,
{
}

impl NesPixel {
    /// Decodes the pixel at the given column of a tile row from the row's
    /// two plane bytes.
    pub fn new(plane0: u8, plane1: u8, pixel_index: u8) -> (pixel: NesPixel)
        ensures
            pixel == spec_pixel_of_index(spec_color_index(plane0, plane1, pixel_index)),
    {
        let index = compute_color_index(plane0, plane1, pixel_index);
        if index == 0 {
            NesPixel::Background
        } else if index == 1 {
            NesPixel::Palette1
        } else if index == 2 {
            NesPixel::Palette2
        } else {
            NesPixel::Palette3
        }
    }
}

/// Rejection of raw tile data whose length is not a whole number of tiles.
#[derive(Copy, Clone, Debug, PartialEq, Eq, Structural)]
pub enum FormatError {
    /// The byte length is not a multiple of the 16 bytes of one tile.
    InvalidLength,
}

/// A validated run of raw tile bytes: plane bytes for a whole number of
/// tiles. Tile `t` occupies bytes `[16 * t, 16 * t + 16)`; within a tile,
/// row `r` of plane 0 is byte `16 * t + r` and row `r` of plane 1 is byte
/// `16 * t + 8 + r`.
pub struct ChrData {
    bytes: Vec<u8>,
}

impl View for ChrData {
    type V = Seq<u8>;

    closed spec fn view(&self) -> Seq<u8> {
        self.bytes@
    }
}

/// The color index of the pixel at (row, col) of tile `tile` in a raw
/// tile byte sequence.
pub open spec fn spec_tile_pixel(chr: Seq<u8>, tile: int, row: int, col: int) -> u8 {
    spec_color_index(chr[16 * tile + row], chr[16 * tile + 8 + row], col as u8)
}

impl ChrData {
    /// The data holds a whole number of tiles.
    pub open spec fn wf(&self) -> bool {
        self@.len() % 16 == 0
    }

    /// The number of whole tiles held.
    pub open spec fn spec_tile_count(&self) -> int {
        self@.len() as int / 16
    }

    /// Validates raw tile bytes: accepted exactly when the length is a
    /// multiple of 16, and kept unchanged.
    pub fn from_bytes(bytes: Vec<u8>) -> (result: Result<ChrData, FormatError>)
        ensures
            result is Ok <==> bytes@.len() % 16 == 0,
            result is Err <==> (bytes@.len() % 16 != 0 && result == Err::<ChrData, FormatError>(
                FormatError::InvalidLength,
            )),
            result is Ok ==> result->Ok_0@ == bytes@ && result->Ok_0.wf(),
    {
        if bytes.len() % 16 != 0 {
            Err(FormatError::InvalidLength)
        } else {
            Ok(ChrData { bytes })
        }
    }

    /// How many tiles the data holds.
    pub fn tile_count(&self) -> (count: usize)
        requires
            self.wf(),
        ensures
            count == self.spec_tile_count(),
    {
        self.bytes.len() / 16
    }

    /// The plane-0 byte for a row of a tile.
    pub fn plane0_byte(&self, tile: usize, row: usize) -> (byte: u8)
        requires
            self.wf(),
            tile < self.spec_tile_count(),
            row < 8,
        ensures
            byte == self@[16 * tile + row],
    {
        let len = self.bytes.len();
        proof {
            lemma_tile_in_bounds(len as int, tile as int);
        }
        self.bytes[16 * tile + row]
    }

    /// The plane-1 byte for a row of a tile.
    pub fn plane1_byte(&self, tile: usize, row: usize) -> (byte: u8)
        requires
            self.wf(),
            tile < self.spec_tile_count(),
            row < 8,
        ensures
            byte == self@[16 * tile + 8 + row],
    {
        let len = self.bytes.len();
        proof {
            lemma_tile_in_bounds(len as int, tile as int);
        }
        self.bytes[16 * tile + 8 + row]
    }
}

/// Every byte of a tile in range lies inside the data.
proof fn lemma_tile_in_bounds(len: int, tile: int)
    requires
        len % 16 == 0,
        0 <= tile < len / 16,
    ensures
        16 * tile + 16 <= len,
{
    lemma_fundamental_div_mod(len, 16);
}

} // verus!
