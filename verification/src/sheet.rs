//! The sheet compositor: walks a tile sheet, decodes every tile, maps
//! color indices to colors through a shade ramp, and writes the pixels
//! into a pixel buffer at each tile's grid position.
//!
//! Tile `t` of a sheet laid out `tiles_per_row` tiles wide lands with its
//! top-left pixel at `((t % tiles_per_row) * 8, (t / tiles_per_row) * 8)`.

use crate::chr::ChrData;
use crate::chr::NesPixel;
use crate::chr::lemma_color_index_in_range;
use crate::chr::lemma_pixel_index_roundtrip;
use crate::chr::spec_index_of_pixel;
use crate::chr::spec_tile_pixel;
use crate::color::Rgb;
use crate::palette::palette_color;
use crate::palette::spec_palette;
use crate::screen::SCREEN_HEIGHT;
use crate::screen::SCREEN_WIDTH;
use crate::screen::Screen;
use crate::screen::lemma_pixel_at_eq;
use crate::screen::lemma_pixel_offset_in_bounds;
use crate::screen::lemma_pixel_ranges_disjoint;
use crate::screen::pixel_offset;
use crate::screen::spec_pixel_at;
use vstd::arithmetic::div_mod::lemma_fundamental_div_mod;
use vstd::arithmetic::div_mod::lemma_fundamental_div_mod_converse;
use vstd::arithmetic::div_mod::lemma_mod_division_less_than_divisor;
use vstd::arithmetic::div_mod::lemma_multiply_divide_lt;
use vstd::arithmetic::mul::lemma_mul_inequality;
use vstd::arithmetic::mul::lemma_mul_nonnegative;
use vstd::prelude::*;

verus! {

/// Which 4-entry shade ramp maps a 2-bit color index to a color.
#[derive(Copy, Clone, Debug, PartialEq, Eq, Structural)]
pub enum ShadeMode {
    /// Black, dark gray, mid gray, white.
    Plain,
    /// As `Plain`, but index 0 is a visible dark background gray.
    EmphasizedBackground,
}

/// The ramp color for a 2-bit color index under a shade mode.
pub open spec fn spec_shade(mode: ShadeMode, index: u8) -> Rgb {
    if index == 0 {
        match mode {
            ShadeMode::Plain => Rgb { r: 0, g: 0, b: 0 },
            ShadeMode::EmphasizedBackground => Rgb { r: 32, g: 32, b: 32 },
        }
    } else if index == 1 {
        Rgb { r: 64, g: 64, b: 64 }
    } else if index == 2 {
        Rgb { r: 128, g: 128, b: 128 }
    } else {
        Rgb { r: 255, g: 255, b: 255 }
    }
}

/// Maps a decoded pixel to its ramp color.
pub fn shade_color(pixel: NesPixel, mode: ShadeMode) -> (color: Rgb)
    ensures
        color == spec_shade(mode, spec_index_of_pixel(pixel)),
{
    match pixel {
        NesPixel::Background => match mode {
            ShadeMode::Plain => Rgb::new(0, 0, 0),
            ShadeMode::EmphasizedBackground => Rgb::new(32, 32, 32),
        },
        NesPixel::Palette1 => Rgb::new(64, 64, 64),
        NesPixel::Palette2 => Rgb::new(128, 128, 128),
        NesPixel::Palette3 => Rgb::new(255, 255, 255),
    }
}

/// The ramp color of the pixel at (row, col) of a tile in a raw sheet.
pub open spec fn spec_sheet_pixel_color(
    chr: Seq<u8>,
    mode: ShadeMode,
    tile: int,
    row: int,
    col: int,
) -> Rgb {
    spec_shade(mode, spec_tile_pixel(chr, tile, row, col))
}

/// Whether screen coordinate (x, y) lies inside some tile of a sheet of
/// `tile_count` tiles laid out `tiles_per_row` wide.
pub open spec fn sheet_covers(tile_count: int, tiles_per_row: int, x: int, y: int) -> bool {
    x / 8 < tiles_per_row && (y / 8) * tiles_per_row + x / 8 < tile_count
}

/// The ramp color that a covered screen coordinate receives: it lies at
/// (y % 8, x % 8) of tile `(y / 8) * tiles_per_row + x / 8`.
pub open spec fn spec_sheet_color_at(
    chr: Seq<u8>,
    mode: ShadeMode,
    tiles_per_row: int,
    x: int,
    y: int,
) -> Rgb {
    spec_sheet_pixel_color(chr, mode, (y / 8) * tiles_per_row + x / 8, y % 8, x % 8)
}

/// The whole effect of compositing a sheet: every covered pixel holds its
/// tile's decoded ramp color, every other pixel is untouched.
pub open spec fn sheet_filled<S: Screen>(
    old_buf: Seq<u8>,
    new_buf: Seq<u8>,
    chr: Seq<u8>,
    tiles_per_row: int,
    mode: ShadeMode,
) -> bool {
    let n = chr.len() as int / 16;
    &&& new_buf.len() == old_buf.len()
    &&& forall|x: int, y: int|
        0 <= x < SCREEN_WIDTH as int && 0 <= y < SCREEN_HEIGHT as int
            ==> #[trigger] spec_pixel_at(new_buf, x, y, S::bpp()) == (if sheet_covers(
            n,
            tiles_per_row,
            x,
            y,
        ) {
            S::pixel_bytes(spec_sheet_color_at(chr, mode, tiles_per_row, x, y))
        } else {
            spec_pixel_at(old_buf, x, y, S::bpp())
        })
}

/// The linear pixel number that the fill loop gives to screen coordinate
/// (x, y): 64 per tile, row by row inside the tile.
spec fn pix_index(tiles_per_row: int, x: int, y: int) -> int {
    ((y / 8) * tiles_per_row + x / 8) * 64 + (y % 8) * 8 + x % 8
}

/// Whether (x, y) is one of the first `k` pixels the fill loop writes.
spec fn covered_upto(k: int, tiles_per_row: int, x: int, y: int) -> bool {
    x / 8 < tiles_per_row && pix_index(tiles_per_row, x, y) < k
}

/// Decomposing pixel number `k` into tile, row and column and placing it
/// on the screen is inverted by `pix_index`.
proof fn lemma_pix_decomposition(k: int, w: int)
    requires
        0 <= k,
        1 <= w,
    ensures
        ({
            let t = k / 64;
            let rem = k % 64;
            let r = rem / 8;
            let c = rem % 8;
            let x = (t % w) * 8 + c;
            let y = (t / w) * 8 + r;
            &&& 0 <= rem < 64
            &&& 0 <= r < 8
            &&& 0 <= c < 8
            &&& 0 <= t
            &&& 0 <= t % w < w
            &&& 0 <= t / w
            &&& x / 8 == t % w
            &&& x % 8 == c
            &&& y / 8 == t / w
            &&& y % 8 == r
            &&& (y / 8) * w + x / 8 == t
            &&& pix_index(w, x, y) == k
        }),
{
    let t = k / 64;
    let rem = k % 64;
    let r = rem / 8;
    let c = rem % 8;
    lemma_mod_division_less_than_divisor(k, 64);
    lemma_mod_division_less_than_divisor(rem, 8);
    lemma_multiply_divide_lt(rem, 8, 8);
    lemma_mod_division_less_than_divisor(t, w);
    let x = (t % w) * 8 + c;
    let y = (t / w) * 8 + r;
    lemma_fundamental_div_mod_converse(x, 8, t % w, c);
    lemma_fundamental_div_mod_converse(y, 8, t / w, r);
    lemma_fundamental_div_mod(t, w);
    lemma_fundamental_div_mod(k, 64);
    lemma_fundamental_div_mod(rem, 8);
}

/// A screen coordinate inside the laid-out columns is recovered from its
/// pixel number.
proof fn lemma_pix_recomposition(w: int, x: int, y: int)
    requires
        1 <= w,
        0 <= x,
        0 <= y,
        x / 8 < w,
    ensures
        ({
            let t = (y / 8) * w + x / 8;
            let k = pix_index(w, x, y);
            &&& 0 <= k
            &&& k / 64 == t
            &&& (k % 64) / 8 == y % 8
            &&& (k % 64) % 8 == x % 8
            &&& t % w == x / 8
            &&& t / w == y / 8
        }),
{
    let t = (y / 8) * w + x / 8;
    let s = (y % 8) * 8 + x % 8;
    let k = pix_index(w, x, y);
    lemma_mod_division_less_than_divisor(x, 8);
    lemma_mod_division_less_than_divisor(y, 8);
    lemma_mul_nonnegative(y / 8, w);
    lemma_mul_nonnegative(t, 64);
    lemma_fundamental_div_mod_converse(k, 64, t, s);
    lemma_fundamental_div_mod_converse(s, 8, y % 8, x % 8);
    lemma_fundamental_div_mod_converse(t, w, y / 8, x / 8);
}

/// Decodes every tile of a sheet and writes it into the pixel buffer at
/// its grid position. The sheet must fit on the canvas: at most
/// `SCREEN_WIDTH / 8` tiles per row and at most `SCREEN_HEIGHT / 8` tile
/// rows. A single left-to-right strip and a wrapped full sheet are both
/// just choices of `tiles_per_row`.
#[verifier::rlimit(50)]
pub fn fill_screen<S: Screen>(
    screen: &mut S,
    chr: &ChrData,
    tiles_per_row: usize,
    mode: ShadeMode,
)
    requires
        old(screen).wf(),
        chr.wf(),
        1 <= tiles_per_row,
        8 * (tiles_per_row as int) <= SCREEN_WIDTH as int,
        chr.spec_tile_count() <= (tiles_per_row as int) * (SCREEN_HEIGHT as int / 8),
    ensures
        final(screen).wf(),
        sheet_filled::<S>(old(screen).buf(), final(screen).buf(), chr@, tiles_per_row as int, mode),
{
    let ghost w = tiles_per_row as int;
    let ghost old_buf = screen.buf();
    let n = chr.tile_count();
    proof {
        lemma_mul_inequality(w, 32, 30);
        screen.lemma_wf();
    }
    let total = n * 64;
    let mut k: usize = 0;
    while k < total
        invariant
            screen.wf(),
            chr.wf(),
            1 <= tiles_per_row,
            8 * w <= SCREEN_WIDTH as int,
            w == tiles_per_row as int,
            n as int == chr.spec_tile_count(),
            n as int <= w * (SCREEN_HEIGHT as int / 8),
            total == n * 64,
            k <= total,
            screen.buf().len() == old_buf.len(),
            forall|x: int, y: int|
                0 <= x < SCREEN_WIDTH as int && 0 <= y < SCREEN_HEIGHT as int
                    ==> #[trigger] spec_pixel_at(screen.buf(), x, y, S::bpp()) == (if covered_upto(
                    k as int,
                    w,
                    x,
                    y,
                ) {
                    S::pixel_bytes(spec_sheet_color_at(chr@, mode, w, x, y))
                } else {
                    spec_pixel_at(old_buf, x, y, S::bpp())
                }),
        decreases total - k,
    {
        let t = k / 64;
        let rem = k % 64;
        let row = rem / 8;
        let col = rem % 8;
        let tx = t % tiles_per_row;
        let ty = t / tiles_per_row;
        proof {
            lemma_pix_decomposition(k as int, w);
            lemma_multiply_divide_lt(k as int, 64, n as int);
            lemma_multiply_divide_lt(t as int, w, SCREEN_HEIGHT as int / 8);
        }
        let x = tx * 8 + col;
        let y = ty * 8 + row;
        let p0 = chr.plane0_byte(t, row);
        let p1 = chr.plane1_byte(t, row);
        let pixel = NesPixel::new(p0, p1, col as u8);
        let color = shade_color(pixel, mode);
        let ghost prev_buf = screen.buf();
        proof {
            lemma_color_index_in_range(p0, p1, col as u8);
            lemma_pixel_index_roundtrip(spec_tile_pixel(chr@, t as int, row as int, col as int));
            screen.lemma_wf();
        }
        screen.put_pixel(x, y, color);
        proof {
            let bpp = S::bpp();
            screen.lemma_wf();
            S::lemma_pixel_bytes_len(color);
            assert((col as u8) % 8 == col as u8);
            assert(color == spec_sheet_color_at(chr@, mode, w, x as int, y as int));
            assert forall|xx: int, yy: int|
                0 <= xx < SCREEN_WIDTH as int && 0 <= yy
                    < SCREEN_HEIGHT as int implies #[trigger] spec_pixel_at(
                screen.buf(),
                xx,
                yy,
                bpp,
            ) == (if covered_upto(k as int + 1, w, xx, yy) {
                S::pixel_bytes(spec_sheet_color_at(chr@, mode, w, xx, yy))
            } else {
                spec_pixel_at(old_buf, xx, yy, bpp)
            }) by {
                lemma_pixel_offset_in_bounds(xx, yy, bpp);
                lemma_pixel_offset_in_bounds(x as int, y as int, bpp);
                if xx == x as int && yy == y as int {
                    assert(covered_upto(k as int + 1, w, xx, yy));
                } else {
                    lemma_pixel_ranges_disjoint(xx, yy, x as int, y as int, bpp);
                    assert forall|i: int|
                        pixel_offset(xx, yy, bpp) <= i < pixel_offset(xx, yy, bpp)
                            + bpp implies prev_buf[i] == screen.buf()[i] by {}
                    lemma_pixel_at_eq(prev_buf, screen.buf(), xx, yy, bpp);
                    if covered_upto(k as int + 1, w, xx, yy) && !covered_upto(k as int, w, xx, yy) {
                        lemma_pix_recomposition(w, xx, yy);
                        lemma_fundamental_div_mod(xx, 8);
                        lemma_fundamental_div_mod(yy, 8);
                        assert(false);
                    }
                }
            }
        }
        k = k + 1;
    }
    proof {
        assert forall|x: int, y: int|
            0 <= x < SCREEN_WIDTH as int && 0 <= y < SCREEN_HEIGHT as int implies (covered_upto(
            total as int,
            w,
            x,
            y,
        ) <==> sheet_covers(n as int, w, x, y)) by {
            lemma_mod_division_less_than_divisor(x, 8);
            lemma_mod_division_less_than_divisor(y, 8);
        }
    }
}

/// Fills one whole row of the canvas with a color, leaving every other
/// row untouched.
#[verifier::rlimit(50)]
pub fn fill_row<S: Screen>(screen: &mut S, y: usize, color: Rgb)
    requires
        old(screen).wf(),
        y < SCREEN_HEIGHT,
    ensures
        final(screen).wf(),
        final(screen).buf().len() == old(screen).buf().len(),
        forall|x: int|
            0 <= x < SCREEN_WIDTH as int ==> #[trigger] spec_pixel_at(
                final(screen).buf(),
                x,
                y as int,
                S::bpp(),
            ) == S::pixel_bytes(color),
        forall|x: int, yy: int|
            0 <= x < SCREEN_WIDTH as int && 0 <= yy < SCREEN_HEIGHT as int && yy != y as int
                ==> #[trigger] spec_pixel_at(final(screen).buf(), x, yy, S::bpp()) == spec_pixel_at(
                old(screen).buf(),
                x,
                yy,
                S::bpp(),
            ),
{
    let ghost old_buf = screen.buf();
    proof {
        screen.lemma_wf();
    }
    let mut x: usize = 0;
    while x < SCREEN_WIDTH
        invariant
            screen.wf(),
            y < SCREEN_HEIGHT,
            x <= SCREEN_WIDTH,
            screen.buf().len() == old_buf.len(),
            forall|xx: int|
                0 <= xx < x as int ==> #[trigger] spec_pixel_at(
                    screen.buf(),
                    xx,
                    y as int,
                    S::bpp(),
                ) == S::pixel_bytes(color),
            forall|xx: int, yy: int|
                0 <= xx < SCREEN_WIDTH as int && 0 <= yy < SCREEN_HEIGHT as int && (yy != y as int
                    || xx >= x as int) ==> #[trigger] spec_pixel_at(screen.buf(), xx, yy, S::bpp())
                    == spec_pixel_at(old_buf, xx, yy, S::bpp()),
        decreases SCREEN_WIDTH - x,
    {
        let ghost prev_buf = screen.buf();
        screen.put_pixel(x, y, color);
        proof {
            let bpp = S::bpp();
            screen.lemma_wf();
            S::lemma_pixel_bytes_len(color);
            assert forall|xx: int, yy: int|
                0 <= xx < SCREEN_WIDTH as int && 0 <= yy < SCREEN_HEIGHT as int && !(xx == x as int
                    && yy == y as int) implies #[trigger] spec_pixel_at(screen.buf(), xx, yy, bpp)
                == spec_pixel_at(prev_buf, xx, yy, bpp) by {
                lemma_pixel_offset_in_bounds(xx, yy, bpp);
                lemma_pixel_offset_in_bounds(x as int, y as int, bpp);
                lemma_pixel_ranges_disjoint(xx, yy, x as int, y as int, bpp);
                assert forall|i: int|
                    pixel_offset(xx, yy, bpp) <= i < pixel_offset(xx, yy, bpp)
                        + bpp implies prev_buf[i] == screen.buf()[i] by {}
                lemma_pixel_at_eq(prev_buf, screen.buf(), xx, yy, bpp);
            }
            assert forall|xx: int| 0 <= xx < x as int + 1 implies #[trigger] spec_pixel_at(
                screen.buf(),
                xx,
                y as int,
                bpp,
            ) == S::pixel_bytes(color) by {
                if xx < x as int {
                    assert(spec_pixel_at(prev_buf, xx, y as int, bpp) == S::pixel_bytes(color));
                }
            }
            assert forall|xx: int, yy: int|
                0 <= xx < SCREEN_WIDTH as int && 0 <= yy < SCREEN_HEIGHT as int && (yy != y as int
                    || xx >= x as int + 1) implies #[trigger] spec_pixel_at(
                screen.buf(),
                xx,
                yy,
                bpp,
            ) == spec_pixel_at(old_buf, xx, yy, bpp) by {
                assert(spec_pixel_at(prev_buf, xx, yy, bpp) == spec_pixel_at(old_buf, xx, yy, bpp));
            }
        }
        x += 1;
    }
}

/// The color index a palette-strip row shows once the first `bands` bands
/// are painted: band `i` paints rows `3 * i .. 3 * i + 4`, so each band
/// overwrites the last row of the band before it.
pub open spec fn spec_band_color_index(y: int, bands: int) -> int {
    if y / 3 < bands {
        y / 3
    } else {
        bands - 1
    }
}

/// Paints the whole hardware palette as a strip of 64 horizontal bands:
/// band `i` paints full rows `3 * i .. 3 * i + 4` with palette entry `i`,
/// so consecutive bands share one overwritten row and rows past 192 stay
/// untouched.
#[verifier::rlimit(50)]
pub fn print_palette<S: Screen>(screen: &mut S)
    requires
        old(screen).wf(),
    ensures
        final(screen).wf(),
        forall|x: int, y: int|
            0 <= x < SCREEN_WIDTH as int && 0 <= y <= 192 ==> #[trigger] spec_pixel_at(
                final(screen).buf(),
                x,
                y,
                S::bpp(),
            ) == S::pixel_bytes(spec_palette()[spec_band_color_index(y, 64)]),
        forall|x: int, y: int|
            0 <= x < SCREEN_WIDTH as int && 192 < y < SCREEN_HEIGHT as int
                ==> #[trigger] spec_pixel_at(final(screen).buf(), x, y, S::bpp()) == spec_pixel_at(
                old(screen).buf(),
                x,
                y,
                S::bpp(),
            ),
{
    let ghost old_buf = screen.buf();
    let mut color_index: usize = 0;
    while color_index < 64
        invariant
            screen.wf(),
            color_index <= 64,
            screen.buf().len() == old_buf.len(),
            forall|x: int, y: int|
                0 <= x < SCREEN_WIDTH as int && 0 <= y < SCREEN_HEIGHT as int
                    ==> #[trigger] spec_pixel_at(screen.buf(), x, y, S::bpp()) == (if color_index
                    as int > 0 && y <= 3 * (color_index as int) {
                    S::pixel_bytes(spec_palette()[spec_band_color_index(y, color_index as int)])
                } else {
                    spec_pixel_at(old_buf, x, y, S::bpp())
                }),
        decreases 64 - color_index,
    {
        let ghost ci = color_index as int;
        let color = palette_color(color_index);
        let y_start = color_index * 3;
        let y_end = y_start + 3;
        let mut y = y_start;
        while y < y_end + 1
            invariant
                screen.wf(),
                color_index < 64,
                ci == color_index as int,
                y_start == color_index * 3,
                y_end == y_start + 3,
                y_start <= y <= y_end + 1,
                color == spec_palette()[ci],
                screen.buf().len() == old_buf.len(),
                forall|x: int, yy: int|
                    0 <= x < SCREEN_WIDTH as int && 0 <= yy < SCREEN_HEIGHT as int
                        ==> #[trigger] spec_pixel_at(screen.buf(), x, yy, S::bpp()) == (if y_start
                        as int <= yy < y as int {
                        S::pixel_bytes(spec_palette()[ci])
                    } else if ci > 0 && yy <= 3 * ci {
                        S::pixel_bytes(spec_palette()[spec_band_color_index(yy, ci)])
                    } else {
                        spec_pixel_at(old_buf, x, yy, S::bpp())
                    }),
            decreases y_end + 1 - y,
        {
            fill_row(screen, y, color);
            y += 1;
        }
        proof {
            assert forall|yy: int| 0 <= yy <= 3 * (ci + 1) implies (if y_start as int <= yy < y
                as int {
                spec_palette()[ci]
            } else if ci > 0 && yy <= 3 * ci {
                spec_palette()[spec_band_color_index(yy, ci)]
            } else {
                spec_palette()[ci]
            }) == spec_palette()[spec_band_color_index(yy, ci + 1)] by {
                if 3 * ci <= yy < 3 * ci + 3 {
                    lemma_fundamental_div_mod_converse(yy, 3, ci, yy - 3 * ci);
                } else if yy == 3 * ci + 3 {
                    lemma_fundamental_div_mod_converse(yy, 3, ci + 1, 0);
                } else if yy < 3 * ci {
                    lemma_multiply_divide_lt(yy, 3, ci);
                }
            }
        }
        color_index += 1;
    }
}

/// Decoding all-zero plane bytes always yields color index 0.
pub proof fn lemma_zero_planes_decode_zero(column: u8)
    by (bit_vector)
    ensures
        crate::chr::spec_color_index(0, 0, column) == 0,
{
}

/// Compositing a sheet of all-zero bytes that covers the whole canvas
/// leaves every pixel equal to the shade-ramp color for index 0.
pub proof fn lemma_zero_sheet_uniform<S: Screen>(
    old_buf: Seq<u8>,
    new_buf: Seq<u8>,
    chr: Seq<u8>,
    tiles_per_row: int,
    mode: ShadeMode,
)
    requires
        sheet_filled::<S>(old_buf, new_buf, chr, tiles_per_row, mode),
        forall|i: int| 0 <= i < chr.len() ==> chr[i] == 0,
        32 <= tiles_per_row,
        chr.len() as int / 16 >= 30 * tiles_per_row,
    ensures
        forall|x: int, y: int|
            0 <= x < SCREEN_WIDTH as int && 0 <= y < SCREEN_HEIGHT as int
                ==> #[trigger] spec_pixel_at(new_buf, x, y, S::bpp()) == S::pixel_bytes(
                spec_shade(mode, 0),
            ),
{
    let w = tiles_per_row;
    let n = chr.len() as int / 16;
    assert forall|x: int, y: int|
        0 <= x < SCREEN_WIDTH as int && 0 <= y
            < SCREEN_HEIGHT as int implies #[trigger] spec_pixel_at(new_buf, x, y, S::bpp())
        == S::pixel_bytes(spec_shade(mode, 0)) by {
        lemma_multiply_divide_lt(x, 8, 32);
        lemma_multiply_divide_lt(y, 8, 30);
        lemma_mod_division_less_than_divisor(x, 8);
        lemma_mod_division_less_than_divisor(y, 8);
        let t = (y / 8) * w + x / 8;
        assert(t < 30 * w) by {
            lemma_mul_inequality(y / 8, 29, w);
        }
        assert(0 <= t) by {
            lemma_mul_nonnegative(y / 8, w);
        }
        assert(sheet_covers(n, w, x, y));
        assert(chr[16 * t + y % 8] == 0);
        assert(chr[16 * t + 8 + y % 8] == 0);
        lemma_zero_planes_decode_zero((x % 8) as u8);
        assert(spec_sheet_color_at(chr, mode, w, x, y) == spec_shade(mode, 0));
    }
}

/// The layout law: in a filled buffer, pixel (row, col) of tile `t` sits
/// at screen position `((t % w) * 8 + col, (t / w) * 8 + row)` and holds
/// the tile's decoded ramp color.
pub proof fn lemma_tile_pixel_position<S: Screen>(
    old_buf: Seq<u8>,
    new_buf: Seq<u8>,
    chr: Seq<u8>,
    tiles_per_row: int,
    mode: ShadeMode,
    tile: int,
    row: int,
    col: int,
)
    requires
        sheet_filled::<S>(old_buf, new_buf, chr, tiles_per_row, mode),
        1 <= tiles_per_row,
        8 * tiles_per_row <= SCREEN_WIDTH as int,
        chr.len() as int / 16 <= tiles_per_row * (SCREEN_HEIGHT as int / 8),
        0 <= tile < chr.len() as int / 16,
        0 <= row < 8,
        0 <= col < 8,
    ensures
        spec_pixel_at(
            new_buf,
            (tile % tiles_per_row) * 8 + col,
            (tile / tiles_per_row) * 8 + row,
            S::bpp(),
        ) == S::pixel_bytes(spec_sheet_pixel_color(chr, mode, tile, row, col)),
{
    let w = tiles_per_row;
    let n = chr.len() as int / 16;
    lemma_mod_division_less_than_divisor(tile, w);
    lemma_multiply_divide_lt(tile, w, SCREEN_HEIGHT as int / 8);
    let x = (tile % w) * 8 + col;
    let y = (tile / w) * 8 + row;
    lemma_fundamental_div_mod_converse(x, 8, tile % w, col);
    lemma_fundamental_div_mod_converse(y, 8, tile / w, row);
    assert(x / 8 == tile % w && x % 8 == col);
    assert(y / 8 == tile / w && y % 8 == row);
    lemma_fundamental_div_mod(tile, w);
    assert(w * (tile / w) + tile % w == tile);
    assert((tile / w) * w == w * (tile / w)) by (nonlinear_arith);
    assert((y / 8) * w + x / 8 == tile);
    assert(x < 8 * w);
    assert(0 <= x < SCREEN_WIDTH as int);
    assert(0 <= y < SCREEN_HEIGHT as int);
    assert(sheet_covers(n, w, x, y));
    assert(spec_pixel_at(new_buf, x, y, S::bpp()) == S::pixel_bytes(
        spec_sheet_color_at(chr, mode, w, x, y),
    ));
}

} // verus!
