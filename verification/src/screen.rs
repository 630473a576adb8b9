//! Fixed-size pixel buffers, polymorphic over the packed byte layout.
//!
//! Every variant owns `width * height * bytes_per_pixel` bytes, allocated
//! zero-filled once and never resized. A pixel write stores the color's
//! channels at `(y * width + x) * bytes_per_pixel` in the variant's channel
//! order; writes outside the canvas are a contract violation and are
//! rejected by the checked entry point instead of wrapping around.

use crate::color::Rgb;
use vstd::arithmetic::mul::lemma_mul_inequality;
use vstd::arithmetic::mul::lemma_mul_nonnegative;
use vstd::pervasive::VecAdditionalExecFns;
use vstd::prelude::*;

verus! {

/// The canvas width in pixels.
pub const SCREEN_WIDTH: usize = 256;

/// The canvas height in pixels.
pub const SCREEN_HEIGHT: usize = 240;

/// The byte offset of pixel (x, y) in a buffer packed at `bpp` bytes per
/// pixel, row by row from the top.
pub open spec fn pixel_offset(x: int, y: int, bpp: int) -> int {
    (y * (SCREEN_WIDTH as int) + x) * bpp
}

/// The packed bytes of pixel (x, y) in a buffer.
pub open spec fn spec_pixel_at(buf: Seq<u8>, x: int, y: int, bpp: int) -> Seq<u8> {
    buf.subrange(pixel_offset(x, y, bpp), pixel_offset(x, y, bpp) + bpp)
}

/// One pixel write: the new buffer holds the pixel's bytes at its offset
/// and agrees with the old buffer everywhere else.
pub open spec fn pixel_put(
    old_buf: Seq<u8>,
    new_buf: Seq<u8>,
    x: int,
    y: int,
    px: Seq<u8>,
) -> bool {
    let bpp = px.len() as int;
    let off = pixel_offset(x, y, bpp);
    &&& new_buf.len() == old_buf.len()
    &&& spec_pixel_at(new_buf, x, y, bpp) == px
    &&& forall|i: int|
        0 <= i < new_buf.len() && !(off <= i < off + bpp) ==> new_buf[i] == old_buf[i]
}

/// A pixel offset stays inside a well-formed buffer.
pub proof fn lemma_pixel_offset_in_bounds(x: int, y: int, bpp: int)
    requires
        0 <= x < SCREEN_WIDTH as int,
        0 <= y < SCREEN_HEIGHT as int,
        1 <= bpp,
    ensures
        0 <= pixel_offset(x, y, bpp),
        pixel_offset(x, y, bpp) + bpp <= (SCREEN_WIDTH * SCREEN_HEIGHT) as int * bpp,
{
    let p = y * (SCREEN_WIDTH as int) + x;
    lemma_mul_nonnegative(p, bpp);
    lemma_mul_inequality(p + 1, (SCREEN_WIDTH * SCREEN_HEIGHT) as int, bpp);
    assert((p + 1) * bpp == p * bpp + bpp) by (nonlinear_arith);
}

/// Distinct pixels occupy disjoint byte ranges.
pub proof fn lemma_pixel_ranges_disjoint(x1: int, y1: int, x2: int, y2: int, bpp: int)
    requires
        0 <= x1 < SCREEN_WIDTH as int,
        0 <= y1 < SCREEN_HEIGHT as int,
        0 <= x2 < SCREEN_WIDTH as int,
        0 <= y2 < SCREEN_HEIGHT as int,
        !(x1 == x2 && y1 == y2),
        1 <= bpp,
    ensures
        pixel_offset(x1, y1, bpp) + bpp <= pixel_offset(x2, y2, bpp) || pixel_offset(x2, y2, bpp)
            + bpp <= pixel_offset(x1, y1, bpp),
{
    let p1 = y1 * (SCREEN_WIDTH as int) + x1;
    let p2 = y2 * (SCREEN_WIDTH as int) + x2;
    assert(p1 != p2);
    if p1 < p2 {
        lemma_mul_inequality(p1 + 1, p2, bpp);
        assert((p1 + 1) * bpp == p1 * bpp + bpp) by (nonlinear_arith);
    } else {
        lemma_mul_inequality(p2 + 1, p1, bpp);
        assert((p2 + 1) * bpp == p2 * bpp + bpp) by (nonlinear_arith);
    }
}

/// Two buffers that agree on a pixel's byte range hold the same pixel.
pub proof fn lemma_pixel_at_eq(a: Seq<u8>, b: Seq<u8>, x: int, y: int, bpp: int)
    requires
        a.len() == b.len(),
        1 <= bpp,
        0 <= pixel_offset(x, y, bpp),
        pixel_offset(x, y, bpp) + bpp <= a.len(),
        forall|i: int|
            pixel_offset(x, y, bpp) <= i < pixel_offset(x, y, bpp) + bpp ==> a[i] == b[i],
    ensures
        spec_pixel_at(a, x, y, bpp) == spec_pixel_at(b, x, y, bpp),
{
    let off = pixel_offset(x, y, bpp);
    assert forall|j: int| 0 <= j < bpp implies spec_pixel_at(a, x, y, bpp)[j] == spec_pixel_at(
        b,
        x,
        y,
        bpp,
    )[j] by {
        assert(a[off + j] == b[off + j]);
    }
    assert(spec_pixel_at(a, x, y, bpp) =~= spec_pixel_at(b, x, y, bpp));
}

/// A rejected out-of-range pixel write, carrying the offending coordinates.
#[derive(Copy, Clone, Debug, PartialEq, Eq, Structural)]
pub struct BoundsError {
    pub x: usize,
    pub y: usize,
}

/// A fixed-size packed pixel canvas.
///
/// Implementations differ only in how many bytes one pixel takes and in
/// which order the channels land in them.
pub trait Screen: Sized {
    /// The packed bytes of the canvas.
    spec fn buf(&self) -> Seq<u8>;

    /// How many bytes one pixel takes in this variant.
    spec fn bpp() -> int;

    /// The bytes one written pixel leaves behind, in this variant's
    /// channel order.
    spec fn pixel_bytes(color: Rgb) -> Seq<u8>;

    /// The canvas owns exactly `width * height * bpp` bytes.
    spec fn wf(&self) -> bool;

    /// Well-formedness pins the byte length, and the packing is between
    /// one and four bytes per pixel.
    proof fn lemma_wf(&self)
        requires
            self.wf(),
        ensures
            1 <= Self::bpp() <= 4,
            self.buf().len() == (SCREEN_WIDTH * SCREEN_HEIGHT) as int * Self::bpp(),
    ;

    /// A written pixel always takes exactly `bpp` bytes.
    proof fn lemma_pixel_bytes_len(color: Rgb)
        ensures
            Self::pixel_bytes(color).len() == Self::bpp(),
    ;

    /// Writes one pixel at (x, y). Out-of-range coordinates are a contract
    /// violation; use [`try_put_pixel`] where they cannot be ruled out.
    fn put_pixel(&mut self, x: usize, y: usize, color: Rgb)
        requires
            old(self).wf(),
            x < SCREEN_WIDTH,
            y < SCREEN_HEIGHT,
        ensures
            final(self).wf(),
            pixel_put(
                old(self).buf(),
                final(self).buf(),
                x as int,
                y as int,
                Self::pixel_bytes(color),
            ),
    ;

    /// A read-only view of the packed bytes; never copies.
    fn get_buffer(&self) -> (buffer: &[u8])
        ensures
            buffer@ == self.buf(),
    ;
}

/// Writes one pixel after checking the coordinates: the write happens
/// exactly when (x, y) lies on the canvas, and an out-of-range pair is
/// reported as a bounds violation with the canvas untouched.
pub fn try_put_pixel<S: Screen>(screen: &mut S, x: usize, y: usize, color: Rgb) -> (result:
    Result<(), BoundsError>)
    requires
        old(screen).wf(),
    ensures
        final(screen).wf(),
        result is Ok <==> (x < SCREEN_WIDTH && y < SCREEN_HEIGHT),
        result is Ok ==> pixel_put(
            old(screen).buf(),
            final(screen).buf(),
            x as int,
            y as int,
            S::pixel_bytes(color),
        ),
        result is Err ==> *final(screen) == *old(screen) && result == Err::<(), BoundsError>(
            BoundsError { x, y },
        ),
{
    if x < SCREEN_WIDTH && y < SCREEN_HEIGHT {
        screen.put_pixel(x, y, color);
        Ok(())
    } else {
        Err(BoundsError { x, y })
    }
}

/// A 3-byte packer storing `[red, green, blue]` per pixel, top row first.
/// Its consuming renderer uploads the bytes as a tightly packed 24-bit
/// texture with pitch `width * 3`.
pub struct ScreenBgr {
    buffer: Vec<u8>,
}

impl ScreenBgr {
    /// A zero-filled canvas.
    pub fn new() -> (screen: ScreenBgr)
        ensures
            screen.wf(),
            screen.buf() == Seq::new((SCREEN_WIDTH * SCREEN_HEIGHT * 3) as nat, |i: int| 0u8),
    {
        let buffer = zero_bytes(SCREEN_WIDTH * SCREEN_HEIGHT * 3);
        ScreenBgr { buffer }
    }
}

impl Screen for ScreenBgr {
    closed spec fn buf(&self) -> Seq<u8> {
        self.buffer@
    }

    open spec fn bpp() -> int {
        3
    }

    open spec fn pixel_bytes(color: Rgb) -> Seq<u8> {
        seq![color.r, color.g, color.b]
    }

    closed spec fn wf(&self) -> bool {
        self.buffer@.len() == SCREEN_WIDTH * SCREEN_HEIGHT * 3
    }

    proof fn lemma_wf(&self) {
    }

    proof fn lemma_pixel_bytes_len(color: Rgb) {
    }

    fn put_pixel(&mut self, x: usize, y: usize, color: Rgb) {
        let off = (y * SCREEN_WIDTH + x) * 3;
        self.buffer.set(off, color.r);
        self.buffer.set(off + 1, color.g);
        self.buffer.set(off + 2, color.b);
        proof {
            assert(spec_pixel_at(self.buffer@, x as int, y as int, 3) =~= seq![
                color.r,
                color.g,
                color.b,
            ]);
        }
    }

    fn get_buffer(&self) -> (buffer: &[u8]) {
        self.buffer.as_slice()
    }
}

/// A 4-byte packer storing `[blue, green, red, alpha]` per pixel with the
/// alpha byte fixed at 255, top row first in memory. Its consuming
/// renderer expects bottom-up rows and performs the row reversal itself
/// when uploading; the buffer itself is never flipped.
pub struct ScreenRgba {
    buffer: Vec<u8>,
}

impl ScreenRgba {
    /// A zero-filled canvas.
    pub fn new() -> (screen: ScreenRgba)
        ensures
            screen.wf(),
            screen.buf() == Seq::new((SCREEN_WIDTH * SCREEN_HEIGHT * 4) as nat, |i: int| 0u8),
    {
        let buffer = zero_bytes(SCREEN_WIDTH * SCREEN_HEIGHT * 4);
        ScreenRgba { buffer }
    }
}

impl Screen for ScreenRgba {
    closed spec fn buf(&self) -> Seq<u8> {
        self.buffer@
    }

    open spec fn bpp() -> int {
        4
    }

    open spec fn pixel_bytes(color: Rgb) -> Seq<u8> {
        seq![color.b, color.g, color.r, 255u8]
    }

    closed spec fn wf(&self) -> bool {
        self.buffer@.len() == SCREEN_WIDTH * SCREEN_HEIGHT * 4
    }

    proof fn lemma_wf(&self) {
    }

    proof fn lemma_pixel_bytes_len(color: Rgb) {
    }

    fn put_pixel(&mut self, x: usize, y: usize, color: Rgb) {
        let off = (y * SCREEN_WIDTH + x) * 4;
        self.buffer.set(off, color.b);
        self.buffer.set(off + 1, color.g);
        self.buffer.set(off + 2, color.r);
        self.buffer.set(off + 3, 255);
        proof {
            assert(spec_pixel_at(self.buffer@, x as int, y as int, 4) =~= seq![
                color.b,
                color.g,
                color.r,
                255u8,
            ]);
        }
    }

    fn get_buffer(&self) -> (buffer: &[u8]) {
        self.buffer.as_slice()
    }
}

/// Whatever color is written, the fourth byte a 4-byte pixel write
/// leaves behind is the fixed opaque alpha value 255.
pub proof fn lemma_rgba_alpha_fixed(color: Rgb)
    ensures
        <ScreenRgba as Screen>::pixel_bytes(color).len() == 4,
        <ScreenRgba as Screen>::pixel_bytes(color)[3] == 255,
{
}

/// A vector of `count` zero bytes.
fn zero_bytes(count: usize) -> (bytes: Vec<u8>)
    ensures
        bytes@ == Seq::new(count as nat, |i: int| 0u8),
{
    let mut bytes: Vec<u8> = Vec::new();
    let mut i: usize = 0;
    while i < count
        invariant
            i <= count,
            bytes@.len() == i,
            forall|j: int| 0 <= j < i ==> bytes@[j] == 0u8,
        decreases count - i,
    {
        bytes.push(0);
        i += 1;
    }
    proof {
        assert(bytes@ =~= Seq::new(count as nat, |i: int| 0u8));
    }
    bytes
}

} // verus!
