//! The fixed 64-entry hardware palette.
//!
//! A console-specific 6-bit color index selects one of 64 reference
//! colors. The table is constant; several entries are intentionally
//! black, standing for hardware-unused codes.

use crate::color::Rgb;
use vstd::prelude::*;

verus! {

/// The number of entries in the hardware palette.
pub const PALETTE_SIZE: usize = 64;

/// The hardware palette as an ordered sequence of 64 colors.
pub open spec fn spec_palette() -> Seq<Rgb> {
    seq![
        Rgb { r: 124, g: 124, b: 124 },
        Rgb { r: 0, g: 0, b: 252 },
        Rgb { r: 0, g: 0, b: 188 },
        Rgb { r: 68, g: 40, b: 188 },
        Rgb { r: 148, g: 0, b: 132 },
        Rgb { r: 168, g: 0, b: 32 },
        Rgb { r: 168, g: 16, b: 0 },
        Rgb { r: 136, g: 20, b: 0 },
        Rgb { r: 80, g: 48, b: 0 },
        Rgb { r: 0, g: 120, b: 0 },
        Rgb { r: 0, g: 104, b: 0 },
        Rgb { r: 0, g: 88, b: 0 },
        Rgb { r: 0, g: 64, b: 88 },
        Rgb { r: 0, g: 0, b: 0 },
        Rgb { r: 0, g: 0, b: 0 },
        Rgb { r: 0, g: 0, b: 0 },
        Rgb { r: 188, g: 188, b: 188 },
        Rgb { r: 0, g: 120, b: 248 },
        Rgb { r: 0, g: 88, b: 248 },
        Rgb { r: 104, g: 68, b: 252 },
        Rgb { r: 216, g: 0, b: 204 },
        Rgb { r: 228, g: 0, b: 88 },
        Rgb { r: 248, g: 56, b: 0 },
        Rgb { r: 228, g: 92, b: 16 },
        Rgb { r: 172, g: 124, b: 0 },
        Rgb { r: 0, g: 184, b: 0 },
        Rgb { r: 0, g: 168, b: 0 },
        Rgb { r: 0, g: 168, b: 68 },
        Rgb { r: 0, g: 136, b: 136 },
        Rgb { r: 0, g: 0, b: 0 },
        Rgb { r: 0, g: 0, b: 0 },
        Rgb { r: 0, g: 0, b: 0 },
        Rgb { r: 248, g: 248, b: 248 },
        Rgb { r: 60, g: 188, b: 252 },
        Rgb { r: 104, g: 136, b: 252 },
        Rgb { r: 152, g: 120, b: 248 },
        Rgb { r: 248, g: 120, b: 248 },
        Rgb { r: 248, g: 88, b: 152 },
        Rgb { r: 248, g: 120, b: 88 },
        Rgb { r: 252, g: 160, b: 68 },
        Rgb { r: 248, g: 184, b: 0 },
        Rgb { r: 184, g: 248, b: 24 },
        Rgb { r: 88, g: 216, b: 84 },
        Rgb { r: 88, g: 248, b: 152 },
        Rgb { r: 0, g: 232, b: 216 },
        Rgb { r: 120, g: 120, b: 120 },
        Rgb { r: 0, g: 0, b: 0 },
        Rgb { r: 0, g: 0, b: 0 },
        Rgb { r: 252, g: 252, b: 252 },
        Rgb { r: 164, g: 228, b: 252 },
        Rgb { r: 184, g: 184, b: 248 },
        Rgb { r: 216, g: 184, b: 248 },
        Rgb { r: 248, g: 184, b: 248 },
        Rgb { r: 248, g: 164, b: 192 },
        Rgb { r: 240, g: 208, b: 176 },
        Rgb { r: 252, g: 224, b: 168 },
        Rgb { r: 248, g: 216, b: 120 },
        Rgb { r: 216, g: 248, b: 120 },
        Rgb { r: 184, g: 248, b: 184 },
        Rgb { r: 184, g: 248, b: 216 },
        Rgb { r: 0, g: 252, b: 252 },
        Rgb { r: 248, g: 216, b: 248 },
        Rgb { r: 0, g: 0, b: 0 },
        Rgb { r: 0, g: 0, b: 0 },
    ]
}

/// The palette has exactly 64 entries.
pub proof fn lemma_palette_len()
    ensures
        spec_palette().len() == 64,
{
}

/// The hardware-unused codes are defined black: entries 13..16, 29..32,
/// 46..48 and 62..64 are all `{0, 0, 0}`.
pub proof fn lemma_unused_entries_black(index: int)
    requires
        13 <= index <= 15 || 29 <= index <= 31 || 46 <= index <= 47 || 62 <= index <= 63,
    ensures
        spec_palette()[index] == (Rgb { r: 0, g: 0, b: 0 }),
{
    assert(spec_palette()[13] == (Rgb { r: 0, g: 0, b: 0 }));
    assert(spec_palette()[14] == (Rgb { r: 0, g: 0, b: 0 }));
    assert(spec_palette()[15] == (Rgb { r: 0, g: 0, b: 0 }));
    assert(spec_palette()[29] == (Rgb { r: 0, g: 0, b: 0 }));
    assert(spec_palette()[30] == (Rgb { r: 0, g: 0, b: 0 }));
    assert(spec_palette()[31] == (Rgb { r: 0, g: 0, b: 0 }));
    assert(spec_palette()[46] == (Rgb { r: 0, g: 0, b: 0 }));
    assert(spec_palette()[47] == (Rgb { r: 0, g: 0, b: 0 }));
    assert(spec_palette()[62] == (Rgb { r: 0, g: 0, b: 0 }));
    assert(spec_palette()[63] == (Rgb { r: 0, g: 0, b: 0 }));
}

/// The whole palette as an indexable table.
pub fn palette_table() -> (table: Vec<Rgb>)
    ensures
        table@ == spec_palette(),
{
    let entries: [Rgb; 64] = [
        Rgb { r: 124, g: 124, b: 124 },
        Rgb { r: 0, g: 0, b: 252 },
        Rgb { r: 0, g: 0, b: 188 },
        Rgb { r: 68, g: 40, b: 188 },
        Rgb { r: 148, g: 0, b: 132 },
        Rgb { r: 168, g: 0, b: 32 },
        Rgb { r: 168, g: 16, b: 0 },
        Rgb { r: 136, g: 20, b: 0 },
        Rgb { r: 80, g: 48, b: 0 },
        Rgb { r: 0, g: 120, b: 0 },
        Rgb { r: 0, g: 104, b: 0 },
        Rgb { r: 0, g: 88, b: 0 },
        Rgb { r: 0, g: 64, b: 88 },
        Rgb { r: 0, g: 0, b: 0 },
        Rgb { r: 0, g: 0, b: 0 },
        Rgb { r: 0, g: 0, b: 0 },
        Rgb { r: 188, g: 188, b: 188 },
        Rgb { r: 0, g: 120, b: 248 },
        Rgb { r: 0, g: 88, b: 248 },
        Rgb { r: 104, g: 68, b: 252 },
        Rgb { r: 216, g: 0, b: 204 },
        Rgb { r: 228, g: 0, b: 88 },
        Rgb { r: 248, g: 56, b: 0 },
        Rgb { r: 228, g: 92, b: 16 },
        Rgb { r: 172, g: 124, b: 0 },
        Rgb { r: 0, g: 184, b: 0 },
        Rgb { r: 0, g: 168, b: 0 },
        Rgb { r: 0, g: 168, b: 68 },
        Rgb { r: 0, g: 136, b: 136 },
        Rgb { r: 0, g: 0, b: 0 },
        Rgb { r: 0, g: 0, b: 0 },
        Rgb { r: 0, g: 0, b: 0 },
        Rgb { r: 248, g: 248, b: 248 },
        Rgb { r: 60, g: 188, b: 252 },
        Rgb { r: 104, g: 136, b: 252 },
        Rgb { r: 152, g: 120, b: 248 },
        Rgb { r: 248, g: 120, b: 248 },
        Rgb { r: 248, g: 88, b: 152 },
        Rgb { r: 248, g: 120, b: 88 },
        Rgb { r: 252, g: 160, b: 68 },
        Rgb { r: 248, g: 184, b: 0 },
        Rgb { r: 184, g: 248, b: 24 },
        Rgb { r: 88, g: 216, b: 84 },
        Rgb { r: 88, g: 248, b: 152 },
        Rgb { r: 0, g: 232, b: 216 },
        Rgb { r: 120, g: 120, b: 120 },
        Rgb { r: 0, g: 0, b: 0 },
        Rgb { r: 0, g: 0, b: 0 },
        Rgb { r: 252, g: 252, b: 252 },
        Rgb { r: 164, g: 228, b: 252 },
        Rgb { r: 184, g: 184, b: 248 },
        Rgb { r: 216, g: 184, b: 248 },
        Rgb { r: 248, g: 184, b: 248 },
        Rgb { r: 248, g: 164, b: 192 },
        Rgb { r: 240, g: 208, b: 176 },
        Rgb { r: 252, g: 224, b: 168 },
        Rgb { r: 248, g: 216, b: 120 },
        Rgb { r: 216, g: 248, b: 120 },
        Rgb { r: 184, g: 248, b: 184 },
        Rgb { r: 184, g: 248, b: 216 },
        Rgb { r: 0, g: 252, b: 252 },
        Rgb { r: 248, g: 216, b: 248 },
        Rgb { r: 0, g: 0, b: 0 },
        Rgb { r: 0, g: 0, b: 0 },
    ];
    proof {
        assert(entries@ =~= spec_palette());
    }
    let mut table: Vec<Rgb> = Vec::new();
    let mut i: usize = 0;
    while i < 64
        invariant
            i <= 64,
            table@.len() == i,
            forall|j: int| 0 <= j < i ==> table@[j] == spec_palette()[j],
            entries@ == spec_palette(),
        decreases 64 - i,
    {
        table.push(entries[i]);
        i += 1;
    }
    proof {
        assert(table@ =~= spec_palette());
    }
    table
}

/// The palette entry for a 6-bit color index; the index must be in range,
/// on the caller.
pub fn palette_color(index: usize) -> (color: Rgb)
    requires
        index < 64,
    ensures
        color == spec_palette()[index as int],
{
    let table = palette_table();
    table[index]
}

} // verus!
