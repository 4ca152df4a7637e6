//! The base palettes of the planet shader.
//!
//! A palette entry is a triple of colour channels held in thousandths, so
//! that the table is exact integer data: the shading pipeline divides each
//! channel by 1000 to obtain its working value. Rocky and gas bodies have
//! disjoint four-entry tables, keyed by the palette index modulo 4.

use vstd::prelude::*;

verus! {

/// The table itself: the entry for a body class and an index already
/// reduced modulo 4. Channels are in thousandths.
pub open spec fn palette_base(is_gas: bool, index_mod: int) -> (int, int, int) {
    if !is_gas {
        if index_mod == 0 {
            (550, 480, 380)  // earth tone
        } else if index_mod == 1 {
            (380, 420, 600)  // blue-grey
        } else if index_mod == 2 {
            (650, 620, 500)  // grey
        } else {
            (700, 500, 300)  // brown
        }
    } else {
        if index_mod == 0 {
            (950, 700, 250)  // yellow
        } else if index_mod == 1 {
            (450, 700, 950)  // light blue
        } else if index_mod == 2 {
            (700, 900, 600)  // green
        } else {
            (600, 600, 600)  // fallback grey
        }
    }
}

/// The entry selected for an arbitrary palette index: the table is keyed by
/// the index modulo 4.
pub open spec fn palette_entry(is_gas: bool, index: int) -> (int, int, int) {
    palette_base(is_gas, index % 4)
}

/// Selects the base palette triple for a body, in thousandths of a channel.
pub fn palette(is_gas: bool, index: usize) -> (p: (u32, u32, u32))
    ensures
        (p.0 as int, p.1 as int, p.2 as int) == palette_entry(is_gas, index as int),
        p.0 <= 1000,
        p.1 <= 1000,
        p.2 <= 1000,
{
    let m = index % 4;
    if !is_gas {
        if m == 0 {
            (550, 480, 380)
        } else if m == 1 {
            (380, 420, 600)
        } else if m == 2 {
            (650, 620, 500)
        } else {
            (700, 500, 300)
        }
    } else {
        if m == 0 {
            (950, 700, 250)
        } else if m == 1 {
            (450, 700, 950)
        } else if m == 2 {
            (700, 900, 600)
        } else {
            (600, 600, 600)
        }
    }
}

/// Palette selection wraps with period 4: index `i + 4` selects the same
/// entry as index `i`, for either body class.
pub proof fn lemma_palette_wraps(is_gas: bool, index: int)
    requires
        index >= 0,
    ensures
        palette_entry(is_gas, index + 4) == palette_entry(is_gas, index),
{
    assert((index + 4) % 4 == index % 4) by (nonlinear_arith);
}

} // verus!
