//! Packed colour words and the integer channel blending used by the glow of
//! the star.
//!
//! A colour is one `u32` in the layout `0x00RRGGBB`: three 8-bit channels,
//! top byte unused.

use vstd::prelude::*;
use vstd::arithmetic::div_mod::{lemma_div_is_ordered, lemma_div_multiples_vanish};
use vstd::arithmetic::mul::{lemma_mul_basics, lemma_mul_inequality, lemma_mul_is_commutative,
    lemma_mul_upper_bound};

verus! {

/// The packed word holding the three 8-bit channels `r`, `g`, `b`.
pub open spec fn pack_spec(r: int, g: int, b: int) -> u32 {
    (r * 0x10000 + g * 0x100 + b) as u32
}

/// The red channel of a packed colour word.
pub open spec fn red_of(c: u32) -> u32 {
    (c >> 16) & 0xFF
}

/// The green channel of a packed colour word.
pub open spec fn green_of(c: u32) -> u32 {
    (c >> 8) & 0xFF
}

/// The blue channel of a packed colour word.
pub open spec fn blue_of(c: u32) -> u32 {
    c & 0xFF
}

/// Packs three 8-bit channels into one `0x00RRGGBB` word.
pub fn pack_rgb(r: u32, g: u32, b: u32) -> (c: u32)
    requires
        r < 256,
        g < 256,
        b < 256,
    ensures
        c == pack_spec(r as int, g as int, b as int),
        c < 0x1000000,
{
    proof {
        assert((r << 16u32) | (g << 8u32) | b == r * 0x10000 + g * 0x100 + b
            && (r << 16u32) | (g << 8u32) | b < 0x1000000u32) by (bit_vector)
            requires
                r < 256,
                g < 256,
                b < 256,
        ;
    }
    (r << 16) | (g << 8) | b
}

/// The red channel of a packed word, as executable code.
pub fn red_channel(c: u32) -> (r: u32)
    ensures
        r == red_of(c),
        r < 256,
{
    proof {
        assert((c >> 16u32) & 0xFF < 256) by (bit_vector);
    }
    (c >> 16) & 0xFF
}

/// The green channel of a packed word, as executable code.
pub fn green_channel(c: u32) -> (g: u32)
    ensures
        g == green_of(c),
        g < 256,
{
    proof {
        assert((c >> 8u32) & 0xFF < 256) by (bit_vector);
    }
    (c >> 8) & 0xFF
}

/// The blue channel of a packed word, as executable code.
pub fn blue_channel(c: u32) -> (b: u32)
    ensures
        b == blue_of(c),
        b < 256,
{
    proof {
        assert(c & 0xFF < 256) by (bit_vector);
    }
    c & 0xFF
}

/// Unpacking gives back exactly the channels that were packed.
pub proof fn lemma_pack_channels(r: u32, g: u32, b: u32)
    requires
        r < 256,
        g < 256,
        b < 256,
    ensures
        red_of(pack_spec(r as int, g as int, b as int)) == r,
        green_of(pack_spec(r as int, g as int, b as int)) == g,
        blue_of(pack_spec(r as int, g as int, b as int)) == b,
{
    let c = pack_spec(r as int, g as int, b as int);
    assert(c == r * 0x10000 + g * 0x100 + b);
    assert((c >> 16) & 0xFF == r && (c >> 8) & 0xFF == g && c & 0xFF == b) by (bit_vector)
        requires
            c == r * 0x10000 + g * 0x100 + b,
            r < 256,
            g < 256,
            b < 256,
    ;
}

/// Channel `a` moved toward channel `b` by the fraction `num / den`, in
/// integer arithmetic. At `num == 0` it is `a`; at `num == den` it is
/// exactly `b`.
pub open spec fn blend_spec(a: int, b: int, num: int, den: int) -> int {
    if b >= a {
        a + ((b - a) * num) / den
    } else {
        a - ((a - b) * num) / den
    }
}

/// Executable channel blend. The result stays between `a` and `b`, so it is
/// again a valid 8-bit channel.
pub fn blend_channel(a: u32, b: u32, num: u64, den: u64) -> (c: u32)
    requires
        a < 256,
        b < 256,
        0 < den <= 0x4000_0000_0000,
        num <= den,
    ensures
        c == blend_spec(a as int, b as int, num as int, den as int),
        c < 256,
{
    if b >= a {
        let diff: u64 = (b - a) as u64;
        proof {
            let di: int = diff as int;
            let ni: int = num as int;
            let de: int = den as int;
            lemma_mul_upper_bound(di, 255, ni, de);
            lemma_mul_upper_bound(di, di, ni, de);
            lemma_mul_is_commutative(di, de);
            lemma_div_multiples_vanish(di, de);
            lemma_div_is_ordered(di * ni, di * de, de);
        }
        let step: u64 = diff * num / den;
        a + step as u32
    } else {
        let diff: u64 = (a - b) as u64;
        proof {
            let di: int = diff as int;
            let ni: int = num as int;
            let de: int = den as int;
            lemma_mul_upper_bound(di, 255, ni, de);
            lemma_mul_upper_bound(di, di, ni, de);
            lemma_mul_is_commutative(di, de);
            lemma_div_multiples_vanish(di, de);
            lemma_div_is_ordered(di * ni, di * de, de);
        }
        let step: u64 = diff * num / den;
        a - step as u32
    }
}

/// A blend never leaves the interval between its two channels.
pub proof fn lemma_blend_bounds(a: int, b: int, num: int, den: int)
    requires
        0 < den,
        0 <= num <= den,
        a <= b,
    ensures
        a <= blend_spec(a, b, num, den) <= b,
{
    lemma_mul_basics(b - a);
    lemma_mul_basics(den);
    lemma_div_multiples_vanish(0, den);
    lemma_mul_inequality(0, num, b - a);
    lemma_mul_is_commutative(0, b - a);
    lemma_mul_is_commutative(num, b - a);
    lemma_mul_inequality(num, den, b - a);
    lemma_mul_is_commutative(den, b - a);
    lemma_div_is_ordered(0, (b - a) * num, den);
    lemma_div_is_ordered((b - a) * num, (b - a) * den, den);
    lemma_mul_is_commutative(b - a, den);
    lemma_div_multiples_vanish(b - a, den);
}

/// Blending is monotone in its fraction: moving further along `num` never
/// steps back. The star's glow blends each channel toward the core with a
/// fraction that shrinks as the squared distance grows, so its brightness
/// over a darker background falls monotonically with distance.
pub proof fn lemma_blend_monotone(a: int, b: int, num1: int, num2: int, den: int)
    requires
        0 < den,
        0 <= num1 <= num2,
        a <= b,
    ensures
        blend_spec(a, b, num1, den) <= blend_spec(a, b, num2, den),
{
    lemma_mul_inequality(num1, num2, b - a);
    lemma_mul_is_commutative(b - a, num1);
    lemma_mul_is_commutative(b - a, num2);
    lemma_div_is_ordered((b - a) * num1, (b - a) * num2, den);
}

/// The blend comes back unmoved at `num == 0` and lands exactly on `b` at
/// `num == den`: the integer counterpart of the endpoint law of linear
/// interpolation.
pub proof fn lemma_blend_endpoints(a: int, b: int, den: int)
    requires
        0 < den,
    ensures
        blend_spec(a, b, 0, den) == a,
        blend_spec(a, b, den, den) == b,
{
    lemma_div_multiples_vanish(0, den);
    assert(den * 0 == 0) by (nonlinear_arith);
    assert((b - a) * 0 == 0) by (nonlinear_arith);
    assert((a - b) * 0 == 0) by (nonlinear_arith);
    lemma_div_multiples_vanish(b - a, den);
    lemma_div_multiples_vanish(a - b, den);
    lemma_mul_is_commutative(b - a, den);
    lemma_mul_is_commutative(a - b, den);
}

} // verus!
