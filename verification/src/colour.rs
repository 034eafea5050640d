use vstd::prelude::*;

use crate::fp::sgl_add;
use crate::fp::sgl_div;
use crate::fp::sgl_eq;
use crate::fp::sgl_le;
use crate::fp::sgl_lt;
use crate::fp::sgl_mul;
use crate::fp::sgl_of_u32;
use crate::fp::sgl_rem;
use crate::fp::sgl_sub;
use crate::fp::sgl_to_u8;
use crate::fp::spec_sgl_add;
use crate::fp::spec_sgl_div;
use crate::fp::spec_sgl_eq;
use crate::fp::spec_sgl_le;
use crate::fp::spec_sgl_lt;
use crate::fp::spec_sgl_mul;
use crate::fp::spec_sgl_of_u32;
use crate::fp::spec_sgl_rem;
use crate::fp::spec_sgl_sub;
use crate::fp::spec_sgl_to_u8;

verus! {

/// The fixed palette: each decimal digit of an iteration count selects one of
/// five colours (white, green, yellow, red, blue) as an 8-bit RGB triple.
pub open spec fn palette_spec(d: int) -> (u8, u8, u8) {
    if d == 1 || d == 6 {
        (255u8, 255u8, 255u8)
    } else if d == 2 || d == 7 {
        (0u8, 178u8, 51u8)
    } else if d == 3 || d == 8 {
        (255u8, 237u8, 0u8)
    } else if d == 4 || d == 9 {
        (255u8, 63u8, 49u8)
    } else {
        (0u8, 205u8, 255u8)
    }
}

/// The decimal digits of n, most significant first.
pub open spec fn decimal_digits(n: nat) -> Seq<nat>
    decreases n,
{
    if n < 10 {
        seq![n]
    } else {
        decimal_digits(n / 10).push(n % 10)
    }
}

/// The palette bucket of an iteration count, n mod 10, is the last digit of
/// n's decimal representation.
pub proof fn lemma_last_decimal_digit(n: nat)
    ensures
        decimal_digits(n).len() >= 1,
        decimal_digits(n).last() == n % 10,
{
}

/// Reduces an iteration count to the last digit of its decimal
/// representation.
pub fn last_decimal_digit(n: u32) -> (d: u32)
    ensures
        d == n % 10,
        d == decimal_digits(n as nat).last(),
{
    proof {
        lemma_last_decimal_digit(n as nat);
    }
    n % 10
}

/// Two iteration counts with the same last decimal digit are assigned the
/// same palette colour.
pub proof fn lemma_palette_same_digit(m: u32, n: u32)
    requires
        m % 10 == n % 10,
    ensures
        palette_spec((m % 10) as int) == palette_spec((n % 10) as int),
{
}

/// Maps an iteration count to the fixed five-colour palette, keyed by the
/// count's last decimal digit.
pub fn iteration_to_palette(iterations: u32) -> (c: (u8, u8, u8))
    ensures
        c == palette_spec((iterations % 10) as int),
{
    let table: [(u8, u8, u8); 10] = [
        (0, 205, 255),
        (255, 255, 255),
        (0, 178, 51),
        (255, 237, 0),
        (255, 63, 49),
        (0, 205, 255),
        (255, 255, 255),
        (0, 178, 51),
        (255, 237, 0),
        (255, 63, 49),
    ];
    let d: u32 = last_decimal_digit(iterations);
    table[d as usize]
}

/// The grey triple of an iteration count: its low 8 bits on every channel.
pub open spec fn grey_spec(n: u32) -> (u8, u8, u8) {
    (((n % 256) as u8), ((n % 256) as u8), ((n % 256) as u8))
}

/// Maps an iteration count to a grey RGB triple whose intensity is the
/// count's low 8 bits.
pub fn iteration_to_grey(iterations: u32) -> (c: (u8, u8, u8))
    ensures
        c == grey_spec(iterations),
{
    let g: u8 = (iterations % 256) as u8;
    (g, g, g)
}

/// The triangular-wave helper of the HSL conversion, on single bit patterns:
/// the hue is wrapped into [0, 1) -- the truncated remainder, with a
/// negative remainder brought up by one -- then sampled piecewise between
/// the midpoints m1 and m2.
pub open spec fn v_spec(m1: u32, m2: u32, hue: u32) -> u32 {
    let one = spec_sgl_of_u32(1);
    let six = spec_sgl_of_u32(6);
    let half = spec_sgl_div(one, spec_sgl_of_u32(2));
    let sixth = spec_sgl_div(one, six);
    let two_thirds = spec_sgl_div(spec_sgl_of_u32(2), spec_sgl_of_u32(3));
    let r = spec_sgl_rem(hue, one);
    let h = if spec_sgl_lt(r, 0) {
        spec_sgl_add(r, one)
    } else {
        r
    };
    if spec_sgl_lt(h, sixth) {
        spec_sgl_add(m1, spec_sgl_mul(spec_sgl_mul(spec_sgl_sub(m2, m1), h), six))
    } else if spec_sgl_lt(h, half) {
        m2
    } else if spec_sgl_lt(h, two_thirds) {
        spec_sgl_add(m1, spec_sgl_mul(spec_sgl_mul(spec_sgl_sub(m2, m1), spec_sgl_sub(two_thirds, h)), six))
    } else {
        m1
    }
}

fn v(m1: u32, m2: u32, hue: u32) -> (r: u32)
    ensures
        r == v_spec(m1, m2, hue),
{
    let one: u32 = sgl_of_u32(1);
    let six: u32 = sgl_of_u32(6);
    let half: u32 = sgl_div(one, sgl_of_u32(2));
    let sixth: u32 = sgl_div(one, six);
    let two_thirds: u32 = sgl_div(sgl_of_u32(2), sgl_of_u32(3));
    let r: u32 = sgl_rem(hue, one);
    let h: u32 = if sgl_lt(r, 0) {
        sgl_add(r, one)
    } else {
        r
    };
    if sgl_lt(h, sixth) {
        sgl_add(m1, sgl_mul(sgl_mul(sgl_sub(m2, m1), h), six))
    } else if sgl_lt(h, half) {
        m2
    } else if sgl_lt(h, two_thirds) {
        sgl_add(m1, sgl_mul(sgl_mul(sgl_sub(m2, m1), sgl_sub(two_thirds, h)), six))
    } else {
        m1
    }
}

/// The HSL to RGB conversion on single bit patterns: hue in degrees,
/// saturation and lightness in percent, each carried as the bits of a
/// single; the channels are the wave sampled at hue plus a third, hue, and
/// hue minus a third, scaled to bytes by truncation.
pub open spec fn hsl_spec(h: u32, s: u32, l: u32) -> (u8, u8, u8) {
    let one = spec_sgl_of_u32(1);
    let c100 = spec_sgl_of_u32(100);
    let c255 = spec_sgl_of_u32(255);
    let half = spec_sgl_div(one, spec_sgl_of_u32(2));
    let third = spec_sgl_div(one, spec_sgl_of_u32(3));
    let hh = spec_sgl_div(h, spec_sgl_of_u32(360));
    let ss = spec_sgl_div(s, c100);
    let ll = spec_sgl_div(l, c100);
    if spec_sgl_eq(ss, 0) {
        let t = spec_sgl_to_u8(spec_sgl_mul(ll, c255));
        (t, t, t)
    } else {
        let m2 = if spec_sgl_le(ll, half) {
            spec_sgl_mul(ll, spec_sgl_add(one, ss))
        } else {
            spec_sgl_sub(spec_sgl_add(ll, ss), spec_sgl_mul(ll, ss))
        };
        let m1 = spec_sgl_sub(spec_sgl_mul(spec_sgl_of_u32(2), ll), m2);
        (
            spec_sgl_to_u8(spec_sgl_mul(v_spec(m1, m2, spec_sgl_add(hh, third)), c255)),
            spec_sgl_to_u8(spec_sgl_mul(v_spec(m1, m2, hh), c255)),
            spec_sgl_to_u8(spec_sgl_mul(v_spec(m1, m2, spec_sgl_sub(hh, third)), c255)),
        )
    }
}

/// Converts a hue/saturation/lightness triple, each the bits of a single,
/// to an 8-bit RGB triple.  A saturation of exactly +0 yields a grey triple.
pub fn hsl_to_rgb(h: u32, s: u32, l: u32) -> (c: (u8, u8, u8))
    ensures
        c == hsl_spec(h, s, l),
        s == 0 ==> c.0 == c.1 && c.1 == c.2,
{
    let one: u32 = sgl_of_u32(1);
    let c100: u32 = sgl_of_u32(100);
    let c255: u32 = sgl_of_u32(255);
    let half: u32 = sgl_div(one, sgl_of_u32(2));
    let third: u32 = sgl_div(one, sgl_of_u32(3));
    let hh: u32 = sgl_div(h, sgl_of_u32(360));
    let ss: u32 = sgl_div(s, c100);
    let ll: u32 = sgl_div(l, c100);
    if sgl_eq(ss, 0) {
        let t: u8 = sgl_to_u8(sgl_mul(ll, c255));
        (t, t, t)
    } else {
        let m2: u32 = if sgl_le(ll, half) {
            sgl_mul(ll, sgl_add(one, ss))
        } else {
            sgl_sub(sgl_add(ll, ss), sgl_mul(ll, ss))
        };
        let m1: u32 = sgl_sub(sgl_mul(sgl_of_u32(2), ll), m2);
        (
            sgl_to_u8(sgl_mul(v(m1, m2, sgl_add(hh, third)), c255)),
            sgl_to_u8(sgl_mul(v(m1, m2, hh), c255)),
            sgl_to_u8(sgl_mul(v(m1, m2, sgl_sub(hh, third)), c255)),
        )
    }
}

} // verus!
