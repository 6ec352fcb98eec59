//! Cell values: four unsigned widths behind one trait, each with wrapping
//! arithmetic and its own print rule.
use vstd::arithmetic::div_mod::{
    lemma_add_mod_noop_right, lemma_mod_add_multiples_vanish, lemma_mod_self_0, lemma_small_mod,
};
use vstd::arithmetic::power2::lemma_pow2_pos;
use vstd::arithmetic::power2::{lemma2_to64, lemma2_to64_rest, pow2};
use vstd::prelude::*;
use vstd::utf8::{encode_scalar, has_width_1_encoding, has_width_2_encoding, has_width_3_encoding, is_scalar};

use crate::error::Error;

verus! {

/// The number of values of a cell that is `width` bits wide.
pub open spec fn modulus(width: nat) -> nat {
    pow2(width)
}

/// Adding one to a value below the modulus wraps to zero at the modulus.
pub proof fn lemma_wrap_inc(v: int, m: int)
    requires
        0 <= v < m,
    ensures
        (v + 1) % m == (if v + 1 == m {
            0
        } else {
            v + 1
        }),
{
    if v + 1 == m {
        lemma_mod_self_0(m);
    } else {
        lemma_small_mod((v + 1) as nat, m as nat);
    }
}

/// Subtracting one from a value below the modulus wraps from zero to the
/// largest value.
pub proof fn lemma_wrap_dec(v: int, m: int)
    requires
        0 <= v < m,
    ensures
        (v - 1) % m == (if v == 0 {
            m - 1
        } else {
            v - 1
        }),
{
    if v == 0 {
        lemma_mod_add_multiples_vanish(-1, m);
        lemma_small_mod((m - 1) as nat, m as nat);
    } else {
        lemma_small_mod((v - 1) as nat, m as nat);
    }
}

/// The value that `k` wrapping increments lead to from `v`, one step at a
/// time, each step as `Cell::overflowing_inc_assign` states it.
pub open spec fn repeat_inc(v: int, k: nat, m: int) -> int
    decreases k,
{
    if k == 0 {
        v
    } else {
        (repeat_inc(v, (k - 1) as nat, m) + 1) % m
    }
}

/// The value that `k` wrapping decrements lead to from `v`, each step as
/// `Cell::overflowing_dec_assign` states it.
pub open spec fn repeat_dec(v: int, k: nat, m: int) -> int
    decreases k,
{
    if k == 0 {
        v
    } else {
        (repeat_dec(v, (k - 1) as nat, m) - 1) % m
    }
}

/// Increments and decrements wrap around: `k` increments of a cell of
/// `width` bits that holds `v` leave `(v + k) mod 2^width`, `k` decrements
/// leave `(v - k) mod 2^width`; so `2^width` of either bring every value,
/// zero among them, back to itself.
pub proof fn lemma_wraparound(width: nat, v: int, k: nat)
    requires
        0 <= v < modulus(width),
    ensures
        repeat_inc(v, k, modulus(width) as int) == (v + k) % (modulus(width) as int),
        repeat_dec(v, k, modulus(width) as int) == (v - k) % (modulus(width) as int),
        repeat_inc(v, modulus(width), modulus(width) as int) == v,
        repeat_dec(v, modulus(width), modulus(width) as int) == v,
{
    let m = modulus(width) as int;
    lemma_pow2_pos(width);
    lemma_wraparound_steps(m, v, k);
    lemma_wraparound_steps(m, v, m as nat);
    lemma_small_mod(v as nat, m as nat);
    lemma_mod_add_multiples_vanish(v, m);
    lemma_mod_add_multiples_vanish(v - m, m);
}

/// `k` increments or decrements, by induction on `k`.
proof fn lemma_wraparound_steps(m: int, v: int, k: nat)
    requires
        0 <= v < m,
    ensures
        repeat_inc(v, k, m) == (v + k) % m,
        repeat_dec(v, k, m) == (v - k) % m,
    decreases k,
{
    if k == 0 {
        lemma_small_mod(v as nat, m as nat);
    } else {
        lemma_wraparound_steps(m, v, (k - 1) as nat);
        lemma_add_mod_noop_right(1, v + k - 1, m);
        lemma_add_mod_noop_right(-1, v - k + 1, m);
    }
}

/// The code point that a UTF-16 surrogate pair stands for: ten bits from
/// each half, above the basic plane.
pub fn surrogate_pair_to_unicode(lead: u16, trail: u16) -> (r: u32)
    requires
        0xD800 <= lead,
        0xDC00 <= trail,
    ensures
        r == 0x10000 + ((lead - 0xD800) % 0x400) * 0x400 + (trail - 0xDC00) % 0x400,
        0x10000 <= r <= 0x10FFFF,
{
    let hi: u16 = (lead - 0xd800u16) & 0x3ffu16;
    let lo: u16 = (trail - 0xdc00u16) & 0x3ffu16;
    let a: u16 = lead - 0xd800u16;
    let b: u16 = trail - 0xdc00u16;
    assert(hi == a % 0x400) by (bit_vector)
        requires
            hi == a & 0x3ff,
    ;
    assert(lo == b % 0x400) by (bit_vector)
        requires
            lo == b & 0x3ff,
    ;
    let h: u32 = hi as u32;
    let l: u32 = lo as u32;
    assert((h << 10u32) | l == h * 0x400 + l) by (bit_vector)
        requires
            h < 0x400,
            l < 0x400,
    ;
    ((h << 10u32) | l) + 0x10000
}

/// What printing a cell of `width` bits that holds `v` produces. An 8-bit
/// cell prints its byte. A wider cell prints the UTF-8 encoding of the
/// code point `v`; a 16-bit cell cannot print a surrogate alone, and a
/// wider one fails on a value that is no Unicode scalar value.
pub open spec fn output_unit(width: nat, v: nat) -> Result<Seq<u8>, Error> {
    if width == 8 {
        Ok(seq![v as u8])
    } else if width == 16 && 0xD800 <= v <= 0xDFFF {
        Err(Error::UnsupportedWidthForValue)
    } else if v <= u32::MAX && is_scalar(v as u32) {
        Ok(encode_scalar(v as u32))
    } else {
        Err(Error::InvalidUnicode)
    }
}

/// An executable result that is the spec result `s`.
pub open spec fn same_output(r: Result<Vec<u8>, Error>, s: Result<Seq<u8>, Error>) -> bool {
    match r {
        Ok(b) => s == Ok::<Seq<u8>, Error>(b@),
        Err(e) => s == Err::<Seq<u8>, Error>(e),
    }
}

/// A fixed-width unsigned cell value.
pub trait Cell: Sized + Copy {
    /// The value as a number.
    spec fn value(&self) -> nat;

    /// The width in bits.
    spec fn width() -> nat;

    /// The value zero.
    fn zero() -> (r: Self)
        ensures
            r.value() == 0,
    ;

    /// A byte, widened to the cell.
    fn from_byte(b: u8) -> (r: Self)
        ensures
            r.value() == b,
    ;

    /// Whether the value is zero.
    fn is_zero(&self) -> (r: bool)
        ensures
            r == (self.value() == 0),
    ;

    /// Adds one, wrapping at the width's modulus.
    fn overflowing_inc_assign(&mut self)
        ensures
            final(self).value() as int == (old(self).value() as int + 1) % (modulus(Self::width()) as int),
    ;

    /// Subtracts one, wrapping at the width's modulus.
    fn overflowing_dec_assign(&mut self)
        ensures
            final(self).value() as int == (old(self).value() as int - 1) % (modulus(Self::width()) as int),
    ;

    /// The bytes that printing the cell writes.
    fn print_bytes(&self) -> (r: Result<Vec<u8>, Error>)
        ensures
            same_output(r, output_unit(Self::width(), self.value())),
    ;
}

/// The UTF-8 encoding of a Unicode scalar value.
pub fn encode_code_point(v: u32) -> (r: Vec<u8>)
    requires
        is_scalar(v),
    ensures
        r@ == encode_scalar(v),
{
    let mut r: Vec<u8> = Vec::new();
    if v <= 0x7F {
        r.push((v & 0x7F) as u8);
    } else if v <= 0x7FF {
        r.push(0xC0 | ((v >> 6) & 0x1F) as u8);
        r.push(0x80 | (v & 0x3F) as u8);
    } else if v <= 0xFFFF {
        r.push(0xE0 | ((v >> 12) & 0x0F) as u8);
        r.push(0x80 | ((v >> 6) & 0x3F) as u8);
        r.push(0x80 | (v & 0x3F) as u8);
    } else {
        r.push(0xF0 | ((v >> 18) & 0x7) as u8);
        r.push(0x80 | ((v >> 12) & 0x3F) as u8);
        r.push(0x80 | ((v >> 6) & 0x3F) as u8);
        r.push(0x80 | (v & 0x3F) as u8);
    }
    assert(r@ =~= encode_scalar(v));
    r
}

/// The code point of a value, checked to be a Unicode scalar value.
fn encode_checked(v: u32) -> (r: Result<Vec<u8>, Error>)
    ensures
        is_scalar(v) ==> (r matches Ok(b) && b@ == encode_scalar(v)),
        !is_scalar(v) ==> r == Err::<Vec<u8>, Error>(Error::InvalidUnicode),
{
    if v <= 0xD7FF || (0xE000 <= v && v <= 0x10FFFF) {
        Ok(encode_code_point(v))
    } else {
        Err(Error::InvalidUnicode)
    }
}

impl Cell for u8 {
    open spec fn value(&self) -> nat {
        *self as nat
    }

    open spec fn width() -> nat {
        8
    }

    fn zero() -> (r: u8) {
        0
    }

    fn from_byte(b: u8) -> (r: u8) {
        b
    }

    fn is_zero(&self) -> (r: bool) {
        *self == 0
    }

    fn overflowing_inc_assign(&mut self) {
        proof {
            lemma2_to64();
            lemma_wrap_inc(*self as int, 0x100);
        }
        *self = self.wrapping_add(1);
    }

    fn overflowing_dec_assign(&mut self) {
        proof {
            lemma2_to64();
            lemma_wrap_dec(*self as int, 0x100);
        }
        *self = self.wrapping_sub(1);
    }

    fn print_bytes(&self) -> (r: Result<Vec<u8>, Error>) {
        let mut b: Vec<u8> = Vec::new();
        b.push(*self);
        assert(b@ =~= seq![*self]);
        Ok(b)
    }
}

impl Cell for u16 {
    open spec fn value(&self) -> nat {
        *self as nat
    }

    open spec fn width() -> nat {
        16
    }

    fn zero() -> (r: u16) {
        0
    }

    fn from_byte(b: u8) -> (r: u16) {
        b as u16
    }

    fn is_zero(&self) -> (r: bool) {
        *self == 0
    }

    fn overflowing_inc_assign(&mut self) {
        proof {
            lemma2_to64();
            lemma_wrap_inc(*self as int, 0x10000);
        }
        *self = self.wrapping_add(1);
    }

    fn overflowing_dec_assign(&mut self) {
        proof {
            lemma2_to64();
            lemma_wrap_dec(*self as int, 0x10000);
        }
        *self = self.wrapping_sub(1);
    }

    fn print_bytes(&self) -> (r: Result<Vec<u8>, Error>) {
        if 0xD800 <= *self && *self <= 0xDFFF {
            Err(Error::UnsupportedWidthForValue)
        } else {
            encode_checked(*self as u32)
        }
    }
}

impl Cell for u32 {
    open spec fn value(&self) -> nat {
        *self as nat
    }

    open spec fn width() -> nat {
        32
    }

    fn zero() -> (r: u32) {
        0
    }

    fn from_byte(b: u8) -> (r: u32) {
        b as u32
    }

    fn is_zero(&self) -> (r: bool) {
        *self == 0
    }

    fn overflowing_inc_assign(&mut self) {
        proof {
            lemma2_to64();
            lemma_wrap_inc(*self as int, 0x1_0000_0000);
        }
        *self = self.wrapping_add(1);
    }

    fn overflowing_dec_assign(&mut self) {
        proof {
            lemma2_to64();
            lemma_wrap_dec(*self as int, 0x1_0000_0000);
        }
        *self = self.wrapping_sub(1);
    }

    fn print_bytes(&self) -> (r: Result<Vec<u8>, Error>) {
        encode_checked(*self)
    }
}

impl Cell for u64 {
    open spec fn value(&self) -> nat {
        *self as nat
    }

    open spec fn width() -> nat {
        64
    }

    fn zero() -> (r: u64) {
        0
    }

    fn from_byte(b: u8) -> (r: u64) {
        b as u64
    }

    fn is_zero(&self) -> (r: bool) {
        *self == 0
    }

    fn overflowing_inc_assign(&mut self) {
        proof {
            lemma2_to64_rest();
            lemma_wrap_inc(*self as int, 0x1_0000_0000_0000_0000);
        }
        *self = self.wrapping_add(1);
    }

    fn overflowing_dec_assign(&mut self) {
        proof {
            lemma2_to64_rest();
            lemma_wrap_dec(*self as int, 0x1_0000_0000_0000_0000);
        }
        *self = self.wrapping_sub(1);
    }

    fn print_bytes(&self) -> (r: Result<Vec<u8>, Error>) {
        if *self <= 0xFFFF_FFFF {
            encode_checked(*self as u32)
        } else {
            Err(Error::InvalidUnicode)
        }
    }
}

} // verus!
