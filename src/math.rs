use vstd::arithmetic::power2::pow2;
use vstd::bits::{lemma_u16_pow2_no_overflow, lemma_u16_shl_is_mul, lemma_u32_pow2_no_overflow, lemma_u32_shl_is_mul};
use vstd::prelude::*;

verus! {

/// A power of two, named by its value and carrying its exponent.
#[derive(Clone, Copy, PartialEq, Eq, Debug)]
pub enum Powers {
    _2,
    _4,
    _8,
    _16,
    _32,
    _64,
    _128,
    _256,
    _512,
    _1024,
}

impl Powers {
    /// The exponent `k` of the power `2^k`.
    pub open spec fn exponent(self) -> nat {
        match self {
            Powers::_2 => 1,
            Powers::_4 => 2,
            Powers::_8 => 3,
            Powers::_16 => 4,
            Powers::_32 => 5,
            Powers::_64 => 6,
            Powers::_128 => 7,
            Powers::_256 => 8,
            Powers::_512 => 9,
            Powers::_1024 => 10,
        }
    }

    pub fn as_u16(self) -> (r: u16)
        ensures
            r as nat == self.exponent(),
    {
        match self {
            Powers::_2 => 1,
            Powers::_4 => 2,
            Powers::_8 => 3,
            Powers::_16 => 4,
            Powers::_32 => 5,
            Powers::_64 => 6,
            Powers::_128 => 7,
            Powers::_256 => 8,
            Powers::_512 => 9,
            Powers::_1024 => 10,
        }
    }
}

/// Whether `x` is a multiple of the given power of two.
pub fn divisible_by_num(x: u16, power: Powers) -> (r: bool)
    ensures
        r == (x as nat % pow2(power.exponent()) == 0),
{
    let p = power.as_u16();
    let shifted = x >> p << p;
    proof {
        lemma_u16_pow2_no_overflow(p as nat);
        lemma_u16_shl_is_mul(1, p);
        assert((x >> p << p == x) == (x % (1u16 << p) == 0)) by (bit_vector)
            requires
                p <= 10,
        ;
    }
    shifted == x
}

/// `x` modulo the given power of two, taken with a bit mask. Powers above
/// 256 have no mask.
pub fn mod_mask_u32(x: u32, power: Powers) -> (r: u32)
    requires
        power.exponent() <= 8,
    ensures
        r as nat == x as nat % pow2(power.exponent()),
{
    let p = power.as_u16() as u32;
    proof {
        lemma_u32_pow2_no_overflow(p as nat);
        lemma_u32_shl_is_mul(1, p);
        vstd::arithmetic::power2::lemma_pow2_pos(p as nat);
    }
    let mask: u32 = (1u32 << p) - 1;
    proof {
        assert(x & (((1u32 << p) - 1) as u32) == x % (1u32 << p)) by (bit_vector)
            requires
                p <= 8,
        ;
    }
    x & mask
}

/// Quotient and remainder of `n` by ten, by a reciprocal multiply.
pub fn div10_u32(n: u32) -> (r: (u32, u32))
    ensures
        r.0 == n / 10,
        r.1 == n % 10,
{
    let prod: u64 = n as u64 * 0xCCCC_CCCDu64;
    let q64: u64 = prod >> 35u64;
    proof {
        let qq = n / 10;
        let rr = n % 10;
        assert(prod == n as u64 * 0xCCCC_CCCDu64);
        assert(q64 == prod / 0x8_0000_0000u64) by (bit_vector)
            requires
                q64 == prod >> 35u64,
        ;
        assert(prod as int == qq * 0x8_0000_0000 + (2 * qq + rr * 0xCCCC_CCCD)) by (nonlinear_arith)
            requires
                prod as int == n as int * 0xCCCC_CCCD,
                n as int == 10 * qq + rr,
        ;
        assert(0 <= 2 * qq + rr * 0xCCCC_CCCD < 0x8_0000_0000) by (nonlinear_arith)
            requires
                0 <= rr < 10,
                qq <= 429496729,
        ;
        vstd::arithmetic::div_mod::lemma_fundamental_div_mod_converse(
            prod as int,
            0x8_0000_0000,
            qq as int,
            2 * qq + rr * 0xCCCC_CCCD,
        );
    }
    let q = q64 as u32;
    let r = n - q * 10;
    (q, r)
}

/// Quotient and remainder of `n` by ten, by a reciprocal multiply.
pub fn div10_u16(n: u16) -> (r: (u16, u16))
    ensures
        r.0 == n / 10,
        r.1 == n % 10,
{
    let prod: u32 = n as u32 * 52429u32;
    let q32: u32 = prod >> 19u32;
    proof {
        let qq = n / 10;
        let rr = n % 10;
        assert(q32 == prod / 0x8_0000u32) by (bit_vector)
            requires
                q32 == prod >> 19u32,
        ;
        assert(prod as int == qq * 0x8_0000 + (2 * qq + rr * 52429)) by (nonlinear_arith)
            requires
                prod as int == n as int * 52429,
                n as int == 10 * qq + rr,
        ;
        assert(0 <= 2 * qq + rr * 52429 < 0x8_0000) by (nonlinear_arith)
            requires
                0 <= rr < 10,
                qq <= 6553,
        ;
        vstd::arithmetic::div_mod::lemma_fundamental_div_mod_converse(
            prod as int,
            0x8_0000,
            qq as int,
            2 * qq + rr * 52429,
        );
    }
    let q = q32 as u16;
    let r = n - q * 10;
    (q, r)
}

} // verus!
