use crate::math::{div10_u16, div10_u32};
use vstd::arithmetic::div_mod::lemma_div_denominator;
use vstd::arithmetic::power::{lemma_pow_positive, lemma_pow_strictly_increases, pow};
use vstd::prelude::*;

verus! {

/// The ASCII digit of `n` for the power `10^k`.
pub open spec fn dec_digit(n: nat, k: nat) -> u8 {
    (48 + (n / (pow(10, k) as nat)) % 10) as u8
}

proof fn lemma_next_power(n: nat, k: nat)
    ensures
        pow(10, k) > 0,
        n / (pow(10, k + 1) as nat) == (n / (pow(10, k) as nat)) / 10,
{
    lemma_pow_positive(10, k);
    assert(pow(10, k + 1) == 10 * pow(10, k)) by {
        reveal(pow);
    }
    lemma_div_denominator(n as int, pow(10, k), 10);
    assert(pow(10, k) * 10 == 10 * pow(10, k)) by (nonlinear_arith);
}

proof fn lemma_zero_above(n: nat, k: nat, j: nat)
    requires
        n / (pow(10, k) as nat) == 0,
        j >= k,
    ensures
        dec_digit(n, j) == 48,
{
    lemma_pow_positive(10, k);
    lemma_pow_positive(10, j);
    if j > k {
        lemma_pow_strictly_increases(10, k, j);
    }
    assert(n < pow(10, k)) by (nonlinear_arith)
        requires
            n / (pow(10, k) as nat) == 0,
            pow(10, k) > 0,
    ;
    assert(n / (pow(10, j) as nat) == 0) by (nonlinear_arith)
        requires
            n < pow(10, j),
    ;
}

/// The lowest `N` decimal digits of `n`, most significant first, padded
/// with zeros, in ASCII.
pub fn to_dec_u32<const N: usize>(n: u32) -> (r: [u8; N])
    ensures
        forall|j: int| 0 <= j < N ==> #[trigger] r@[j] == dec_digit(n as nat, (N - 1 - j) as nat),
{
    let mut output = [48u8; N];
    let mut cur = n;
    let mut i: usize = N;
    let mut done = false;
    proof {
        assert(pow(10, 0) == 1) by {
            reveal(pow);
        }
        assert((N - i) as nat == 0);
        assert(n as nat / 1 == n as nat);
    }
    while i > 0 && !done
        invariant
            i <= N,
            output@.len() == N,
            !done ==> cur as nat == n as nat / (pow(10, (N - i) as nat) as nat),
            done ==> n as nat / (pow(10, (N - i) as nat) as nat) == 0,
            forall|j: int| i <= j < N ==> #[trigger] output@[j] == dec_digit(n as nat, (N - 1 - j) as nat),
            forall|j: int| 0 <= j < i ==> #[trigger] output@[j] == 48,
        decreases i,
    {
        i -= 1;
        let (q, d) = div10_u32(cur);
        proof {
            lemma_next_power(n as nat, (N - 1 - i) as nat);
        }
        output[i] = 48 + d as u8;
        if q == 0 {
            done = true;
        }
        cur = q;
    }
    proof {
        assert forall|j: int| 0 <= j < N implies #[trigger] output@[j] == dec_digit(
            n as nat,
            (N - 1 - j) as nat,
        ) by {
            if j < i {
                if done {
                    lemma_zero_above(n as nat, (N - i) as nat, (N - 1 - j) as nat);
                }
            }
        }
    }
    output
}

/// A string of `N` ASCII decimal digits.
pub struct DecStr<const N: usize> {
    buf: [u8; N],
}

impl<const N: usize> DecStr<N> {
    /// The digits, as ASCII bytes.
    pub closed spec fn digits(&self) -> Seq<u8> {
        self.buf@
    }

    /// The digits, as ASCII bytes.
    pub fn as_bytes(&self) -> (r: [u8; N])
        ensures
            r@ == self.digits(),
    {
        self.buf
    }
}

/// The lowest `N` decimal digits of `n`, most significant first, padded
/// with zeros.
pub fn to_dec_u16<const N: usize>(n: u16) -> (r: DecStr<N>)
    ensures
        r.digits().len() == N,
        forall|j: int| 0 <= j < N ==> #[trigger] r.digits()[j] == dec_digit(n as nat, (N - 1 - j) as nat),
{
    let mut output = [48u8; N];
    let mut cur = n;
    let mut i: usize = N;
    let mut done = false;
    proof {
        assert(pow(10, 0) == 1) by {
            reveal(pow);
        }
        assert((N - i) as nat == 0);
        assert(n as nat / 1 == n as nat);
    }
    while i > 0 && !done
        invariant
            i <= N,
            output@.len() == N,
            !done ==> cur as nat == n as nat / (pow(10, (N - i) as nat) as nat),
            done ==> n as nat / (pow(10, (N - i) as nat) as nat) == 0,
            forall|j: int| i <= j < N ==> #[trigger] output@[j] == dec_digit(n as nat, (N - 1 - j) as nat),
            forall|j: int| 0 <= j < i ==> #[trigger] output@[j] == 48,
        decreases i,
    {
        i -= 1;
        let (q, d) = div10_u16(cur);
        proof {
            lemma_next_power(n as nat, (N - 1 - i) as nat);
        }
        output[i] = 48 + d as u8;
        if q == 0 {
            done = true;
        }
        cur = q;
    }
    proof {
        assert forall|j: int| 0 <= j < N implies #[trigger] output@[j] == dec_digit(
            n as nat,
            (N - 1 - j) as nat,
        ) by {
            if j < i {
                if done {
                    lemma_zero_above(n as nat, (N - i) as nat, (N - 1 - j) as nat);
                }
            }
        }
    }
    DecStr { buf: output }
}

} // verus!
