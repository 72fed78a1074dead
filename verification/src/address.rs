//! 160-bit contract addresses as plain values.
//!
//! An address is held as two machine integers covering its 20 bytes,
//! so that equality is structural and the registry can compare keys
//! directly.  Rendering produces the usual `0x`-prefixed, 40-digit,
//! lower-case hexadecimal form.

use vstd::prelude::*;
use vstd::string::*;
use crate::digits::{hex_str_fixed, u128_to_hex_fixed};

verus! {

/// A 160-bit contract address: `hi` holds the first 4 bytes, `lo` the
/// remaining 16, both big-endian.
#[derive(Clone, Copy, PartialEq, Eq, Structural, Debug)]
pub struct Address {
    pub hi: u32,
    pub lo: u128,
}

/// The big-endian integer value of a byte sequence.
pub open spec fn be_bytes_val(s: Seq<u8>) -> int
    decreases s.len(),
{
    if s.len() == 0 {
        0
    } else {
        be_bytes_val(s.drop_last()) * 256 + s.last()
    }
}

/// 256 raised to `n`.
pub open spec fn pow256(n: nat) -> int
    decreases n,
{
    if n == 0 {
        1
    } else {
        pow256((n - 1) as nat) * 256
    }
}

/// The address denoted by 20 bytes, big-endian.
pub open spec fn address_of_bytes(b: Seq<u8>) -> Address {
    Address {
        hi: be_bytes_val(b.take(4)) as u32,
        lo: be_bytes_val(b.subrange(4, 20)) as u128,
    }
}

/// The textual form of an address: `0x` followed by 40 lower-case
/// hexadecimal digits.
pub open spec fn address_hex(a: Address) -> Seq<char> {
    "0x"@ + hex_str_fixed(a.hi as int, 8) + hex_str_fixed(a.lo as int, 32)
}

proof fn lemma_pow256_pos(n: nat)
    ensures
        pow256(n) >= 1,
    decreases n,
{
    if n > 0 {
        lemma_pow256_pos((n - 1) as nat);
        assert(pow256((n - 1) as nat) * 256 >= 1) by (nonlinear_arith)
            requires pow256((n - 1) as nat) >= 1;
    }
}

proof fn lemma_pow256_increases(a: nat, b: nat)
    requires
        a <= b,
    ensures
        pow256(a) <= pow256(b),
    decreases b,
{
    if a < b {
        lemma_pow256_increases(a, (b - 1) as nat);
        lemma_pow256_pos((b - 1) as nat);
        assert(pow256(b) == pow256((b - 1) as nat) * 256);
        assert(pow256((b - 1) as nat) * 256 >= pow256((b - 1) as nat)) by (nonlinear_arith)
            requires pow256((b - 1) as nat) >= 1;
    }
}

impl Address {
    /// Reads an address from its 20-byte big-endian form.
    pub fn from_bytes(b: &Vec<u8>) -> (r: Address)
        requires
            b@.len() == 20,
        ensures
            r == address_of_bytes(b@),
    {
        let mut hi: u32 = 0;
        let mut i: usize = 0;
        while i < 4
            invariant
                0 <= i <= 4,
                b@.len() == 20,
                hi == be_bytes_val(b@.take(i as int)),
                hi < pow256(i as nat),
            decreases 4 - i,
        {
            proof {
                assert(b@.take(i as int + 1).drop_last() =~= b@.take(i as int));
                assert(b@.take(i as int + 1).last() == b@[i as int]);
                assert(pow256(4) == 0x1_0000_0000) by {
                    reveal_with_fuel(pow256, 5);
                }
                assert(pow256((i + 1) as nat) == pow256(i as nat) * 256);
                lemma_pow256_increases(i as nat, 3nat);
                assert(hi * 256 + b@[i as int] < pow256(i as nat) * 256) by (nonlinear_arith)
                    requires
                        hi <= pow256(i as nat) - 1,
                        0 <= b@[i as int] < 256,
                ;
                assert(hi * 256 >= 0) by (nonlinear_arith)
                    requires hi >= 0;
                assert(pow256(i as nat) * 256 <= 0x1_0000_0000) by (nonlinear_arith)
                    requires
                        pow256(i as nat) <= pow256(3nat),
                        pow256(3nat) * 256 == 0x1_0000_0000,
                ;
            }
            hi = hi * 256 + (b[i] as u32);
            i = i + 1;
        }
        let mut lo: u128 = 0;
        let mut j: usize = 4;
        while j < 20
            invariant
                4 <= j <= 20,
                b@.len() == 20,
                lo == be_bytes_val(b@.subrange(4, j as int)),
                lo < pow256((j - 4) as nat),
            decreases 20 - j,
        {
            proof {
                assert(b@.subrange(4, j as int + 1).drop_last() =~= b@.subrange(4, j as int));
                assert(b@.subrange(4, j as int + 1).last() == b@[j as int]);
                assert(pow256(16) == 0x1_0000_0000_0000_0000_0000_0000_0000_0000) by {
                    reveal_with_fuel(pow256, 17);
                }
                assert(pow256((j - 4 + 1) as nat) == pow256((j - 4) as nat) * 256);
                lemma_pow256_increases((j - 4) as nat, 15nat);
                assert(lo * 256 + b@[j as int] < pow256((j - 4) as nat) * 256) by (nonlinear_arith)
                    requires
                        lo <= pow256((j - 4) as nat) - 1,
                        0 <= b@[j as int] < 256,
                ;
                assert(lo * 256 >= 0) by (nonlinear_arith)
                    requires lo >= 0;
                assert(pow256((j - 4) as nat) * 256 <= pow256(16nat)) by (nonlinear_arith)
                    requires
                        pow256((j - 4) as nat) <= pow256(15nat),
                        pow256(15nat) * 256 == pow256(16nat),
                ;
            }
            lo = lo * 256 + (b[j] as u128);
            j = j + 1;
        }
        proof {
            assert(b@.take(4) =~= b@.take(4 as int));
            assert(b@.subrange(4, 20) =~= b@.subrange(4, 20 as int));
        }
        Address { hi, lo }
    }

    /// Renders the address as `0x` plus 40 lower-case hex digits.
    pub fn to_hex(&self) -> (r: String)
        ensures
            r@ == address_hex(*self),
    {
        let p: &str = "0x";
        let mut s = p.to_owned();
        s.append(u128_to_hex_fixed(self.hi as u128, 8).as_str());
        s.append(u128_to_hex_fixed(self.lo, 32).as_str());
        proof {
            assert(s@ =~= address_hex(*self));
        }
        s
    }
}

/// Concatenation splits a big-endian value: the front bytes are
/// shifted past the back bytes.
pub proof fn lemma_be_concat(a: Seq<u8>, b: Seq<u8>)
    ensures
        be_bytes_val(a + b) == be_bytes_val(a) * pow256(b.len()) + be_bytes_val(b),
    decreases b.len(),
{
    if b.len() == 0 {
        assert(a + b =~= a);
    } else {
        assert((a + b).drop_last() =~= a + b.drop_last());
        assert((a + b).last() == b.last());
        lemma_be_concat(a, b.drop_last());
        assert(pow256(b.len()) == pow256((b.len() - 1) as nat) * 256);
        assert((be_bytes_val(a) * pow256((b.len() - 1) as nat) + be_bytes_val(b.drop_last())) * 256
            + b.last() == be_bytes_val(a) * (pow256((b.len() - 1) as nat) * 256) + (be_bytes_val(
            b.drop_last(),
        ) * 256 + b.last())) by (nonlinear_arith);
    }
}

/// The big-endian bytes of a 32-bit value.
fn u32_be_bytes(v: u32) -> (r: Vec<u8>)
    ensures
        r@.len() == 4,
        be_bytes_val(r@) == v,
{
    let b0 = (v / 0x100_0000) as u8;
    let b1 = ((v / 0x1_0000) % 256) as u8;
    let b2 = ((v / 0x100) % 256) as u8;
    let b3 = (v % 256) as u8;
    let mut r: Vec<u8> = Vec::new();
    r.push(b0);
    r.push(b1);
    r.push(b2);
    r.push(b3);
    proof {
        assert(v / 0x100_0000 < 256);
        assert(v == (v / 0x100_0000) * 0x100_0000 + ((v / 0x1_0000) % 256) * 0x1_0000 + ((v
            / 0x100) % 256) * 0x100 + v % 256) by (bit_vector);
        assert(r@ =~= seq![b0, b1, b2, b3]);
        assert(seq![b0, b1, b2, b3].drop_last() =~= seq![b0, b1, b2]);
        assert(seq![b0, b1, b2].drop_last() =~= seq![b0, b1]);
        assert(seq![b0, b1].drop_last() =~= seq![b0]);
        assert(seq![b0].drop_last() =~= Seq::<u8>::empty());
        reveal_with_fuel(be_bytes_val, 6);
        assert(be_bytes_val(seq![b0, b1, b2, b3]) == ((b0 * 256 + b1) * 256 + b2) * 256 + b3);
    }
    r
}

/// The big-endian bytes of a 64-bit value.
fn u64_be_bytes(v: u64) -> (r: Vec<u8>)
    ensures
        r@.len() == 8,
        be_bytes_val(r@) == v,
{
    let hi = (v / 0x1_0000_0000) as u32;
    let lo = (v % 0x1_0000_0000) as u32;
    proof {
        assert(v / 0x1_0000_0000 < 0x1_0000_0000 && v == (v / 0x1_0000_0000) * 0x1_0000_0000 + v
            % 0x1_0000_0000) by (bit_vector);
    }
    let mut r = u32_be_bytes(hi);
    let ghost a = r@;
    let back = u32_be_bytes(lo);
    let ghost b = back@;
    let mut back = back;
    r.append(&mut back);
    proof {
        assert(r@ =~= a + b);
        lemma_be_concat(a, b);
        assert(pow256(4) == 0x1_0000_0000) by {
            reveal_with_fuel(pow256, 5);
        }
    }
    r
}

impl Address {
    /// Writes the address back to its 20-byte big-endian form.
    pub fn to_bytes(&self) -> (r: Vec<u8>)
        ensures
            r@.len() == 20,
            address_of_bytes(r@) == *self,
            be_bytes_val(r@.take(4)) == self.hi,
            be_bytes_val(r@.subrange(4, 20)) == self.lo,
    {
        let lo_front = (self.lo / 0x1_0000_0000_0000_0000) as u64;
        let lo_back = (self.lo % 0x1_0000_0000_0000_0000) as u64;
        proof {
            let lo = self.lo;
            assert(lo / 0x1_0000_0000_0000_0000 < 0x1_0000_0000_0000_0000 && lo == (lo
                / 0x1_0000_0000_0000_0000) * 0x1_0000_0000_0000_0000 + lo
                % 0x1_0000_0000_0000_0000) by (bit_vector);
        }
        let mut r = u32_be_bytes(self.hi);
        let ghost a = r@;
        let mut m = u64_be_bytes(lo_front);
        let ghost b = m@;
        r.append(&mut m);
        let mut t = u64_be_bytes(lo_back);
        let ghost c = t@;
        r.append(&mut t);
        proof {
            assert(r@ =~= a + (b + c));
            lemma_be_concat(b, c);
            assert(pow256(8) == 0x1_0000_0000_0000_0000) by {
                reveal_with_fuel(pow256, 9);
            }
            assert(be_bytes_val(b + c) == lo_front * 0x1_0000_0000_0000_0000 + lo_back);
            assert(be_bytes_val(b + c) == self.lo);
            assert(r@.take(4) =~= a);
            assert(r@.subrange(4, 20) =~= b + c);
        }
        r
    }
}

} // verus!
