//! Fixed-size words, byte strings and the 256-bit integer.

use std::sync::Arc;

use vstd::prelude::*;

verus! {

/// A 32-byte word: a hash, a state root, a storage slot.
pub type B256 = [u8; 32];

/// A 20-byte account address.
pub type Address = [u8; 20];

/// A 256-byte logs bloom.
pub type Bloom = [u8; 256];

/// A shared byte string. Cloning it shares the bytes.
pub type Bytes = Arc<Vec<u8>>;

/// An unsigned 256-bit integer as four 64-bit limbs, the least significant first.
#[derive(Clone, Copy, Debug, PartialEq, Eq)]
pub struct U256 {
    pub limbs: [u64; 4],
}

/// One more than the largest limb.
pub open spec fn limb_base() -> nat {
    0x1_0000_0000_0000_0000
}

/// One more than the largest `U256`.
pub open spec fn u256_modulus() -> nat {
    limb_base() * limb_base() * limb_base() * limb_base()
}

/// The modulus is beyond every machine integer of 64 bits.
pub(crate) proof fn lemma_modulus_bound()
    ensures
        u256_modulus() > limb_base(),
{
    assert(limb_base() * limb_base() * limb_base() * limb_base() > limb_base())
        by (nonlinear_arith)
        requires
            limb_base() == 0x1_0000_0000_0000_0000nat,
    ;
}

impl U256 {
    /// The integer that the limbs stand for.
    pub open spec fn value(self) -> nat {
        self.limbs@[0] as nat + limb_base() * (self.limbs@[1] as nat + limb_base() * (
        self.limbs@[2] as nat + limb_base() * self.limbs@[3] as nat))
    }

    /// The 256-bit integer with the value of `n`.
    pub fn from_u64(n: u64) -> (r: U256)
        ensures
            r.value() == n,
    {
        U256 { limbs: [n, 0, 0, 0] }
    }

    /// Adds two integers, wrapping around at the modulus.
    ///
    /// Trusted: calls the addition of `alloy_primitives::U256`, which is documented to compute
    /// the sum modulo two to the 256th power.
    #[verifier::external_body]
    pub(crate) fn wrapping_add(self, rhs: U256) -> (r: U256)
        ensures
            r.value() == (self.value() + rhs.value()) % u256_modulus(),
    {
        let sum = alloy_primitives::U256::from_limbs(self.limbs) + alloy_primitives::U256::from_limbs(rhs.limbs);
        U256 { limbs: sum.into_limbs() }
    }
}

/// The `len` low bytes of `value`, the most significant first.
pub open spec fn be_bytes(value: nat, len: nat) -> Seq<u8>
    decreases len,
{
    if len == 0 {
        Seq::empty()
    } else {
        be_bytes(value / 256, (len - 1) as nat).push((value % 256) as u8)
    }
}

/// One more than the largest integer of `len` bytes.
spec fn byte_span(len: nat) -> nat
    decreases len,
{
    if len == 0 {
        1
    } else {
        256 * byte_span((len - 1) as nat)
    }
}

/// Integers that fit in `len` bytes are told apart by those bytes.
proof fn lemma_be_bytes_injective(a: nat, b: nat, len: nat)
    requires
        a < byte_span(len),
        b < byte_span(len),
        be_bytes(a, len) == be_bytes(b, len),
    ensures
        a == b,
    decreases len,
{
    if len > 0 {
        let fewer = (len - 1) as nat;
        let high_a = be_bytes(a / 256, fewer);
        let high_b = be_bytes(b / 256, fewer);
        assert(high_a.push((a % 256) as u8).last() == high_b.push((b % 256) as u8).last());
        assert(high_a =~= high_a.push((a % 256) as u8).drop_last());
        assert(high_b =~= high_b.push((b % 256) as u8).drop_last());
        lemma_be_bytes_injective(a / 256, b / 256, fewer);
    }
}

/// Different integers have different words.
pub proof fn law_words_are_distinct(a: U256, b: U256)
    requires
        a.value() != b.value(),
    ensures
        be_bytes(a.value(), 32) != be_bytes(b.value(), 32),
{
    assert(byte_span(32) == u256_modulus()) by {
        reveal_with_fuel(byte_span, 33);
    }
    if be_bytes(a.value(), 32) == be_bytes(b.value(), 32) {
        lemma_be_bytes_injective(a.value(), b.value(), 32);
    }
}

/// The 32-byte word that holds `n`, the most significant byte first.
pub open spec fn word_of(n: U256) -> B256 {
    choose|w: B256| w@ == be_bytes(n.value(), 32)
}

/// The byte at place `i` of an integer laid out in `len` bytes: the one that counts multiples of
/// 256 to the power of the number of bytes behind it.
pub proof fn law_bytes_are_big_endian(value: nat, len: nat, i: int)
    requires
        0 <= i < len,
    ensures
        be_bytes(value, len).len() == len,
        be_bytes(value, len)[i] == (value as int / vstd::arithmetic::power::pow(
            256,
            (len - 1 - i) as nat,
        )) % 256,
    decreases len,
{
    let fewer = (len - 1) as nat;
    lemma_be_bytes_len(value / 256, fewer);
    let high = be_bytes(value / 256, fewer);
    if i == len - 1 {
        vstd::arithmetic::power::lemma_pow0(256);
        assert(high.push((value % 256) as u8)[i] == value % 256);
    } else {
        law_bytes_are_big_endian(value / 256, fewer, i);
        let behind = (fewer - 1 - i) as nat;
        let span = vstd::arithmetic::power::pow(256, behind);
        vstd::arithmetic::power::lemma_pow_positive(256, behind);
        vstd::arithmetic::div_mod::lemma_div_denominator(value as int, 256, span);
        assert(vstd::arithmetic::power::pow(256, behind + 1) == 256 * span) by {
            reveal(vstd::arithmetic::power::pow);
        }
        assert(high.push((value % 256) as u8)[i] == high[i]);
        assert((len - 1 - i) as nat == behind + 1);
    }
}

/// An integer laid out in `len` bytes has that many.
proof fn lemma_be_bytes_len(value: nat, len: nat)
    ensures
        be_bytes(value, len).len() == len,
    decreases len,
{
    if len > 0 {
        lemma_be_bytes_len(value / 256, (len - 1) as nat);
    }
}

/// The word of an integer holds it, the most significant byte first, and no other word does.
pub proof fn law_word_holds_integer(n: U256, word: B256)
    ensures
        word == word_of(n) <==> word@ == be_bytes(n.value(), 32),
{
    let b = be_bytes(n.value(), 32);
    lemma_be_bytes_len(n.value(), 32);
    let w: B256 = [
        b[0],
        b[1],
        b[2],
        b[3],
        b[4],
        b[5],
        b[6],
        b[7],
        b[8],
        b[9],
        b[10],
        b[11],
        b[12],
        b[13],
        b[14],
        b[15],
        b[16],
        b[17],
        b[18],
        b[19],
        b[20],
        b[21],
        b[22],
        b[23],
        b[24],
        b[25],
        b[26],
        b[27],
        b[28],
        b[29],
        b[30],
        b[31],
    ];
    assert(w@ =~= b);
    assert(word_of(n)@ == b);
    if word@ == b {
        assert(word =~= word_of(n));
    }
}

/// The big-endian word of an integer.
///
/// Trusted: calls the conversion of `alloy_primitives::U256` into `alloy_primitives::B256`,
/// which lays the integer out as 32 big-endian bytes.
#[verifier::external_body]
fn be_word(n: U256) -> (r: B256)
    ensures
        r@ == be_bytes(n.value(), 32),
{
    alloy_primitives::B256::from(alloy_primitives::U256::from_limbs(n.limbs)).0
}

/// The storage word of an integer.
pub fn word_from_u256(n: U256) -> (r: B256)
    ensures
        r == word_of(n),
        r@ == be_bytes(n.value(), 32),
{
    let r = be_word(n);
    assert(word_of(n)@ == r@);
    assert(word_of(n) =~= r);
    r
}

} // verus!
