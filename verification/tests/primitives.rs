use flashblocks_rpc::primitives::{word_from_u256, U256};

#[test]
fn word_of_a_small_integer_is_big_endian() {
    let word = word_from_u256(U256::from_u64(0x0102_0304));
    let mut expected = [0u8; 32];
    expected[28..].copy_from_slice(&[1, 2, 3, 4]);
    assert_eq!(word, expected);
}

#[test]
fn word_of_the_top_limb_comes_first() {
    let word = word_from_u256(U256 { limbs: [0, 0, 0, 0xff00_0000_0000_0001] });
    assert_eq!(word[0], 0xff);
    assert_eq!(word[7], 1);
    assert_eq!(word[8..], [0u8; 24]);
}

#[test]
fn different_integers_have_different_words() {
    let a = word_from_u256(U256 { limbs: [1, 0, 0, 0] });
    let b = word_from_u256(U256 { limbs: [0, 1, 0, 0] });
    let c = word_from_u256(U256 { limbs: [u64::MAX, u64::MAX, u64::MAX, u64::MAX] });
    assert_ne!(a, b);
    assert_eq!(c, [0xff; 32]);
}
