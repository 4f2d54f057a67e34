use helib_rs::bits::{reverse_bits, reverse_bits32, reverse_n_bits};

#[test]
fn reverse_bits32_known_values() {
    assert_eq!(reverse_bits32(0), 0);
    assert_eq!(reverse_bits32(1), 0x8000_0000);
    assert_eq!(reverse_bits32(0x8000_0000), 1);
    assert_eq!(reverse_bits32(0x0000_00f0), 0x0f00_0000);
    assert_eq!(reverse_bits32(0x1234_5678), 0x1234_5678u32.reverse_bits());
    assert_eq!(reverse_bits32(u32::MAX), u32::MAX);
}

#[test]
fn reverse_bits_known_values() {
    assert_eq!(reverse_bits(0), 0);
    assert_eq!(reverse_bits(1), 1u64 << 63);
    assert_eq!(reverse_bits(0x0123_4567_89ab_cdef), 0x0123_4567_89ab_cdefu64.reverse_bits());
    assert_eq!(reverse_bits(u64::MAX), u64::MAX);
}

#[test]
fn reverse_n_bits_known_values() {
    assert_eq!(reverse_n_bits(1, 1), 1);
    assert_eq!(reverse_n_bits(1, 3), 4);
    assert_eq!(reverse_n_bits(3, 3), 6);
    assert_eq!(reverse_n_bits(6, 3), 3);
    assert_eq!(reverse_n_bits(0b1011, 4), 0b1101);
    assert_eq!(reverse_n_bits(1, 12), 2048);
    assert_eq!(reverse_n_bits(5, 64), 5u64.reverse_bits());
}

#[test]
fn reverse_n_bits_ignores_the_bits_above() {
    assert_eq!(reverse_n_bits(0b1_0110, 4), 0b0110);
    assert_eq!(reverse_n_bits(u64::MAX, 5), 31);
}

#[test]
fn reverse_n_bits_is_an_involution() {
    for bits in 1..=12u64 {
        for x in 0..(1u64 << bits) {
            let once = reverse_n_bits(x, bits);
            assert!(once < (1u64 << bits));
            assert_eq!(reverse_n_bits(once, bits), x);
        }
    }
    for bits in 13..=32u64 {
        for x in [0u64, 1, 2, 3, (1u64 << bits) - 1, (1u64 << (bits - 1)) + 5, 0x1234 % (1u64 << bits)] {
            assert_eq!(reverse_n_bits(reverse_n_bits(x, bits), bits), x);
        }
    }
}
