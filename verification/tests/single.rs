use solar_sim::single::{MINUS_ONE, ONE};

#[test]
fn one_is_the_encoding_of_one() {
    assert_eq!(ONE, 1.0f32.to_bits());
    assert_eq!(f32::from_bits(ONE), 1.0);
}

#[test]
fn minus_one_is_the_encoding_of_minus_one() {
    assert_eq!(MINUS_ONE, (-1.0f32).to_bits());
    assert_eq!(f32::from_bits(MINUS_ONE), -1.0);
}

#[test]
fn no_other_encoding_compares_equal_to_a_unit() {
    let neighbours = [ONE - 1, ONE + 1, MINUS_ONE - 1, MINUS_ONE + 1, 0, 0x8000_0000, 0x7F80_0000];
    for bits in neighbours {
        assert!(f32::from_bits(bits) != 1.0);
        assert!(f32::from_bits(bits) != -1.0);
    }
}
