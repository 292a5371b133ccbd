use transcriber::fixed::{micros_from_bits, MICROS_ONE};

#[test]
fn half_is_half_a_million() {
    assert_eq!(micros_from_bits(0.5f32.to_bits()), 500_000);
}

#[test]
fn rounds_to_nearest_millionth() {
    // 0.7 is stored as 0.699999988...
    assert_eq!(micros_from_bits(0.7f32.to_bits()), 700_000);
    assert_eq!(micros_from_bits(0.1f32.to_bits()), 100_000);
    assert_eq!(micros_from_bits(0.123456f32.to_bits()), 123_456);
    assert_eq!(micros_from_bits(0.25f32.to_bits()), 250_000);
}

#[test]
fn small_values_round_to_the_nearest_millionth() {
    // 2^-21 is 0.000000476837...: below half a millionth.
    assert_eq!(micros_from_bits((2.0f32).powi(-21).to_bits()), 0);
    // 2^-20 is 0.00000095367...: nearest millionth is 1.
    assert_eq!(micros_from_bits((2.0f32).powi(-20).to_bits()), 1);
    assert_eq!(micros_from_bits(0.0000024f32.to_bits()), 2);
}

#[test]
fn ties_round_up() {
    // 2^-7 is 7812.5 millionths exactly.
    assert_eq!(micros_from_bits(0.0078125f32.to_bits()), 7813);
    // 3 * 2^-7 is 23437.5 millionths exactly.
    assert_eq!(micros_from_bits(0.0234375f32.to_bits()), 23438);
}

#[test]
fn zero_and_tiny_values_are_zero() {
    assert_eq!(micros_from_bits(0.0f32.to_bits()), 0);
    assert_eq!(micros_from_bits(f32::MIN_POSITIVE.to_bits()), 0);
    assert_eq!(micros_from_bits(1), 0); // smallest subnormal
    assert_eq!(micros_from_bits(1.0e-30f32.to_bits()), 0);
}

#[test]
fn one_and_above_are_one() {
    assert_eq!(micros_from_bits(1.0f32.to_bits()), MICROS_ONE);
    assert_eq!(micros_from_bits(3.5f32.to_bits()), MICROS_ONE);
    assert_eq!(micros_from_bits(f32::INFINITY.to_bits()), MICROS_ONE);
    assert_eq!(micros_from_bits(f32::MAX.to_bits()), MICROS_ONE);
}

#[test]
fn just_below_one_rounds_to_one() {
    assert_eq!(micros_from_bits(0.99999994f32.to_bits()), 1_000_000);
    assert_eq!(micros_from_bits(0.999999f32.to_bits()), 999_999);
}

#[test]
fn negatives_and_nan_are_zero() {
    assert_eq!(micros_from_bits((-0.5f32).to_bits()), 0);
    assert_eq!(micros_from_bits((-0.0f32).to_bits()), 0);
    assert_eq!(micros_from_bits((-1.0f32).to_bits()), 0);
    assert_eq!(micros_from_bits(f32::NEG_INFINITY.to_bits()), 0);
    assert_eq!(micros_from_bits(f32::NAN.to_bits()), 0);
}

#[test]
fn agrees_with_float_rounding_on_a_sweep() {
    let mut i: u32 = 0;
    while i <= 4000 {
        let value = i as f32 / 4000.0;
        let expected = (value as f64 * 1_000_000.0 + 0.5).floor() as u32;
        assert_eq!(micros_from_bits(value.to_bits()), expected, "value {}", value);
        i += 1;
    }
}
