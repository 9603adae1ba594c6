use netspeed::binary64::{Binary64, Class};
use netspeed::decimal::{decimal_string, digits_of};
use netspeed::report::convert_bits_to_readable_megabits;

fn megabits(x: f64) -> String {
    convert_bits_to_readable_megabits(Binary64::from_bits(x.to_bits()))
}

fn two_places(x: f64) -> String {
    Binary64::from_bits(x.to_bits()).classify().two_places()
}

fn same_as_formatter(x: f64) {
    assert_eq!(two_places(x), format!("{:.2}", x), "two places of {:e}", x);
    assert_eq!(megabits(x), format!("{:.2}", x / 125000.0), "megabits of {:e}", x);
}

#[test]
fn megabits_of_a_gigabit_line() {
    assert_eq!(megabits(125000000.0), "1000.00");
}

#[test]
fn megabits_of_half_a_megabit() {
    assert_eq!(megabits(62500.0), "0.50");
}

#[test]
fn megabits_of_one_megabit() {
    assert_eq!(megabits(125000.0), "1.00");
}

#[test]
fn megabits_of_zero() {
    assert_eq!(megabits(0.0), "0.00");
    assert_eq!(megabits(-0.0), "-0.00");
}

#[test]
fn latency_is_rounded_not_cut() {
    assert_eq!(two_places(12.345), "12.35");
}

#[test]
fn a_tie_goes_to_the_even_hundredth() {
    assert_eq!(two_places(0.125), "0.12");
    assert_eq!(two_places(0.375), "0.38");
    assert_eq!(two_places(2.5), "2.50");
    assert_eq!(two_places(1.005), "1.00");
}

#[test]
fn megabits_follow_the_rounded_quotient() {
    // 625 / 125000 is 0.005 in exact arithmetic; the nearest double lies above it.
    assert_eq!(megabits(625.0), "0.01");
    // 1875 / 125000 is 0.015 in exact arithmetic; the nearest double lies below it.
    assert_eq!(megabits(1875.0), "0.01");
    assert_eq!(megabits(625.0), format!("{:.2}", 625.0_f64 / 125000.0));
    assert_eq!(megabits(1875.0), format!("{:.2}", 1875.0_f64 / 125000.0));
}

#[test]
fn what_is_no_number_is_named() {
    assert_eq!(two_places(f64::NAN), "NaN");
    assert_eq!(two_places(f64::INFINITY), "inf");
    assert_eq!(two_places(f64::NEG_INFINITY), "-inf");
    assert_eq!(megabits(f64::NAN), "NaN");
    assert_eq!(megabits(f64::INFINITY), "inf");
    assert_eq!(megabits(f64::NEG_INFINITY), "-inf");
}

#[test]
fn negative_numbers_keep_their_sign() {
    assert_eq!(two_places(-0.001), "-0.00");
    assert_eq!(two_places(-12.345), "-12.35");
    assert_eq!(megabits(-125000.0), "-1.00");
}

#[test]
fn chosen_numbers_are_written_as_the_formatter_writes_them() {
    let chosen = [
        0.0,
        1.0,
        0.005,
        0.015,
        0.994999,
        0.995,
        0.9951,
        99.995,
        1e-7,
        1e-300,
        5e-324,
        2.2250738585072014e-308,
        2.225073858507201e-308,
        4.4e-320,
        123456789.125,
        9007199254740992.0,
        9007199254740993.0,
        1e15,
        1e16,
        1e22,
        1e23,
        1.7976931348623157e308,
        8.98846567431158e307,
        1e300,
        3.0e-320 * 125000.0,
        125000.0 * 5e-324,
        62500.0 * 5e-324,
        187500.0 * 5e-324,
        u64::MAX as f64,
        i64::MIN as f64,
    ];
    for x in chosen {
        same_as_formatter(x);
        same_as_formatter(-x);
    }
}

#[test]
fn whole_bandwidths_are_written_as_the_formatter_writes_them() {
    for bytes in 0..20000u64 {
        same_as_formatter(bytes as f64);
    }
    for step in 0..2000u64 {
        same_as_formatter((step * 1250 + 625) as f64);
        same_as_formatter((step * 999_983 + 7) as f64);
    }
}

#[test]
fn scattered_bit_patterns_are_written_as_the_formatter_writes_them() {
    let mut state: u64 = 0x2545_f491_4f6c_dd1d;
    for _ in 0..600 {
        state = state.wrapping_mul(6364136223846793005).wrapping_add(1442695040888963407);
        let bits = state ^ (state >> 29);
        same_as_formatter(f64::from_bits(bits));
    }
}

#[test]
fn small_scales_are_written_as_the_formatter_writes_them() {
    let mut state: u64 = 0x9e37_79b9_7f4a_7c15;
    for _ in 0..3000 {
        state = state.wrapping_mul(6364136223846793005).wrapping_add(1442695040888963407);
        let fraction = state >> 12;
        let field = 1023 - 20 + (state % 60);
        same_as_formatter(f64::from_bits((field << 52) | fraction));
    }
}

#[test]
fn subnormal_quotients_are_written_and_rounded() {
    // The quotient of the least positive doubles by 125000 is subnormal or zero.
    for n in 0..400u64 {
        let x = f64::from_bits(n * 31_250);
        let q = Binary64::from_bits(x.to_bits()).classify().divided_by(125000);
        let expected = x / 125000.0;
        match q {
            Class::Finite(f) => {
                assert_eq!(f.scale, -1074);
                assert_eq!(f.significand, expected.to_bits());
            }
            _ => panic!("a finite number has a finite quotient"),
        }
    }
}

#[test]
fn quotients_are_the_doubles_that_division_gives() {
    let mut state: u64 = 0x0123_4567_89ab_cdef;
    for _ in 0..3000 {
        state = state.wrapping_mul(6364136223846793005).wrapping_add(1442695040888963407);
        let x = f64::from_bits(state >> 1);
        if !x.is_finite() {
            continue;
        }
        let expected = x / 125000.0;
        match Binary64::from_bits(x.to_bits()).classify().divided_by(125000) {
            Class::Finite(f) => {
                let value = (f.significand as f64) * 2.0_f64.powi(f.scale.max(-1022))
                    * 2.0_f64.powi(f.scale - f.scale.max(-1022));
                assert_eq!(value.to_bits(), expected.to_bits(), "quotient of {:e}", x);
            }
            _ => panic!("a finite number has a finite quotient"),
        }
    }
}

#[test]
fn classes_of_bit_patterns() {
    match Binary64::from_bits(1.0_f64.to_bits()).classify() {
        Class::Finite(f) => {
            assert!(!f.negative);
            assert_eq!(f.significand, 1u64 << 52);
            assert_eq!(f.scale, -52);
        }
        _ => panic!("one is finite"),
    }
    match Binary64::from_bits((-5e-324_f64).to_bits()).classify() {
        Class::Finite(f) => {
            assert!(f.negative);
            assert_eq!(f.significand, 1);
            assert_eq!(f.scale, -1074);
        }
        _ => panic!("the least double is finite"),
    }
    assert!(matches!(Binary64::from_bits(f64::NAN.to_bits()).classify(), Class::Nan));
    assert!(matches!(
        Binary64::from_bits(f64::NEG_INFINITY.to_bits()).classify(),
        Class::Infinite { negative: true }
    ));
}

#[test]
fn decimal_notation_of_numbers() {
    assert_eq!(decimal_string(0), "0");
    assert_eq!(decimal_string(7), "7");
    assert_eq!(decimal_string(10), "10");
    assert_eq!(decimal_string(1603000000123), "1603000000123");
    assert_eq!(decimal_string(u128::MAX), u128::MAX.to_string());
}

#[test]
fn digits_stand_least_significant_first() {
    assert_eq!(digits_of(0), Vec::<u8>::new());
    assert_eq!(digits_of(5), vec![5]);
    assert_eq!(digits_of(1230), vec![0, 3, 2, 1]);
}
