use netspeed::workspace::{create_temp_dir_name, temp_dir_name};

#[test]
fn the_name_is_temp_and_the_milliseconds() {
    assert_eq!(temp_dir_name(0), "temp_0");
    assert_eq!(temp_dir_name(1603000000123), "temp_1603000000123");
    assert_eq!(temp_dir_name(u128::MAX), format!("temp_{}", u128::MAX));
}

#[test]
fn names_of_different_milliseconds_differ() {
    assert_ne!(temp_dir_name(1603000000123), temp_dir_name(1603000000124));
    assert_ne!(temp_dir_name(1), temp_dir_name(10));
    assert_ne!(temp_dir_name(0), temp_dir_name(u128::MAX));
}

#[test]
fn the_name_of_now_is_temp_and_digits() {
    let name = create_temp_dir_name().expect("the clock stands after the epoch");
    let digits = name.strip_prefix("temp_").expect("the name starts with temp_");
    assert!(!digits.is_empty());
    assert!(digits.chars().all(|c| c.is_ascii_digit()));
    let millis: u128 = digits.parse().unwrap();
    assert_eq!(temp_dir_name(millis), name);
}
