use blinkstick_rs::address::{derive_max_leds, report_length, validate_led, validate_leds};
use blinkstick_rs::{FeatureError, FeatureErrorType};

#[test]
fn a_98_byte_report_means_32_leds() {
    let max_leds = derive_max_leds(98);
    assert_eq!(max_leds, 32);
    assert_eq!(report_length(max_leds), 98);
}

#[test]
fn small_reports_mean_few_or_no_leds() {
    assert_eq!(derive_max_leds(0), 0);
    assert_eq!(derive_max_leds(1), 0);
    assert_eq!(derive_max_leds(2), 0);
    assert_eq!(derive_max_leds(5), 1);
    assert_eq!(derive_max_leds(97), 31);
}

#[test]
fn the_led_count_is_capped_at_the_largest_device() {
    assert_eq!(derive_max_leds(100), 32);
    assert_eq!(derive_max_leds(10_000), 32);
}

#[test]
fn a_single_led_device_has_a_5_byte_report() {
    assert_eq!(report_length(1), 5);
    assert_eq!(report_length(0), 2);
}

#[test]
fn an_out_of_range_led_is_rejected_with_its_index_and_the_range() {
    let check = validate_led(8, 8);
    assert_eq!(
        check,
        Err(FeatureError { kind: FeatureErrorType::OutOfRange { led: 8, max_leds: 8 } })
    );
    assert_eq!(validate_led(7, 8), Ok(()));
    assert_eq!(validate_led(0, 0).is_err(), true);
}

#[test]
fn a_led_list_is_rejected_on_its_first_out_of_range_entry() {
    assert_eq!(validate_leds(&[0, 2, 4, 6], 8), Ok(()));
    let check = validate_leds(&[0, 9, 12], 8);
    assert_eq!(
        check,
        Err(FeatureError { kind: FeatureErrorType::OutOfRange { led: 9, max_leds: 8 } })
    );
    assert_eq!(validate_leds(&[], 0), Ok(()));
}
