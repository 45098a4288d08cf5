use blinkstick_rs::codec::{decode_frame, encode_frame, encode_single_frame};
use blinkstick_rs::Color;

#[test]
fn all_leds_report_carries_triplets_in_grb_order() {
    let state = vec![Color { r: 1, g: 2, b: 3 }, Color { r: 4, g: 5, b: 6 }];
    let report = encode_frame(&state);
    assert_eq!(report, vec![0x6, 0, 2, 1, 3, 5, 4, 6]);
}

#[test]
fn single_led_report_is_flat_and_rgb_ordered() {
    let report = encode_single_frame(5, Color { r: 17, g: 2, b: 3 });
    assert_eq!(report, vec![0x5, 0, 5, 17, 2, 3]);
}

#[test]
fn decode_reverses_encode_for_a_full_mapping() {
    let mut state: Vec<Color> = Vec::new();
    for led in 0..8u8 {
        state.push(Color { r: led, g: 100 + led, b: 200 + led });
    }
    let report = encode_frame(&state);
    assert_eq!(decode_frame(&report, 8), state);
}

#[test]
fn uniform_state_survives_the_round_trip() {
    let color = Color { r: 2, g: 2, b: 7 };
    let state = vec![color; 32];
    let report = encode_frame(&state);
    assert_eq!(decode_frame(&report, 32), vec![color; 32]);
}

#[test]
fn selected_leds_light_up_and_the_rest_stay_dark() {
    let color = Color { r: 10, g: 0, b: 0 };
    let dark = Color { r: 0, g: 0, b: 0 };
    let mut state = vec![dark; 8];
    for led in [0usize, 2, 4, 6] {
        state[led] = color;
    }
    let report = encode_frame(&state);
    let colors = decode_frame(&report, 8);
    for led in 0..8usize {
        if led % 2 == 0 {
            assert_eq!(colors[led], color);
        } else {
            assert_eq!(colors[led], dark);
        }
    }
}

#[test]
fn decode_reads_only_the_leds_it_is_asked_for() {
    let mut report = vec![0u8; 100];
    report[0] = 0x6;
    report[2] = 20;
    report[3] = 10;
    report[4] = 30;
    report[5] = 50;
    report[6] = 40;
    report[7] = 60;
    report[8] = 99;
    let colors = decode_frame(&report, 2);
    assert_eq!(
        colors,
        vec![Color { r: 10, g: 20, b: 30 }, Color { r: 40, g: 50, b: 60 }]
    );
}
