use blinkstick_rs::{calculate_gradients, Color};

#[test]
fn gradient_has_requested_length_and_ends_on_target() {
    let start = Color { r: 10, g: 20, b: 30 };
    let target = Color { r: 200, g: 100, b: 0 };
    let gradient = calculate_gradients(start, target, 7);
    assert_eq!(gradient.len(), 7);
    assert_eq!(*gradient.last().unwrap(), target);
}

#[test]
fn gradient_single_step_is_exactly_the_target() {
    let start = Color { r: 255, g: 0, b: 128 };
    let target = Color { r: 3, g: 200, b: 77 };
    let gradient = calculate_gradients(start, target, 1);
    assert_eq!(gradient, vec![target]);
}

#[test]
fn gradient_interpolates_each_channel_linearly() {
    let start = Color { r: 0, g: 0, b: 0 };
    let target = Color { r: 255, g: 100, b: 9 };
    let gradient = calculate_gradients(start, target, 4);
    let expected = vec![
        Color { r: 63, g: 25, b: 2 },
        Color { r: 127, g: 50, b: 4 },
        Color { r: 191, g: 75, b: 6 },
        Color { r: 255, g: 100, b: 9 },
    ];
    assert_eq!(gradient, expected);
}

#[test]
fn gradient_truncates_toward_the_lower_integer() {
    let start = Color { r: 0, g: 0, b: 0 };
    let target = Color { r: 10, g: 10, b: 10 };
    let gradient = calculate_gradients(start, target, 3);
    let expected = vec![
        Color { r: 3, g: 3, b: 3 },
        Color { r: 6, g: 6, b: 6 },
        Color { r: 10, g: 10, b: 10 },
    ];
    assert_eq!(gradient, expected);
}

#[test]
fn gradient_between_equal_endpoints_never_drifts() {
    let color = Color { r: 17, g: 2, b: 3 };
    let gradient = calculate_gradients(color, color, 5);
    assert_eq!(gradient, vec![color; 5]);
}

#[test]
fn gradient_descends_as_well_as_ascends() {
    let start = Color { r: 150, g: 150, b: 150 };
    let target = Color { r: 0, g: 0, b: 0 };
    let gradient = calculate_gradients(start, target, 25);
    assert_eq!(gradient.len(), 25);
    assert_eq!(*gradient.last().unwrap(), target);
    assert!(gradient.windows(2).all(|pair| pair[1].r <= pair[0].r));
}
