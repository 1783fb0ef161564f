use meter_node::temperature::{
    convert_to_celsius, median, temperature, SAMPLE_COUNT, SAMPLE_INTERVAL_MILLIS,
};

#[test]
fn median_of_an_odd_number_is_the_middle_sample() {
    let mut samples = [5u16, 1, 4, 2, 3];
    assert_eq!(median(&mut samples), 3);
    assert_eq!(samples, [1, 2, 3, 4, 5]);
}

#[test]
fn median_of_an_even_number_is_the_lower_middle_sample() {
    let mut samples = [40u16, 10, 30, 20];
    assert_eq!(median(&mut samples), 20);
    assert_eq!(samples, [10, 20, 30, 40]);
}

#[test]
fn median_of_one_sample_is_that_sample() {
    let mut samples = [77u16];
    assert_eq!(median(&mut samples), 77);
}

#[test]
fn median_ignores_a_single_spike() {
    let mut samples = [876u16, 877, 876, 4095, 876, 875, 876, 877, 876, 876];
    assert_eq!(samples.len(), SAMPLE_COUNT);
    assert_eq!(median(&mut samples), 876);
    assert_eq!(samples, [875, 876, 876, 876, 876, 876, 876, 877, 877, 4095]);
}

#[test]
fn median_keeps_duplicates() {
    let mut samples = [2u16, 2, 1, 1, 3, 3];
    assert_eq!(median(&mut samples), 2);
    assert_eq!(samples, [1, 1, 2, 2, 3, 3]);
}

#[test]
fn median_sorts_a_descending_run() {
    let mut samples = [9u16, 8, 7, 6, 5, 4, 3, 2, 1, 0];
    assert_eq!(median(&mut samples), 4);
    assert_eq!(samples, [0, 1, 2, 3, 4, 5, 6, 7, 8, 9]);
}

#[test]
fn calibration_matches_the_data_sheet() {
    // 0.706 V at the sensor is 27 degrees: raw = 0.706 / 3.3 * 4096 = 876.3
    assert_eq!(convert_to_celsius(876), 271);
    assert_eq!(convert_to_celsius(877), 267);
    assert_eq!(convert_to_celsius(0), 4372);
    assert_eq!(convert_to_celsius(4095), -14798);
}

#[test]
fn calibration_is_close_to_the_formula_in_floating_point() {
    for raw in (0u16..4096).step_by(7) {
        let exact = 27.0 - (raw as f64 * 3.3 / 4096.0 - 0.706) / 0.001721;
        let tenths = convert_to_celsius(raw) as f64;
        assert!((tenths - exact * 10.0).abs() <= 0.5 + 1e-6);
    }
}

#[test]
fn calibration_rounds_half_away_from_zero() {
    // the nearest tenth to 437.19 is 437.2, to -1479.84 it is -1479.8
    assert_eq!(convert_to_celsius(0), 4372);
    assert_eq!(convert_to_celsius(4095), -14798);
    // -1380.55 lies between -1380.5 and -1380.6 and a hair closer to the latter
    assert_eq!(convert_to_celsius(3883), -13806);
}

#[test]
fn calibration_is_held_to_sixteen_bits() {
    assert_eq!(convert_to_celsius(7933), -32765);
    assert_eq!(convert_to_celsius(7934), i16::MIN);
    assert_eq!(convert_to_celsius(u16::MAX), i16::MIN);
}

#[test]
fn temperature_is_the_calibrated_median() {
    let mut samples = [900u16, 876, 876, 850, 876, 4000, 876, 0, 876, 876];
    assert_eq!(temperature(&mut samples), 271);
    assert_eq!(samples[0], 0);
    assert_eq!(samples[9], 4000);
}

#[test]
fn median_works_on_any_ordered_samples() {
    let mut signed = [3i32, -7, 0, 12, -1];
    assert_eq!(median(&mut signed), 0);
    assert_eq!(signed, [-7, -1, 0, 3, 12]);
    let mut letters = ['d', 'a', 'c', 'b'];
    assert_eq!(median(&mut letters), 'b');
    let mut pairs = [(2u8, 1u8), (1, 9), (1, 2)];
    assert_eq!(median(&mut pairs), (1, 9));
    assert_eq!(pairs, [(1, 2), (1, 9), (2, 1)]);
}

#[test]
fn samples_are_taken_fifty_milliseconds_apart() {
    assert_eq!(SAMPLE_INTERVAL_MILLIS, 50);
}
