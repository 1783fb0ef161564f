use meter_node::iec62056::{
    classify, energy_value_in, meter_id_in, parse_energy_value, parse_meter_id, sanitize,
    start_sequence, EnergyMeter, EnergyValue, Framing, MeterData, SentenceBuffer, SentenceKind,
    BAUD_RATE, METER_SENTENCE_LENGTH,
};
use meter_node::text::{find_in, parse_bounded};

fn as_float(value: EnergyValue) -> f32 {
    value.whole as f32 + value.fraction as f32 / 10f32.powi(value.fraction_digits as i32)
}

fn feed_all(meter: &mut EnergyMeter, bytes: &[u8]) -> Option<MeterData> {
    for byte in bytes {
        if let Some(data) = meter.feed(*byte) {
            return Some(data);
        }
    }
    None
}

#[test]
fn meter_id_sentence_yields_the_identifier() {
    assert_eq!(parse_meter_id("C.1(0000000074892473)\r\n"), Some(74892473));
}

#[test]
fn energy_sentence_yields_the_reading() {
    let value = parse_energy_value("1.8.0(0001234.567*kWh)\r\n").unwrap();
    assert_eq!(value, EnergyValue { whole: 1234, fraction: 567, fraction_digits: 3 });
    assert!((as_float(value) - 1234.567).abs() < 0.001);
}

#[test]
fn meter_id_needs_both_parentheses() {
    assert_eq!(parse_meter_id("C.1 0000000074892473)\r\n"), None);
    assert_eq!(parse_meter_id("C.1(0000000074892473\r\n"), None);
    assert_eq!(parse_meter_id(""), None);
}

#[test]
fn meter_id_takes_the_first_pair_of_parentheses() {
    assert_eq!(parse_meter_id("C.1(12)(34)"), Some(12));
    assert_eq!(parse_meter_id(")C.1(7)"), Some(7));
}

#[test]
fn meter_id_refuses_anything_but_digits() {
    assert_eq!(parse_meter_id("C.1()"), None);
    assert_eq!(parse_meter_id("C.1(12a4)"), None);
    assert_eq!(parse_meter_id("C.1( 124)"), None);
    assert_eq!(parse_meter_id("C.1(-124)"), None);
    assert_eq!(parse_meter_id("C.1(+124)"), None);
}

#[test]
fn meter_id_spans_the_whole_64_bit_range() {
    assert_eq!(parse_meter_id("C.1(18446744073709551615)"), Some(u64::MAX));
    assert_eq!(parse_meter_id("C.1(18446744073709551616)"), None);
    assert_eq!(parse_meter_id("C.1(000018446744073709551615)"), Some(u64::MAX));
    assert_eq!(parse_meter_id("C.1(99999999999999999999)"), None);
}

#[test]
fn energy_needs_parenthesis_asterisk_and_point() {
    assert_eq!(parse_energy_value("1.8.0 0001234.567*kWh)"), None);
    assert_eq!(parse_energy_value("1.8.0(0001234.567 kWh)"), None);
    assert_eq!(parse_energy_value("1.8.0(0001234567*kWh)"), None);
    assert_eq!(parse_energy_value("1.8.0(.567*kWh)"), None);
    assert_eq!(parse_energy_value("1.8.0(1234.*kWh)"), None);
    assert_eq!(parse_energy_value("1.8.0(12.3.4*kWh)"), None);
    assert_eq!(parse_energy_value("1.8.0(12,34*kWh)"), None);
}

#[test]
fn energy_parts_are_32_bit_numbers() {
    assert_eq!(
        parse_energy_value("2.8.0(4294967295.4294967295*kWh)"),
        Some(EnergyValue { whole: u32::MAX, fraction: u32::MAX, fraction_digits: 10 })
    );
    assert_eq!(parse_energy_value("2.8.0(4294967296.0*kWh)"), None);
    assert_eq!(parse_energy_value("2.8.0(0.4294967296*kWh)"), None);
}

#[test]
fn energy_keeps_the_number_of_fraction_digits() {
    assert_eq!(
        parse_energy_value("1.8.0(7.050*kWh)"),
        Some(EnergyValue { whole: 7, fraction: 50, fraction_digits: 3 })
    );
    let value = parse_energy_value("1.8.0(7.050*kWh)").unwrap();
    assert!((as_float(value) - 7.05).abs() < 0.0001);
}

#[test]
fn byte_parsers_agree_with_the_text_parsers() {
    assert_eq!(meter_id_in(b"C.1(42)\r\n"), Some(42));
    assert_eq!(
        energy_value_in(b"1.8.0(1.5*kWh)\r\n"),
        Some(EnergyValue { whole: 1, fraction: 5, fraction_digits: 1 })
    );
}

#[test]
fn find_in_reports_the_first_hit_in_the_window() {
    let text = b"a(b(c)";
    assert_eq!(find_in(text, 0, text.len(), b'('), Some(1));
    assert_eq!(find_in(text, 2, text.len(), b'('), Some(3));
    assert_eq!(find_in(text, 4, text.len(), b'('), None);
    assert_eq!(find_in(text, 0, 1, b'('), None);
    assert_eq!(find_in(text, 3, 3, b'('), None);
}

#[test]
fn parse_bounded_respects_the_bound() {
    let text = b"x256y";
    assert_eq!(parse_bounded(text, 1, 4, 256), Some(256));
    assert_eq!(parse_bounded(text, 1, 4, 255), None);
    assert_eq!(parse_bounded(text, 1, 1, 255), None);
    assert_eq!(parse_bounded(text, 0, 4, 1000), None);
    assert_eq!(parse_bounded(b"0000", 0, 4, 0), Some(0));
}

#[test]
fn start_sequence_is_the_request_line() {
    assert_eq!(&start_sequence(), b"/?!\r\n");
}

#[test]
fn framer_completes_a_sentence_at_the_line_feed() {
    let mut framer = SentenceBuffer::new();
    assert_eq!(framer.push(b'A'), Framing::Pending);
    assert_eq!(framer.push(b'\r'), Framing::Pending);
    assert_eq!(framer.pending_len(), 2);
    let mut expected = [0u8; 64];
    expected[0] = b'A';
    expected[1] = b'\r';
    expected[2] = b'\n';
    assert_eq!(framer.push(b'\n'), Framing::Complete(expected));
    assert_eq!(framer.pending_len(), 0);
}

#[test]
fn framer_discards_a_full_buffer_without_line_feed() {
    let mut framer = SentenceBuffer::new();
    for _ in 0..METER_SENTENCE_LENGTH - 1 {
        assert_eq!(framer.push(b'x'), Framing::Pending);
    }
    assert_eq!(framer.pending_len(), METER_SENTENCE_LENGTH - 1);
    assert_eq!(framer.push(b'x'), Framing::Discarded);
    assert_eq!(framer.pending_len(), 0);
}

#[test]
fn framer_accepts_a_line_feed_in_the_last_place() {
    let mut framer = SentenceBuffer::new();
    for _ in 0..METER_SENTENCE_LENGTH - 1 {
        assert_eq!(framer.push(b'x'), Framing::Pending);
    }
    let mut expected = [b'x'; 64];
    expected[63] = b'\n';
    assert_eq!(framer.push(b'\n'), Framing::Complete(expected));
}

#[test]
fn sanitize_zeroes_bytes_with_the_top_bit_set() {
    let mut sentence = [0x41u8; 64];
    sentence[0] = 0x80;
    sentence[1] = 0xFF;
    sentence[2] = 0x7F;
    sentence[63] = 0xC3;
    sanitize(&mut sentence);
    assert_eq!(sentence[0], 0);
    assert_eq!(sentence[1], 0);
    assert_eq!(sentence[2], 0x7F);
    assert_eq!(sentence[3], 0x41);
    assert_eq!(sentence[63], 0);
}

#[test]
fn sentences_are_classified_by_their_first_three_bytes() {
    assert_eq!(classify(b"C.1(1)"), SentenceKind::MeterId);
    assert_eq!(classify(b"1.8.0(1.0*kWh)"), SentenceKind::EnergyIn);
    assert_eq!(classify(b"1.8.1(1.0*kWh)"), SentenceKind::EnergyIn);
    assert_eq!(classify(b"2.8.0(1.0*kWh)"), SentenceKind::EnergyOut);
    assert_eq!(classify(b"0.0.0(1)"), SentenceKind::Other);
    assert_eq!(classify(b"C.2(1)"), SentenceKind::Other);
    assert_eq!(classify(b"C1"), SentenceKind::Other);
    assert_eq!(classify(b""), SentenceKind::Other);
}

#[test]
fn record_sets_the_field_that_the_sentence_names() {
    let mut data = MeterData::default();
    assert!(!data.record(b"C.1(77)\r\n"));
    assert_eq!(data.meter_id, 77);
    assert!(!data.record(b"F.F(00)\r\n"));
    assert!(data.record(b"2.8.0(3.25*kWh)\r\n"));
    assert_eq!(data.total_out, EnergyValue { whole: 3, fraction: 25, fraction_digits: 2 });
    assert_eq!(data.total_in, EnergyValue::zero());
}

#[test]
fn tariff_sentences_end_the_telegram_without_a_value() {
    let mut data = MeterData::default();
    assert!(data.record(b"1.8.1(3.25*kWh)\r\n"));
    assert_eq!(data, MeterData::default());
}

#[test]
fn malformed_field_leaves_the_default() {
    let mut data = MeterData::default();
    assert!(!data.record(b"C.1(7x)\r\n"));
    assert_eq!(data.meter_id, 0);
    assert!(data.record(b"1.8.0(12*kWh)\r\n"));
    assert_eq!(data, MeterData::default());
}

#[test]
fn get_data_reads_a_telegram() {
    let mut meter = EnergyMeter::new();
    let telegram = b"/ISK5MT174-0001\r\n\r\nC.1(0000000074892473)\r\n0.0.0(74892473)\r\n1.8.0(0001234.567*kWh)\r\n2.8.0(0000000.100*kWh)\r\n!\r\n";
    let data = meter.get_data(telegram).unwrap();
    assert_eq!(data.meter_id, 74892473);
    assert_eq!(data.total_in, EnergyValue { whole: 1234, fraction: 567, fraction_digits: 3 });
    assert_eq!(data.total_out, EnergyValue::zero());
}

#[test]
fn get_data_stops_at_energy_out_when_it_comes_first() {
    let mut meter = EnergyMeter::new();
    let data = meter.get_data(b"2.8.0(2.5*kWh)\r\n1.8.0(1.5*kWh)\r\n").unwrap();
    assert_eq!(data.total_out, EnergyValue { whole: 2, fraction: 5, fraction_digits: 1 });
    assert_eq!(data.total_in, EnergyValue::zero());
}

#[test]
fn get_data_is_absent_when_the_bytes_run_out() {
    let mut meter = EnergyMeter::new();
    assert_eq!(meter.get_data(b"C.1(0000000074892473)\r\n1.8.0(0001234.567*kWh)\r"), None);
    assert_eq!(meter.get_data(b""), None);
}

#[test]
fn get_data_forgets_the_previous_exchange() {
    let mut meter = EnergyMeter::new();
    assert_eq!(meter.get_data(b"C.1(5)\r\n1.8.0(1.5"), None);
    let data = meter.get_data(b"*kWh)\r\n1.8.0(2.5*kWh)\r\n").unwrap();
    assert_eq!(data.meter_id, 0);
    assert_eq!(data.total_in, EnergyValue { whole: 2, fraction: 5, fraction_digits: 1 });
}

#[test]
fn overlong_sentence_is_discarded_and_reading_goes_on() {
    let mut stream = vec![b'#'; 64];
    stream.extend_from_slice(b"C.1(31)\r\n1.8.0(8.5*kWh)\r\n");
    let mut meter = EnergyMeter::new();
    let data = meter.get_data(&stream).unwrap();
    assert_eq!(data.meter_id, 31);
    assert_eq!(data.total_in, EnergyValue { whole: 8, fraction: 5, fraction_digits: 1 });
}

#[test]
fn endless_noise_never_completes_and_never_overflows() {
    let mut meter = EnergyMeter::new();
    let noise = vec![b'#'; 1000];
    assert_eq!(meter.get_data(&noise), None);
}

#[test]
fn noise_bytes_are_zeroed_before_the_sentence_is_read() {
    let mut meter = EnergyMeter::new();
    let mut stream = Vec::new();
    stream.extend_from_slice(b"C.1(12");
    stream.push(0xB3);
    stream.extend_from_slice(b"4)\r\n");
    stream.extend_from_slice(b"C.1(55)\r\n");
    stream.extend_from_slice(b"1.8.0(8.5*kWh)\r\n");
    assert_eq!(feed_all(&mut meter, &stream).unwrap().meter_id, 55);
}

#[test]
fn feed_reports_the_data_at_the_closing_sentence_only() {
    let mut meter = EnergyMeter::new();
    let _ = meter.start();
    assert_eq!(feed_all(&mut meter, b"C.1(9)\r\n"), None);
    assert_eq!(feed_all(&mut meter, b"1.8.0(1.5*kWh)\r"), None);
    let data = meter.feed(b'\n').unwrap();
    assert_eq!(data.meter_id, 9);
    assert_eq!(data.total_in, EnergyValue { whole: 1, fraction: 5, fraction_digits: 1 });
}

#[test]
fn link_runs_at_300_baud() {
    assert_eq!(BAUD_RATE, 300);
    assert_eq!(METER_SENTENCE_LENGTH, 64);
}
