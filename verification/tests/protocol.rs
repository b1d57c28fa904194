use dioxide::checksum::crc8;
use dioxide::frame::{decode_words, encode_word, encode_words};
use dioxide::scd30::{
    command, decode, decode_firmware_version, decode_measurement, decode_measurement_ready,
    encode_measurement, response_len, Action, Error, Event, Exchange, FirmwareVersion, Measurement,
    Outcome, Phase, Reply, Request, Scd30, I2C_ADDRESS, READ_DELAY_MS,
};

/// The read-measurement example of the sensor's interface description.
const FIXTURE: [u8; 18] = [
    0x43, 0xdb, 0xcb, 0x8c, 0x2e, 0x8f, 0x41, 0xd9, 0x70, 0xe7, 0xff, 0xf5, 0x42, 0x43, 0xbf, 0x3a,
    0x1b, 0x74,
];

fn measurement_of(co2: f32, temperature: f32, humidity: f32) -> Measurement {
    Measurement {
        co2_ppm_bits: co2.to_bits(),
        temperature_celsius_bits: temperature.to_bits(),
        humidity_percent_bits: humidity.to_bits(),
    }
}

fn run(exchange: Exchange, events: Vec<Event<u8>>) -> Outcome<u8> {
    let mut current = exchange;
    let mut last = Outcome::Continue(exchange);
    for event in events {
        last = current.on_event(event);
        if let Outcome::Continue(next) = &last {
            current = *next;
        } else {
            return last;
        }
    }
    last
}

#[test]
fn bus_address() {
    assert_eq!(I2C_ADDRESS, 0x61);
}

#[test]
fn word_frame_of_example() {
    assert_eq!(encode_word(0xbeef), vec![0xbe, 0xef, 0x92]);
}

#[test]
fn words_round_trip() {
    let words: Vec<u16> = vec![0x0000, 0x0001, 0xbeef, 0xffff, 0x8000];
    let frame = encode_words(&words);
    assert_eq!(frame.len(), 15);
    assert_eq!(decode_words(&frame), Some(words));
}

#[test]
fn words_of_empty_frame() {
    assert_eq!(decode_words(&[]), Some(vec![]));
    assert_eq!(encode_words(&[]), Vec::<u8>::new());
}

#[test]
fn words_reject_partial_frame() {
    assert_eq!(decode_words(&[0xbe, 0xef]), None);
    assert_eq!(decode_words(&[0xbe, 0xef, 0x92, 0x00]), None);
}

#[test]
fn words_reject_any_bad_checksum() {
    let words: Vec<u16> = vec![1, 2, 3];
    let good = encode_words(&words);
    for place in 0..good.len() {
        let mut bad = good.clone();
        bad[place] ^= 0x01;
        assert_eq!(decode_words(&bad), None, "flipped a bit of byte {}", place);
    }
}

#[test]
fn firmware_version_decodes_bytes_in_order() {
    let response = [0x03, 0x47, crc8(&[0x03, 0x47])];
    assert_eq!(response[2], 0x06);
    assert_eq!(
        decode_firmware_version(&response),
        Some(FirmwareVersion { major: 3, minor: 71 })
    );
}

#[test]
fn firmware_version_rejects_wrong_checksum() {
    assert_eq!(decode_firmware_version(&[0x03, 0x47, 0x07]), None);
    assert_eq!(decode_firmware_version(&[0x03, 0x47, 0x00]), None);
}

#[test]
fn firmware_version_rejects_wrong_length() {
    assert_eq!(decode_firmware_version(&[]), None);
    assert_eq!(decode_firmware_version(&encode_words(&[0x0347, 0x0347])), None);
}

#[test]
fn firmware_version_exchange_reports_crc_error() {
    let outcome = run(
        Scd30::new().get_firmware_version(),
        vec![Event::Written(Ok(())), Event::Paused, Event::Received(Ok(vec![0x03, 0x47, 0x07]))],
    );
    assert_eq!(outcome, Outcome::Done(Err(Error::CrcError)));
}

#[test]
fn firmware_version_exchange_succeeds() {
    let outcome = run(
        Scd30::new().get_firmware_version(),
        vec![Event::Written(Ok(())), Event::Paused, Event::Received(Ok(vec![0x03, 0x47, 0x06]))],
    );
    assert_eq!(
        outcome,
        Outcome::Done(Ok(Reply::FirmwareVersion(FirmwareVersion { major: 3, minor: 71 })))
    );
}

#[test]
fn ready_poll_true_only_for_one() {
    assert_eq!(decode_measurement_ready(&encode_word(1)), Some(true));
    assert_eq!(decode_measurement_ready(&encode_word(0)), Some(false));
    assert_eq!(decode_measurement_ready(&encode_word(2)), Some(false));
    assert_eq!(decode_measurement_ready(&encode_word(0x0100)), Some(false));
    assert_eq!(decode_measurement_ready(&encode_word(0x0101)), Some(false));
    assert_eq!(decode_measurement_ready(&encode_word(0xffff)), Some(false));
}

#[test]
fn ready_poll_literal_responses() {
    assert_eq!(decode_measurement_ready(&[0x00, 0x01, 0xb0]), Some(true));
    assert_eq!(decode_measurement_ready(&[0x00, 0x00, 0x81]), Some(false));
    assert_eq!(decode_measurement_ready(&[0x00, 0x01, 0xb1]), None);
}

#[test]
fn measurement_fixture_decodes() {
    let measurement = decode_measurement(&FIXTURE).expect("the fixture is valid");
    assert_eq!(measurement.co2_ppm_bits, 0x43db8c2e);
    assert_eq!(measurement.temperature_celsius_bits, 0x41d9e7ff);
    assert_eq!(measurement.humidity_percent_bits, 0x42433a1b);
    assert_eq!(f32::from_bits(measurement.co2_ppm_bits), 439.09515_f32);
    assert_eq!(f32::from_bits(measurement.temperature_celsius_bits), 27.23828_f32);
    assert_eq!(f32::from_bits(measurement.humidity_percent_bits), 48.806744_f32);
}

#[test]
fn measurement_fixture_encodes() {
    let measurement = Measurement {
        co2_ppm_bits: 0x43db8c2e,
        temperature_celsius_bits: 0x41d9e7ff,
        humidity_percent_bits: 0x42433a1b,
    };
    assert_eq!(encode_measurement(&measurement), FIXTURE.to_vec());
}

#[test]
fn measurement_word_order_matters() {
    // Bytes taken as they come, checksums included, give another number.
    let naive = u32::from_be_bytes([FIXTURE[0], FIXTURE[1], FIXTURE[2], FIXTURE[3]]);
    let measurement = decode_measurement(&FIXTURE).expect("the fixture is valid");
    assert_ne!(measurement.co2_ppm_bits, naive);
    assert_eq!(
        measurement.co2_ppm_bits,
        u32::from_be_bytes([FIXTURE[0], FIXTURE[1], FIXTURE[3], FIXTURE[4]])
    );
}

#[test]
fn measurement_round_trip_zero() {
    let measurement = measurement_of(0.0, 0.0, 0.0);
    let decoded = decode_measurement(&encode_measurement(&measurement)).expect("valid");
    assert_eq!(f32::from_bits(decoded.co2_ppm_bits), 0.0);
    assert_eq!(decoded, measurement);
}

#[test]
fn measurement_round_trip_negative() {
    let measurement = measurement_of(400.0, -12.5, 33.25);
    let decoded = decode_measurement(&encode_measurement(&measurement)).expect("valid");
    assert_eq!(f32::from_bits(decoded.co2_ppm_bits), 400.0);
    assert_eq!(f32::from_bits(decoded.temperature_celsius_bits), -12.5);
    assert_eq!(f32::from_bits(decoded.humidity_percent_bits), 33.25);
}

#[test]
fn measurement_round_trip_near_domain_maximum() {
    let measurement = measurement_of(2499.75, 59.9, 99.99);
    let decoded = decode_measurement(&encode_measurement(&measurement)).expect("valid");
    assert_eq!(f32::from_bits(decoded.co2_ppm_bits), 2499.75);
    assert_eq!(f32::from_bits(decoded.temperature_celsius_bits), 59.9);
    assert_eq!(f32::from_bits(decoded.humidity_percent_bits), 99.99);
}

#[test]
fn measurement_rejects_any_bad_checksum() {
    for word in 0..6 {
        let mut response = FIXTURE.to_vec();
        response[3 * word + 2] ^= 0x80;
        assert_eq!(decode_measurement(&response), None, "word {}", word);
    }
}

#[test]
fn measurement_rejects_wrong_length() {
    assert_eq!(decode_measurement(&FIXTURE[..15]), None);
    assert_eq!(decode_measurement(&FIXTURE[..17]), None);
    assert_eq!(decode_measurement(&[]), None);
}

#[test]
fn command_encodings() {
    assert_eq!(command(Request::FirmwareVersion), vec![0xd1, 0x00]);
    assert_eq!(command(Request::MeasurementReady), vec![0x02, 0x02]);
    assert_eq!(command(Request::Measurement), vec![0x03, 0x00]);
    assert_eq!(
        command(Request::StartContinuousMeasurement(1020)),
        vec![0x00, 0x10, 0x03, 0xfc, 0x53]
    );
    assert_eq!(
        command(Request::StartContinuousMeasurement(0)),
        vec![0x00, 0x10, 0x00, 0x00, 0x81]
    );
}

#[test]
fn response_lengths() {
    assert_eq!(response_len(Request::FirmwareVersion), 3);
    assert_eq!(response_len(Request::MeasurementReady), 3);
    assert_eq!(response_len(Request::Measurement), 18);
    assert_eq!(response_len(Request::StartContinuousMeasurement(1020)), 0);
}

#[test]
fn decode_by_request() {
    assert_eq!(
        decode(Request::FirmwareVersion, &[0x03, 0x47, 0x06]),
        Some(Reply::FirmwareVersion(FirmwareVersion { major: 3, minor: 71 }))
    );
    assert_eq!(
        decode(Request::MeasurementReady, &[0x00, 0x01, 0xb0]),
        Some(Reply::MeasurementReady(true))
    );
    assert!(matches!(decode(Request::Measurement, &FIXTURE), Some(Reply::Measurement(_))));
    assert_eq!(decode(Request::Measurement, &[0x00, 0x01, 0xb0]), None);
    assert_eq!(decode(Request::StartContinuousMeasurement(0), &[]), Some(Reply::Started));
    assert_eq!(decode(Request::StartContinuousMeasurement(0), &[0x00]), None);
}

#[test]
fn exchange_steps_in_order() {
    let exchange = Scd30::new().get_measurement();
    assert_eq!(exchange, Exchange { request: Request::Measurement, phase: Phase::Command });
    assert_eq!(exchange.action(), Action::Write(vec![0x03, 0x00]));

    let paused = match exchange.on_event(Event::<u8>::Written(Ok(()))) {
        Outcome::Continue(next) => next,
        Outcome::Done(_) => panic!("a response is due"),
    };
    assert_eq!(paused.phase, Phase::Pause);
    assert_eq!(paused.action(), Action::Pause(READ_DELAY_MS));
    assert_eq!(READ_DELAY_MS, 3);

    let reading = match paused.on_event(Event::<u8>::Paused) {
        Outcome::Continue(next) => next,
        Outcome::Done(_) => panic!("the response was not read yet"),
    };
    assert_eq!(reading.phase, Phase::Response);
    assert_eq!(reading.action(), Action::Read(18));

    let outcome = reading.on_event(Event::<u8>::Received(Ok(FIXTURE.to_vec())));
    assert_eq!(
        outcome,
        Outcome::Done(Ok(Reply::Measurement(Measurement {
            co2_ppm_bits: 0x43db8c2e,
            temperature_celsius_bits: 0x41d9e7ff,
            humidity_percent_bits: 0x42433a1b,
        })))
    );
}

#[test]
fn exchange_ends_on_failed_write() {
    let outcome = Scd30::new().is_measurement_ready().on_event(Event::Written(Err(7u8)));
    assert_eq!(outcome, Outcome::Done(Err(Error::I2cError(7u8))));
}

#[test]
fn exchange_ends_on_failed_read() {
    let outcome = run(
        Scd30::new().is_measurement_ready(),
        vec![Event::Written(Ok(())), Event::Paused, Event::Received(Err(9u8))],
    );
    assert_eq!(outcome, Outcome::Done(Err(Error::I2cError(9u8))));
}

#[test]
fn exchange_ready_poll() {
    let ready = run(
        Scd30::new().is_measurement_ready(),
        vec![Event::Written(Ok(())), Event::Paused, Event::Received(Ok(vec![0x00, 0x01, 0xb0]))],
    );
    assert_eq!(ready, Outcome::Done(Ok(Reply::MeasurementReady(true))));
    let not_ready = run(
        Scd30::new().is_measurement_ready(),
        vec![Event::Written(Ok(())), Event::Paused, Event::Received(Ok(vec![0x00, 0x00, 0x81]))],
    );
    assert_eq!(not_ready, Outcome::Done(Ok(Reply::MeasurementReady(false))));
}

#[test]
fn exchange_start_has_no_response() {
    let exchange = Scd30::new().start_continuous_measurement(1020);
    assert_eq!(exchange.action(), Action::Write(vec![0x00, 0x10, 0x03, 0xfc, 0x53]));
    assert_eq!(
        exchange.on_event(Event::<u8>::Written(Ok(()))),
        Outcome::Done(Ok(Reply::Started))
    );
    assert_eq!(
        exchange.on_event(Event::Written(Err(1u8))),
        Outcome::Done(Err(Error::I2cError(1u8)))
    );
}

#[test]
fn exchange_ignores_events_out_of_turn() {
    let exchange = Scd30::new().get_firmware_version();
    assert_eq!(exchange.on_event(Event::<u8>::Paused), Outcome::Continue(exchange));
    assert_eq!(
        exchange.on_event(Event::<u8>::Received(Ok(vec![0x03, 0x47, 0x06]))),
        Outcome::Continue(exchange)
    );
    let paused = Exchange { request: Request::FirmwareVersion, phase: Phase::Pause };
    assert_eq!(paused.on_event(Event::<u8>::Written(Ok(()))), Outcome::Continue(paused));
    assert_eq!(
        paused.on_event(Event::<u8>::Received(Ok(vec![0x03, 0x47, 0x06]))),
        Outcome::Continue(paused)
    );
    let reading = Exchange { request: Request::FirmwareVersion, phase: Phase::Response };
    assert_eq!(reading.on_event(Event::<u8>::Paused), Outcome::Continue(reading));
}

#[test]
fn exchange_short_response_is_a_crc_error() {
    let outcome = run(
        Scd30::new().get_measurement(),
        vec![Event::Written(Ok(())), Event::Paused, Event::Received(Ok(vec![0x00, 0x01, 0xb0]))],
    );
    assert_eq!(outcome, Outcome::Done(Err(Error::CrcError)));
}

#[test]
fn bus_error_converts_to_exchange_error() {
    assert_eq!(Error::from(5u8), Error::I2cError(5u8));
    let converted: Error<&str> = "arbitration lost".into();
    assert_eq!(converted, Error::I2cError("arbitration lost"));
}
