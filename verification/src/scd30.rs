//! Wire protocol of the Sensirion SCD30 CO2, temperature and humidity
//! sensor.
//!
//! Nothing here touches a bus. An `Exchange` tells its caller what to do on
//! the bus next and takes in what came of it, so that the order of writing,
//! pausing and reading, the checksums and the decoding are all decided
//! here, whatever the bus is.

use crate::frame::{decode_words, encode_word, spec_decode_words, spec_encode_words, spec_word_frame};
use vstd::prelude::*;

verus! {

/// Seven-bit bus address the sensor answers to.
pub const I2C_ADDRESS: u8 = 0x61;

/// Shortest pause, in milliseconds, between the end of a command and the
/// start of reading its response.
pub const READ_DELAY_MS: u32 = 3;

/// What can go wrong in one exchange with the sensor; `E` is the error type
/// of the bus underneath.
#[derive(Debug, Copy, Clone, Eq, PartialEq)]
pub enum Error<E> {
    /// A checksum in the response does not match the word before it.
    CrcError,
    /// The bus reported a failure while writing or reading.
    I2cError(E),
}

impl<E> From<E> for Error<E> {
    /// An error of the bus is an error of the exchange that met it.
    fn from(err: E) -> (error: Error<E>) {
        Error::I2cError(err)
    }
}

impl<E> vstd::std_specs::convert::FromSpecImpl<E> for Error<E> {
    open spec fn obeys_from_spec() -> bool {
        true
    }

    open spec fn from_spec(err: E) -> Error<E> {
        Error::I2cError(err)
    }
}

/// Version of the firmware that runs on the sensor.
#[derive(Debug, Copy, Clone, Eq, PartialEq)]
pub struct FirmwareVersion {
    pub major: u8,
    pub minor: u8,
}

/// One reading of the sensor. Each quantity is kept as the IEEE 754
/// single-precision bit pattern that the sensor sent, so `f32::from_bits`
/// gives the number and no bit is lost on the way.
#[derive(Debug, Copy, Clone, Eq, PartialEq)]
pub struct Measurement {
    /// CO2 concentration in parts per million.
    pub co2_ppm_bits: u32,
    /// Temperature in degrees Celsius.
    pub temperature_celsius_bits: u32,
    /// Relative humidity in percent.
    pub humidity_percent_bits: u32,
}

/// What is asked of the sensor.
#[derive(Debug, Copy, Clone, Eq, PartialEq)]
pub enum Request {
    /// Read the version of the firmware.
    FirmwareVersion,
    /// Ask whether a measurement waits to be read.
    MeasurementReady,
    /// Read the measurement that waits.
    Measurement,
    /// Start measuring every two seconds, compensating for the given
    /// ambient pressure in millibar.
    StartContinuousMeasurement(u16),
}

/// What the sensor answered.
#[derive(Debug, Copy, Clone, Eq, PartialEq)]
pub enum Reply {
    FirmwareVersion(FirmwareVersion),
    MeasurementReady(bool),
    Measurement(Measurement),
    /// The command was taken; it has no response.
    Started,
}

/// The bytes of the command for a request.
pub open spec fn spec_command(request: Request) -> Seq<u8> {
    match request {
        Request::FirmwareVersion => seq![0xd1u8, 0x00u8],
        Request::MeasurementReady => seq![0x02u8, 0x02u8],
        Request::Measurement => seq![0x03u8, 0x00u8],
        Request::StartContinuousMeasurement(pressure) => seq![0x00u8, 0x10u8] + spec_word_frame(
            pressure,
        ),
    }
}

/// The number of bytes the sensor sends in response to a request.
pub open spec fn spec_response_len(request: Request) -> nat {
    match request {
        Request::FirmwareVersion => 3,
        Request::MeasurementReady => 3,
        Request::Measurement => 18,
        Request::StartContinuousMeasurement(_) => 0,
    }
}

/// The firmware version in a response: the two bytes of its one word, in
/// the order they came.
pub open spec fn spec_decode_firmware_version(response: Seq<u8>) -> Option<FirmwareVersion> {
    match spec_decode_words(response) {
        Some(words) => if words.len() == 1 {
            Some(FirmwareVersion { major: (words[0] / 256) as u8, minor: (words[0] % 256) as u8 })
        } else {
            None
        },
        None => None,
    }
}

/// Whether a measurement waits, by a response: it does if the one word
/// of the response is exactly one, and does not for any other word.
pub open spec fn spec_decode_measurement_ready(response: Seq<u8>) -> Option<bool> {
    match spec_decode_words(response) {
        Some(words) => if words.len() == 1 {
            Some(words[0] == 1)
        } else {
            None
        },
        None => None,
    }
}

/// Thirty-two bits from two words, the more significant word first.
pub open spec fn spec_join_words(high: u16, low: u16) -> u32 {
    (high * 0x1_0000 + low) as u32
}

/// The measurement in a response of six words: CO2, temperature and
/// humidity, two words each.
pub open spec fn spec_decode_measurement(response: Seq<u8>) -> Option<Measurement> {
    match spec_decode_words(response) {
        Some(words) => if words.len() == 6 {
            Some(
                Measurement {
                    co2_ppm_bits: spec_join_words(words[0], words[1]),
                    temperature_celsius_bits: spec_join_words(words[2], words[3]),
                    humidity_percent_bits: spec_join_words(words[4], words[5]),
                },
            )
        } else {
            None
        },
        None => None,
    }
}

/// The six words that carry a measurement.
pub open spec fn spec_measurement_words(measurement: Measurement) -> Seq<u16> {
    seq![
        (measurement.co2_ppm_bits / 0x1_0000) as u16,
        (measurement.co2_ppm_bits % 0x1_0000) as u16,
        (measurement.temperature_celsius_bits / 0x1_0000) as u16,
        (measurement.temperature_celsius_bits % 0x1_0000) as u16,
        (measurement.humidity_percent_bits / 0x1_0000) as u16,
        (measurement.humidity_percent_bits % 0x1_0000) as u16,
    ]
}

/// The response the sensor sends for a measurement.
pub open spec fn spec_encode_measurement(measurement: Measurement) -> Seq<u8> {
    spec_encode_words(spec_measurement_words(measurement))
}

/// What a response to a request says, or nothing if a checksum in it does
/// not match or its length is not the one the request calls for.
pub open spec fn spec_decode(request: Request, response: Seq<u8>) -> Option<Reply> {
    match request {
        Request::FirmwareVersion => match spec_decode_firmware_version(response) {
            Some(version) => Some(Reply::FirmwareVersion(version)),
            None => None,
        },
        Request::MeasurementReady => match spec_decode_measurement_ready(response) {
            Some(ready) => Some(Reply::MeasurementReady(ready)),
            None => None,
        },
        Request::Measurement => match spec_decode_measurement(response) {
            Some(measurement) => Some(Reply::Measurement(measurement)),
            None => None,
        },
        Request::StartContinuousMeasurement(_) => if response.len() == 0 {
            Some(Reply::Started)
        } else {
            None
        },
    }
}

/// Decoding the response that carries a measurement gives that
/// measurement, bit for bit.
pub proof fn lemma_measurement_round_trip(measurement: Measurement)
    ensures
        spec_decode_measurement(spec_encode_measurement(measurement)) == Some(measurement),
{
    crate::frame::lemma_words_round_trip(spec_measurement_words(measurement));
}

/// Only one response decodes to a given measurement: the one that carries
/// it.
pub proof fn lemma_measurement_response_unique(response: Seq<u8>, measurement: Measurement)
    requires
        spec_decode_measurement(response) == Some(measurement),
    ensures
        response == spec_encode_measurement(measurement),
{
    let words = spec_decode_words(response).unwrap();
    assert(words =~= spec_measurement_words(measurement));
    crate::frame::lemma_valid_frame_is_encoding(response, words);
}

/// A response that carries the word `flag` says that a measurement waits
/// exactly when `flag` is one.
pub proof fn lemma_ready_only_on_one(flag: u16)
    ensures
        spec_decode_measurement_ready(spec_word_frame(flag)) == Some(flag == 1),
{
    crate::frame::lemma_words_round_trip(seq![flag]);
    assert(spec_encode_words(seq![flag]) =~= spec_word_frame(flag));
}

/// A response that carries the bytes `major` and `minor` behind each
/// other says that version.
pub proof fn lemma_firmware_version_in_order(major: u8, minor: u8)
    ensures
        spec_decode_firmware_version(spec_word_frame((major * 256 + minor) as u16)) == Some(
            FirmwareVersion { major, minor },
        ),
{
    let word = (major * 256 + minor) as u16;
    crate::frame::lemma_words_round_trip(seq![word]);
    assert(spec_encode_words(seq![word]) =~= spec_word_frame(word));
}

/// Builds the command for a request.
pub fn command(request: Request) -> (bytes: Vec<u8>)
    ensures
        bytes@ == spec_command(request),
{
    let mut bytes: Vec<u8> = Vec::new();
    match request {
        Request::FirmwareVersion => {
            bytes.push(0xd1);
            bytes.push(0x00);
        },
        Request::MeasurementReady => {
            bytes.push(0x02);
            bytes.push(0x02);
        },
        Request::Measurement => {
            bytes.push(0x03);
            bytes.push(0x00);
        },
        Request::StartContinuousMeasurement(pressure) => {
            bytes.push(0x00);
            bytes.push(0x10);
            let mut argument = encode_word(pressure);
            bytes.append(&mut argument);
        },
    }
    assert(bytes@ =~= spec_command(request));
    bytes
}

/// The number of bytes to read in response to a request.
pub fn response_len(request: Request) -> (len: usize)
    ensures
        len == spec_response_len(request),
{
    match request {
        Request::FirmwareVersion => 3,
        Request::MeasurementReady => 3,
        Request::Measurement => 18,
        Request::StartContinuousMeasurement(_) => 0,
    }
}

/// Decodes the response to a request for the firmware version.
pub fn decode_firmware_version(response: &[u8]) -> (version: Option<FirmwareVersion>)
    ensures
        version == spec_decode_firmware_version(response@),
{
    match decode_words(response) {
        Some(words) => {
            if words.len() == 1 {
                let word: u16 = words[0];
                Some(FirmwareVersion { major: (word / 256) as u8, minor: (word % 256) as u8 })
            } else {
                None
            }
        },
        None => None,
    }
}

/// Decodes the response to the question whether a measurement waits.
pub fn decode_measurement_ready(response: &[u8]) -> (ready: Option<bool>)
    ensures
        ready == spec_decode_measurement_ready(response@),
{
    match decode_words(response) {
        Some(words) => {
            if words.len() == 1 {
                Some(words[0] == 1)
            } else {
                None
            }
        },
        None => None,
    }
}

/// Puts two words together, the more significant first.
fn join_words(high: u16, low: u16) -> (bits: u32)
    ensures
        bits == spec_join_words(high, low),
{
    (high as u32) * 0x1_0000 + low as u32
}

/// Decodes the response that carries a measurement.
pub fn decode_measurement(response: &[u8]) -> (measurement: Option<Measurement>)
    ensures
        measurement == spec_decode_measurement(response@),
{
    match decode_words(response) {
        Some(words) => {
            if words.len() == 6 {
                Some(
                    Measurement {
                        co2_ppm_bits: join_words(words[0], words[1]),
                        temperature_celsius_bits: join_words(words[2], words[3]),
                        humidity_percent_bits: join_words(words[4], words[5]),
                    },
                )
            } else {
                None
            }
        },
        None => None,
    }
}

/// Encodes a measurement as the sensor does.
pub fn encode_measurement(measurement: &Measurement) -> (response: Vec<u8>)
    ensures
        response@ == spec_encode_measurement(*measurement),
{
    let mut words: Vec<u16> = Vec::new();
    words.push((measurement.co2_ppm_bits / 0x1_0000) as u16);
    words.push((measurement.co2_ppm_bits % 0x1_0000) as u16);
    words.push((measurement.temperature_celsius_bits / 0x1_0000) as u16);
    words.push((measurement.temperature_celsius_bits % 0x1_0000) as u16);
    words.push((measurement.humidity_percent_bits / 0x1_0000) as u16);
    words.push((measurement.humidity_percent_bits % 0x1_0000) as u16);
    assert(words@ =~= spec_measurement_words(*measurement));
    crate::frame::encode_words(words.as_slice())
}

/// Decodes the response to a request.
pub fn decode(request: Request, response: &[u8]) -> (reply: Option<Reply>)
    ensures
        reply == spec_decode(request, response@),
{
    match request {
        Request::FirmwareVersion => match decode_firmware_version(response) {
            Some(version) => Some(Reply::FirmwareVersion(version)),
            None => None,
        },
        Request::MeasurementReady => match decode_measurement_ready(response) {
            Some(ready) => Some(Reply::MeasurementReady(ready)),
            None => None,
        },
        Request::Measurement => match decode_measurement(response) {
            Some(measurement) => Some(Reply::Measurement(measurement)),
            None => None,
        },
        Request::StartContinuousMeasurement(_) => if response.len() == 0 {
            Some(Reply::Started)
        } else {
            None
        },
    }
}

/// Where an exchange stands.
#[derive(Debug, Copy, Clone, Eq, PartialEq)]
pub enum Phase {
    /// The command is to be written.
    Command,
    /// The command was written; the sensor needs time before it can be
    /// read.
    Pause,
    /// The response is to be read.
    Response,
}

/// What the caller is to do on the bus next.
#[derive(Debug, Eq, PartialEq)]
pub enum Action {
    /// Write these bytes to the sensor.
    Write(Vec<u8>),
    /// Wait at least this many milliseconds.
    Pause(u32),
    /// Read this many bytes from the sensor.
    Read(usize),
}

/// What came of the last action.
#[derive(Debug, Eq, PartialEq)]
pub enum Event<E> {
    /// The write ended, well or with an error of the bus.
    Written(Result<(), E>),
    /// The pause is over.
    Paused,
    /// The read ended, with the bytes read or with an error of the bus.
    Received(Result<Vec<u8>, E>),
}

/// Where an exchange goes after an event.
#[derive(Debug, Eq, PartialEq)]
pub enum Outcome<E> {
    /// There is more to do: ask the exchange for its next action.
    Continue(Exchange),
    /// The exchange is over, with the sensor's answer or with an error.
    Done(Result<Reply, Error<E>>),
}

/// One command to the sensor and its response, step by step.
#[derive(Debug, Copy, Clone, Eq, PartialEq)]
pub struct Exchange {
    pub request: Request,
    pub phase: Phase,
}

/// The exchange for a request at a given step.
pub open spec fn spec_exchange(request: Request, phase: Phase) -> Exchange {
    Exchange { request, phase }
}

/// How an exchange ends when its response was read: with what the
/// response decodes to, or with a checksum error if it does not decode.
pub open spec fn spec_answer<E>(request: Request, response: Seq<u8>) -> Result<Reply, Error<E>> {
    match spec_decode(request, response) {
        Some(reply) => Ok(reply),
        None => Err(Error::CrcError),
    }
}

impl Exchange {
    /// Where the exchange goes after an event. A failure of the bus ends
    /// it at once: after a failed write nothing is read. A command
    /// without a response is done when it is written. Any other command
    /// is followed by the pause and then by the read, and the response is
    /// decoded with every checksum checked. An event that does not answer
    /// the action that is due changes nothing.
    pub open spec fn spec_on_event<E>(self, event: Event<E>) -> Outcome<E> {
        match (self.phase, event) {
            (Phase::Command, Event::Written(Ok(_))) => if spec_response_len(self.request) == 0 {
                Outcome::Done(Ok(Reply::Started))
            } else {
                Outcome::Continue(Exchange { request: self.request, phase: Phase::Pause })
            },
            (Phase::Command, Event::Written(Err(cause))) => Outcome::Done(
                Err(Error::I2cError(cause)),
            ),
            (Phase::Pause, Event::Paused) => Outcome::Continue(
                Exchange { request: self.request, phase: Phase::Response },
            ),
            (Phase::Response, Event::Received(Ok(response))) => Outcome::Done(
                spec_answer(self.request, response@),
            ),
            (Phase::Response, Event::Received(Err(cause))) => Outcome::Done(
                Err(Error::I2cError(cause)),
            ),
            _ => Outcome::Continue(self),
        }
    }

    /// Begins an exchange: its command is to be written.
    pub fn new(request: Request) -> (exchange: Exchange)
        ensures
            exchange == (Exchange { request, phase: Phase::Command }),
    {
        Exchange { request, phase: Phase::Command }
    }

    /// Tells what is to be done on the bus next.
    pub fn action(&self) -> (action: Action)
        ensures
            match self.phase {
                Phase::Command => action matches Action::Write(bytes) && bytes@ == spec_command(
                    self.request,
                ),
                Phase::Pause => action == Action::Pause(READ_DELAY_MS),
                Phase::Response => action == Action::Read(spec_response_len(self.request) as usize),
            },
    {
        match self.phase {
            Phase::Command => Action::Write(command(self.request)),
            Phase::Pause => Action::Pause(READ_DELAY_MS),
            Phase::Response => Action::Read(response_len(self.request)),
        }
    }

    /// Takes in what came of the last action.
    pub fn on_event<E>(self, event: Event<E>) -> (outcome: Outcome<E>)
        ensures
            outcome == self.spec_on_event(event),
    {
        match (self.phase, event) {
            (Phase::Command, Event::Written(Ok(_))) => {
                if response_len(self.request) == 0 {
                    Outcome::Done(Ok(Reply::Started))
                } else {
                    Outcome::Continue(Exchange { request: self.request, phase: Phase::Pause })
                }
            },
            (Phase::Command, Event::Written(Err(cause))) => Outcome::Done(
                Err(Error::I2cError(cause)),
            ),
            (Phase::Pause, Event::Paused) => Outcome::Continue(
                Exchange { request: self.request, phase: Phase::Response },
            ),
            (Phase::Response, Event::Received(Ok(response))) => {
                match decode(self.request, response.as_slice()) {
                    Some(reply) => Outcome::Done(Ok(reply)),
                    None => Outcome::Done(Err(Error::CrcError)),
                }
            },
            (Phase::Response, Event::Received(Err(cause))) => Outcome::Done(
                Err(Error::I2cError(cause)),
            ),
            _ => Outcome::Continue(self),
        }
    }
}

/// The response is never read before the pause is over: an exchange comes
/// to the point of reading only from the pause, and only when told that
/// the pause has passed.
pub proof fn lemma_read_follows_pause<E>(exchange: Exchange, event: Event<E>, next: Exchange)
    requires
        exchange.spec_on_event(event) == Outcome::<E>::Continue(next),
        next.phase == Phase::Response,
        exchange.phase != Phase::Response,
    ensures
        exchange.phase == Phase::Pause,
        event == Event::<E>::Paused,
        next.request == exchange.request,
{
}

/// A request that has a response is answered by what the response decodes
/// to, once the command was written, the pause has passed and the response
/// was read; a response that does not decode is a checksum error.
pub proof fn lemma_exchange_in_full<E>(request: Request, response: Vec<u8>)
    requires
        spec_response_len(request) > 0,
    ensures
        spec_exchange(request, Phase::Command).spec_on_event(Event::<E>::Written(Ok(())))
            == Outcome::<E>::Continue(spec_exchange(request, Phase::Pause)),
        spec_exchange(request, Phase::Pause).spec_on_event(Event::<E>::Paused)
            == Outcome::<E>::Continue(spec_exchange(request, Phase::Response)),
        spec_exchange(request, Phase::Response).spec_on_event(Event::<E>::Received(Ok(response)))
            == Outcome::<E>::Done(spec_answer(request, response@)),
{
}

/// An exchange never changes what it asks for, and never goes back to an
/// earlier step.
pub proof fn lemma_exchange_moves_forward<E>(exchange: Exchange, event: Event<E>, next: Exchange)
    requires
        exchange.spec_on_event(event) == Outcome::<E>::Continue(next),
    ensures
        next.request == exchange.request,
        next.phase == exchange.phase || (exchange.phase == Phase::Command && next.phase
            == Phase::Pause) || (exchange.phase == Phase::Pause && next.phase == Phase::Response),
{
}

/// The sensor's protocol, free of any bus: each method begins the exchange
/// for one operation.
#[derive(Debug, Copy, Clone, Eq, PartialEq)]
pub struct Scd30 {}

impl Scd30 {
    pub fn new() -> Scd30 {
        Scd30 {  }
    }

    /// Begins reading the version of the firmware.
    pub fn get_firmware_version(&self) -> (exchange: Exchange)
        ensures
            exchange == (Exchange { request: Request::FirmwareVersion, phase: Phase::Command }),
    {
        Exchange::new(Request::FirmwareVersion)
    }

    /// Begins reading the measurement that waits.
    pub fn get_measurement(&self) -> (exchange: Exchange)
        ensures
            exchange == (Exchange { request: Request::Measurement, phase: Phase::Command }),
    {
        Exchange::new(Request::Measurement)
    }

    /// Begins asking whether a measurement waits.
    pub fn is_measurement_ready(&self) -> (exchange: Exchange)
        ensures
            exchange == (Exchange { request: Request::MeasurementReady, phase: Phase::Command }),
    {
        Exchange::new(Request::MeasurementReady)
    }

    /// Begins starting continuous measurement at the given ambient
    /// pressure in millibar.
    pub fn start_continuous_measurement(&self, pressure: u16) -> (exchange: Exchange)
        ensures
            exchange == (Exchange {
                request: Request::StartContinuousMeasurement(pressure),
                phase: Phase::Command,
            }),
    {
        Exchange::new(Request::StartContinuousMeasurement(pressure))
    }
}

} // verus!
