//! Frames of the SCL3300 inclinometer: 32 bits on the wire, most significant byte first. From
//! the top they hold a 6 bit operation code, a 2 bit return status, 16 bits of data and the
//! checksum.
use vstd::prelude::*;

use crate::crc;

verus! {

pub const SCL3300_READ_ANG_X: u32 = 0x2400_00C7;

pub const SCL3300_READ_ANG_Y: u32 = 0x2800_00CD;

pub const SCL3300_READ_ANG_Z: u32 = 0x2C00_00CB;

pub const SCL3300_READ_STATUS: u32 = 0x1800_00E5;

pub const SCL3300_READ_WHOAMI: u32 = 0x4000_0091;

pub const SCL3300_ENABLE_ANGLE_OUTPUTS: u32 = 0xB000_1F6F;

pub const SCL3300_MODE_1: u32 = 0xB400_001F;

pub const SCL3300_SW_RESET: u32 = 0xB400_2098;

/// Why the sensor could not be brought up or read.
#[derive(Clone, Copy, Debug, PartialEq, Eq, Structural)]
pub enum SensorError {
    /// The bus transfer itself failed.
    Spi,
    /// The response does not carry its own checksum.
    Crc,
    /// The response answers another command.
    UnexpectedResponse,
    /// The return status is another than "normal operation".
    StartupStatus(u8),
    /// The identification register holds another value than an SCL3300 has.
    WhoAmI(u16),
}

/// The operation code of a frame.
pub open spec fn opcode_field(word: u32) -> int {
    word as int / 0x400_0000
}

/// The return status of a frame.
pub open spec fn status_field(word: u32) -> int {
    (word as int / 0x100_0000) % 4
}

/// The data of a frame.
pub open spec fn data_field(word: u32) -> int {
    (word as int / 0x100) % 0x1_0000
}

/// Sixteen bits read as a two's complement number.
pub open spec fn signed_16(bits: int) -> int {
    if bits < 0x8000 {
        bits
    } else {
        bits - 0x1_0000
    }
}

/// The number that four bytes spell, most significant first.
pub open spec fn word_of(bytes: Seq<u8>) -> int {
    bytes[0] * 0x100_0000 + bytes[1] * 0x1_0000 + bytes[2] * 0x100 + bytes[3]
}

/// The data of a response.
pub fn response_data(response: u32) -> (data: u16)
    ensures
        data == data_field(response),
{
    assert((response >> 8) & 0xFFFF == (response / 0x100) % 0x1_0000) by (bit_vector);
    ((response >> 8) & 0xFFFF) as u16
}

/// The return status of a response.
pub fn return_status(response: u32) -> (status: u8)
    ensures
        status == status_field(response),
{
    assert((response >> 24) & 0x03 == (response / 0x100_0000) % 4) by (bit_vector);
    ((response >> 24) & 0x03) as u8
}

/// What a response to `expected_command` says.
pub open spec fn reading_of(response: u32, expected_command: u32) -> Result<i16, SensorError> {
    if opcode_field(response) != opcode_field(expected_command) {
        Err(SensorError::UnexpectedResponse)
    } else if status_field(response) != 1 {
        Err(SensorError::StartupStatus(status_field(response) as u8))
    } else {
        Ok(signed_16(data_field(response)) as i16)
    }
}

/// Takes the reading out of a response: the operation code has to be that of
/// `expected_command` and the return status has to say "normal operation".
pub fn parse_read_response(response: u32, expected_command: u32) -> (reading: Result<
    i16,
    SensorError,
>)
    ensures
        reading == reading_of(response, expected_command),
{
    proof {
        assert((response >> 26) & 0x3F == response / 0x400_0000) by (bit_vector);
        assert((expected_command >> 26) & 0x3F == expected_command / 0x400_0000) by (bit_vector);
    }
    let response_opcode: u8 = ((response >> 26) & 0x3F) as u8;
    let expected_opcode: u8 = ((expected_command >> 26) & 0x3F) as u8;

    if response_opcode != expected_opcode {
        return Err(SensorError::UnexpectedResponse);
    }
    if return_status(response) != 0b01 {
        return Err(SensorError::StartupStatus(return_status(response)));
    }
    let data: u16 = response_data(response);
    assert((data as i16) as int == (if data < 0x8000 {
        data as int
    } else {
        data - 0x1_0000
    })) by (bit_vector);
    Ok(data as i16)
}

/// The bytes that carry `frame` to the sensor.
pub fn request_bytes(frame: u32) -> (bytes: [u8; 4])
    ensures
        word_of(bytes@) == frame,
{
    assert(frame == (frame / 0x100_0000) * 0x100_0000 + ((frame / 0x1_0000) % 0x100) * 0x1_0000 + ((
    frame / 0x100) % 0x100) * 0x100 + frame % 0x100) by (bit_vector);
    [
        (frame / 0x100_0000) as u8,
        ((frame / 0x1_0000) % 0x100) as u8,
        ((frame / 0x100) % 0x100) as u8,
        (frame % 0x100) as u8,
    ]
}

/// What a finished bus transfer amounts to: `None` stands for a transfer that failed.
pub open spec fn accepted(received: Option<Seq<u8>>) -> Result<u32, SensorError> {
    match received {
        None => Err(SensorError::Spi),
        Some(bytes) => if crc::intact(word_of(bytes) as u32) {
            Ok(word_of(bytes) as u32)
        } else {
            Err(SensorError::Crc)
        },
    }
}

/// Judges what came back over the bus, `None` standing for a transfer that failed. A response
/// is accepted only with a checksum that fits.
pub fn accept_response(received: Option<[u8; 4]>) -> (response: Result<u32, SensorError>)
    ensures
        response == accepted(
            match received {
                Some(bytes) => Some(bytes@),
                None => None,
            },
        ),
{
    match received {
        None => Err(SensorError::Spi),
        Some(bytes) => {
            let response: u32 = bytes[0] as u32 * 0x100_0000 + bytes[1] as u32 * 0x1_0000
                + bytes[2] as u32 * 0x100 + bytes[3] as u32;
            assert((response as u8) as u32 == response % 0x100) by (bit_vector);
            if crc::crc8(response >> 8) != (response as u8) {
                return Err(SensorError::Crc);
            }
            Ok(response)
        },
    }
}

/// The four fields of a frame make up the whole of it.
pub proof fn fields_make_up_the_frame(word: u32)
    ensures
        word == opcode_field(word) * 0x400_0000 + status_field(word) * 0x100_0000 + data_field(word)
            * 0x100 + word % 0x100,
        0 <= opcode_field(word) < 0x40,
        0 <= status_field(word) < 4,
        0 <= data_field(word) < 0x1_0000,
{
    assert(word == (word / 0x400_0000) * 0x400_0000 + ((word / 0x100_0000) % 4) * 0x100_0000 + ((word
        / 0x100) % 0x1_0000) * 0x100 + word % 0x100) by (bit_vector);
}

/// Four bytes are determined by the number that they spell.
pub proof fn word_determines_bytes(a: Seq<u8>, b: Seq<u8>)
    requires
        a.len() == 4,
        b.len() == 4,
        word_of(a) == word_of(b),
    ensures
        a == b,
{
    let (a0, a1, a2, a3) = (a[0], a[1], a[2], a[3]);
    let (b0, b1, b2, b3) = (b[0], b[1], b[2], b[3]);
    assert(a0 == b0 && a1 == b1 && a2 == b2 && a3 == b3) by (bit_vector)
        requires
            a0 * 0x100_0000 + a1 * 0x1_0000 + a2 * 0x100 + a3 == b0 * 0x100_0000 + b1 * 0x1_0000
                + b2 * 0x100 + b3,
    ;
    assert(a =~= b);
}

/// A frame that carries its own checksum and comes back as it was sent is accepted as it was
/// sent.
pub proof fn echoed_frame_is_accepted(frame: u32, sent: Seq<u8>)
    requires
        crc::intact(frame),
        sent.len() == 4,
        word_of(sent) == frame,
    ensures
        accepted(Some(sent)) == Ok::<u32, SensorError>(frame),
{
}

/// A response that was disturbed in at most eight neighbouring bits on its way is refused for its
/// checksum.
pub proof fn disturbed_response_is_refused(word: u32, burst: u8, shift: u32, received: Seq<u8>)
    requires
        crc::intact(word),
        burst != 0,
        shift <= 24,
        word_of(received) == word ^ ((burst as u32) << shift),
    ensures
        accepted(Some(received)) == Err::<u32, SensorError>(SensorError::Crc),
{
    crc::burst_errors_are_detected(word, burst, shift);
}

/// A response in which any two bits were flipped on its way is refused for its checksum.
pub proof fn response_with_two_flipped_bits_is_refused(
    word: u32,
    i: u32,
    j: u32,
    received: Seq<u8>,
)
    requires
        crc::intact(word),
        i < 32,
        j < 32,
        i != j,
        word_of(received) == word ^ ((1u32 << i) ^ (1u32 << j)),
    ensures
        accepted(Some(received)) == Err::<u32, SensorError>(SensorError::Crc),
{
    crc::double_bit_errors_are_detected(word, i, j);
}

/// The word is one of the commands that the sensor is given.
pub open spec fn is_command(word: u32) -> bool {
    ||| word == SCL3300_READ_ANG_X
    ||| word == SCL3300_READ_ANG_Y
    ||| word == SCL3300_READ_ANG_Z
    ||| word == SCL3300_READ_STATUS
    ||| word == SCL3300_READ_WHOAMI
    ||| word == SCL3300_ENABLE_ANGLE_OUTPUTS
    ||| word == SCL3300_MODE_1
    ||| word == SCL3300_SW_RESET
}

/// Every command carries its own checksum.
pub proof fn commands_are_intact(word: u32)
    requires
        is_command(word),
    ensures
        crc::intact(word),
{
    let data = word >> 8;
    crc::checksum_goes_by_bytes(data);
    let r1 = crc::shift_in_byte(0xFF, (data >> 16) as u8);
    let r2 = crc::shift_in_byte(r1, (data >> 8) as u8);
    let r3 = crc::shift_in_byte(r2, data as u8);
    assert(!r3 == word % 0x100) by (bit_vector)
        requires
            word == 0x2400_00C7 || word == 0x2800_00CD || word == 0x2C00_00CB || word == 0x1800_00E5
                || word == 0x4000_0091 || word == 0xB000_1F6F || word == 0xB400_001F || word
                == 0xB400_2098,
            data == word >> 8,
            r1 == crc::shift_in_byte(0xFF, (data >> 16) as u8),
            r2 == crc::shift_in_byte(r1, (data >> 8) as u8),
            r3 == crc::shift_in_byte(r2, data as u8),
    ;
}

/// The bytes of a frame are its digits to the base 256, the most significant first.
pub proof fn bytes_are_the_digits_of_the_frame(bytes: Seq<u8>)
    ensures
        word_of(bytes) / 0x100_0000 == bytes[0],
        (word_of(bytes) / 0x1_0000) % 0x100 == bytes[1],
        (word_of(bytes) / 0x100) % 0x100 == bytes[2],
        word_of(bytes) % 0x100 == bytes[3],
{
    let (b0, b1, b2, b3) = (bytes[0] as int, bytes[1] as int, bytes[2] as int, bytes[3] as int);
    let w = word_of(bytes);
    assert(w / 0x100 == b0 * 0x1_0000 + b1 * 0x100 + b2);
    assert(w / 0x1_0000 == b0 * 0x100 + b1);
}

/// A response with the operation code of the command and the status 1 gives as its reading the
/// number whose two's complement pattern is the data: every other part of the response plays no
/// part, and nothing is lost.
pub proof fn reading_is_the_data(response: u32, expected_command: u32)
    requires
        response / 0x400_0000 == expected_command / 0x400_0000,
        (response / 0x100_0000) % 4 == 1,
    ensures
        reading_of(response, expected_command) matches Ok(raw) && (raw - response as int / 0x100)
            % 0x1_0000 == 0,
{
    let data = data_field(response);
    let q = response as int / 0x100;
    assert(q == 0x1_0000 * (q / 0x1_0000) + data);
    let raw = reading_of(response, expected_command)->Ok_0 as int;
    assert(raw - q == -0x1_0000 * (q / 0x1_0000) || raw - q == -0x1_0000 * (q / 0x1_0000 + 1));
}

/// Two responses that are taken for the same command give the same reading exactly if their data
/// are the same.
pub proof fn different_data_are_different_readings(a: u32, b: u32, expected_command: u32)
    requires
        reading_of(a, expected_command) is Ok,
        reading_of(b, expected_command) is Ok,
    ensures
        reading_of(a, expected_command) == reading_of(b, expected_command) <==> (a / 0x100)
            % 0x1_0000 == (b / 0x100) % 0x1_0000,
{
}

/// The order of two readings is that of the angles: data with the top bit set are below zero, and
/// among data with the same top bit the larger is the larger reading.
pub proof fn readings_are_ordered_by_their_data(a: u32, b: u32, expected_command: u32)
    requires
        reading_of(a, expected_command) is Ok,
        reading_of(b, expected_command) is Ok,
    ensures
        reading_of(a, expected_command)->Ok_0 < 0 <==> (a / 0x100) % 0x1_0000 >= 0x8000,
        ((a / 0x100) % 0x1_0000 >= 0x8000 <==> (b / 0x100) % 0x1_0000 >= 0x8000) ==> reading_of(
            a,
            expected_command,
        )->Ok_0 - reading_of(b, expected_command)->Ok_0 == (a / 0x100) % 0x1_0000 - (b / 0x100)
            % 0x1_0000,
{
}

/// A response is refused as a reading exactly if it answers another command, which is told first,
/// or if its status is not 1, which is told with the status.
pub proof fn refused_reading_says_why(response: u32, expected_command: u32)
    ensures
        reading_of(response, expected_command) is Ok <==> (response / 0x400_0000
            == expected_command / 0x400_0000 && (response / 0x100_0000) % 4 == 1),
        response / 0x400_0000 != expected_command / 0x400_0000 ==> reading_of(
            response,
            expected_command,
        ) == Err::<i16, SensorError>(SensorError::UnexpectedResponse),
        response / 0x400_0000 == expected_command / 0x400_0000 && (response / 0x100_0000) % 4 != 1
            ==> reading_of(response, expected_command) == Err::<i16, SensorError>(
            SensorError::StartupStatus(((response / 0x100_0000) % 4) as u8),
        ),
{
}

/// What comes back over the bus is accepted exactly if its last byte is the checksum of the three
/// before it, and then as the frame that its bytes spell; else it is refused for its checksum. A
/// transfer that failed is told as such.
pub proof fn accepted_response_is_what_came(bytes: Seq<u8>)
    requires
        bytes.len() == 4,
    ensures
        accepted(None) == Err::<u32, SensorError>(SensorError::Spi),
        crc::checksum((bytes[0] * 0x1_0000 + bytes[1] * 0x100 + bytes[2]) as u32) == bytes[3]
            ==> accepted(Some(bytes)) == Ok::<u32, SensorError>(
            (bytes[0] * 0x100_0000 + bytes[1] * 0x1_0000 + bytes[2] * 0x100 + bytes[3]) as u32,
        ),
        crc::checksum((bytes[0] * 0x1_0000 + bytes[1] * 0x100 + bytes[2]) as u32) != bytes[3]
            ==> accepted(Some(bytes)) == Err::<u32, SensorError>(SensorError::Crc),
{
    bytes_are_the_digits_of_the_frame(bytes);
    let word = word_of(bytes) as u32;
    assert(word >> 8 == word / 0x100) by (bit_vector);
    assert(word / 0x100 == bytes[0] * 0x1_0000 + bytes[1] * 0x100 + bytes[2]);
}

} // verus!
