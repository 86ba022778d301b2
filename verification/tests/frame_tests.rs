use inclinometer::crc::crc8;
use inclinometer::frame::{
    accept_response, parse_read_response, request_bytes, response_data, return_status, SensorError,
    SCL3300_READ_ANG_X, SCL3300_READ_ANG_Y, SCL3300_SW_RESET,
};

fn sealed(upper: u32) -> u32 {
    (upper << 8) | crc8(upper) as u32
}

#[test]
fn fields_are_taken_out() {
    assert_eq!(response_data(0x2512_34C7), 0x1234);
    assert_eq!(return_status(0x2512_34C7), 1);
    assert_eq!(return_status(0x27FF_FFFF), 3);
    assert_eq!(return_status(0x2400_0000), 0);
    assert_eq!(response_data(0xFF00_00FF), 0);
}

#[test]
fn request_goes_out_most_significant_byte_first() {
    assert_eq!(request_bytes(SCL3300_SW_RESET), [0xB4, 0x00, 0x20, 0x98]);
    assert_eq!(request_bytes(0x0102_0304), [1, 2, 3, 4]);
}

#[test]
fn fitting_response_is_accepted() {
    let word = sealed(0x25_1234);
    assert_eq!(accept_response(Some(request_bytes(word))), Ok(word));
}

#[test]
fn echoed_command_is_accepted() {
    assert_eq!(accept_response(Some([0x24, 0x00, 0x00, 0xC7])), Ok(SCL3300_READ_ANG_X));
}

#[test]
fn disturbed_response_has_crc_error() {
    assert_eq!(accept_response(Some([0x24, 0x00, 0x01, 0xC7])), Err(SensorError::Crc));
    assert_eq!(accept_response(Some([0, 0, 0, 0])), Err(SensorError::Crc));
}

#[test]
fn failed_transfer_has_spi_error() {
    assert_eq!(accept_response(None), Err(SensorError::Spi));
}

#[test]
fn reading_is_signed() {
    assert_eq!(parse_read_response(sealed(0x25_4000), SCL3300_READ_ANG_X), Ok(16384));
    assert_eq!(parse_read_response(sealed(0x25_C000), SCL3300_READ_ANG_X), Ok(-16384));
    assert_eq!(parse_read_response(sealed(0x25_FFFF), SCL3300_READ_ANG_X), Ok(-1));
    assert_eq!(parse_read_response(sealed(0x25_8000), SCL3300_READ_ANG_X), Ok(-32768));
}

#[test]
fn reading_of_another_command_is_unexpected() {
    assert_eq!(
        parse_read_response(sealed(0x25_4000), SCL3300_READ_ANG_Y),
        Err(SensorError::UnexpectedResponse)
    );
}

#[test]
fn reading_with_bad_status_says_which() {
    assert_eq!(
        parse_read_response(sealed(0x27_4000), SCL3300_READ_ANG_X),
        Err(SensorError::StartupStatus(3))
    );
    assert_eq!(
        parse_read_response(sealed(0x24_4000), SCL3300_READ_ANG_X),
        Err(SensorError::StartupStatus(0))
    );
}

#[test]
fn wrong_command_goes_before_bad_status() {
    assert_eq!(
        parse_read_response(sealed(0x27_4000), SCL3300_READ_ANG_Y),
        Err(SensorError::UnexpectedResponse)
    );
}

#[test]
fn fields_and_checksum_make_up_the_frame() {
    for word in [0, 0x2512_34C7, SCL3300_SW_RESET, 0x8000_0001, u32::MAX] {
        let opcode = word >> 26;
        let status = return_status(word) as u32;
        let data = response_data(word) as u32;
        assert_eq!(opcode * 0x400_0000 + status * 0x100_0000 + data * 0x100 + word % 0x100, word);
        assert_eq!(u32::from_be_bytes(request_bytes(word)), word);
    }
}

#[test]
fn response_with_two_flipped_bits_has_crc_error() {
    let word = sealed(0x25_1234);
    for i in 0..32 {
        for j in 0..i {
            let hit = word ^ (1 << i) ^ (1 << j);
            assert_eq!(accept_response(Some(request_bytes(hit))), Err(SensorError::Crc));
        }
    }
}
