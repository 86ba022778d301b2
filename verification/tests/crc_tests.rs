use inclinometer::crc::crc8;
use inclinometer::frame::{
    SCL3300_ENABLE_ANGLE_OUTPUTS, SCL3300_MODE_1, SCL3300_READ_ANG_X, SCL3300_READ_ANG_Y,
    SCL3300_READ_ANG_Z, SCL3300_READ_STATUS, SCL3300_READ_WHOAMI, SCL3300_SW_RESET,
};

fn intact(word: u32) -> bool {
    crc8(word >> 8) == word as u8
}

#[test]
fn commands_carry_their_checksum() {
    assert_eq!(crc8(0x24_0000), 0xC7);
    assert_eq!(crc8(0x28_0000), 0xCD);
    assert_eq!(crc8(0x2C_0000), 0xCB);
    assert_eq!(crc8(0x18_0000), 0xE5);
    assert_eq!(crc8(0x40_0000), 0x91);
    assert_eq!(crc8(0xB0_001F), 0x6F);
    assert_eq!(crc8(0xB4_0000), 0x1F);
    assert_eq!(crc8(0xB4_0020), 0x98);
    for word in [
        SCL3300_READ_ANG_X,
        SCL3300_READ_ANG_Y,
        SCL3300_READ_ANG_Z,
        SCL3300_READ_STATUS,
        SCL3300_READ_WHOAMI,
        SCL3300_ENABLE_ANGLE_OUTPUTS,
        SCL3300_MODE_1,
        SCL3300_SW_RESET,
    ] {
        assert!(intact(word));
    }
}

#[test]
fn checksum_takes_24_bits_only() {
    assert_eq!(crc8(0xFF24_0000), crc8(0x0024_0000));
}

#[test]
fn only_one_low_byte_is_intact() {
    let fitting: Vec<u32> = (0..256).map(|low| 0x2512_3400 | low).filter(|word| intact(*word)).collect();
    assert_eq!(fitting, vec![0x2512_3400 | crc8(0x25_1234) as u32]);
}

#[test]
fn short_bursts_are_noticed() {
    for shift in 0..=24 {
        for burst in 1..=255u32 {
            assert!(!intact(SCL3300_READ_ANG_X ^ (burst << shift)));
        }
    }
}

#[test]
fn double_bit_flips_are_noticed() {
    for i in 0..32 {
        for j in 0..32 {
            if i != j {
                assert!(!intact(SCL3300_SW_RESET ^ (1u32 << i) ^ (1u32 << j)));
            }
        }
    }
}
