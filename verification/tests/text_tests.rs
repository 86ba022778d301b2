use inclinometer::frame::SensorError;
use inclinometer::text::{
    format_axis_line, format_refresh_line, format_sensor_error, format_timing_line,
};

#[test]
fn axis_lines() {
    assert_eq!(format_axis_line('X', 0).as_str(), "X: +0.00");
    assert_eq!(format_axis_line('X', 16384).as_str(), "X: +90.00");
    assert_eq!(format_axis_line('Y', -16384).as_str(), "Y: -90.00");
    assert_eq!(format_axis_line('Z', 32767).as_str(), "Z: +179.99");
    assert_eq!(format_axis_line('Z', -32768).as_str(), "Z: -180.00");
    assert_eq!(format_axis_line('X', 182).as_str(), "X: +0.99");
    assert_eq!(format_axis_line('X', 183).as_str(), "X: +1.00");
    assert_eq!(format_axis_line('\u{1F600}', -32768).as_str(), "\u{1F600}: -180.00");
}

#[test]
fn small_angles_are_cut_off_to_zero() {
    assert_eq!(format_axis_line('X', 1).as_str(), "X: +0.00");
    assert_eq!(format_axis_line('X', -1).as_str(), "X: +0.00");
    assert_eq!(format_axis_line('X', 2).as_str(), "X: +0.01");
    assert_eq!(format_axis_line('X', -2).as_str(), "X: -0.01");
}

#[test]
fn opposite_readings_have_opposite_lines() {
    for raw in 2..=32767i16 {
        let up = format_axis_line('X', raw);
        let down = format_axis_line('X', -raw);
        assert_eq!(up.as_str().replace('+', "-"), down.as_str());
    }
}

#[test]
fn larger_readings_have_no_smaller_angles() {
    let mut last = i32::MIN;
    for raw in i16::MIN..=i16::MAX {
        let line = format_axis_line('X', raw);
        let digits: String = line.as_str()[3..].chars().filter(|c| *c != '.').collect();
        let angle: i32 = digits.parse().unwrap();
        assert!(last <= angle);
        let exact = raw as f64 * 9000.0 / 16384.0;
        assert!((exact - angle as f64).abs() < 1.0);
        assert!((angle as f64).abs() <= exact.abs());
        last = angle;
    }
}

#[test]
fn refresh_lines() {
    assert_eq!(format_refresh_line(0).as_str(), "R00000");
    assert_eq!(format_refresh_line(42).as_str(), "R00042");
    assert_eq!(format_refresh_line(99_999).as_str(), "R99999");
    assert_eq!(format_refresh_line(100_000).as_str(), "R00000");
    assert_eq!(format_refresh_line(u32::MAX).as_str(), "R67295");
}

#[test]
fn timing_lines() {
    assert_eq!(format_timing_line("LED ", 0).as_str(), "LED       0us");
    assert_eq!(format_timing_line("SNS ", 1234).as_str(), "SNS    1234us");
    assert_eq!(format_timing_line("CPU ", 1_234_567).as_str(), "CPU 1234567us");
    assert_eq!(format_timing_line("LOP ", u32::MAX).as_str(), "LOP 4294967295us");
    assert_eq!(format_timing_line("twelve bytes", u32::MAX).as_str(), "twelve bytes4294967295us");
}

#[test]
fn error_lines() {
    let lines = |error| {
        let (message, detail) = format_sensor_error(error);
        (message, String::from(detail.as_str()))
    };
    assert_eq!(lines(SensorError::Spi), ("SPI transfer failed", String::new()));
    assert_eq!(lines(SensorError::Crc), ("CRC mismatch", String::new()));
    assert_eq!(lines(SensorError::UnexpectedResponse), ("off-frame mismatch", String::new()));
    assert_eq!(lines(SensorError::StartupStatus(0)), ("startup in progress", String::new()));
    assert_eq!(lines(SensorError::StartupStatus(1)), ("status says ok", String::new()));
    assert_eq!(lines(SensorError::StartupStatus(2)), ("status reserved", String::new()));
    assert_eq!(lines(SensorError::StartupStatus(3)), ("status flag set", String::new()));
    assert_eq!(lines(SensorError::StartupStatus(200)), ("status reserved", String::new()));
    assert_eq!(lines(SensorError::WhoAmI(0xC2)), ("WHOAMI mismatch", String::from("whoami=0x00C2")));
    assert_eq!(lines(SensorError::WhoAmI(0xBEEF)), ("WHOAMI mismatch", String::from("whoami=0xBEEF")));
    assert_eq!(lines(SensorError::WhoAmI(0)), ("WHOAMI mismatch", String::from("whoami=0x0000")));
}
