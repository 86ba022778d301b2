use inclinometer::crc::crc8;
use inclinometer::display::{draw_splash, DrawOp};
use inclinometer::frame::request_bytes;
use inclinometer::monitor::{Command, Completion, Event, Monitor};

fn sealed(upper: u32) -> [u8; 4] {
    request_bytes((upper << 8) | crc8(upper) as u32)
}

/// Reports at a tick that goes up by one second with each report.
struct Owner {
    monitor: Monitor,
    now: u64,
}

impl Owner {
    fn report(&mut self, completion: Completion) -> Command {
        self.now += 32_768;
        let event = Event { now: self.now, led_us: 17, completion };
        assert!(self.monitor.accepts(&event));
        self.monitor.step(event)
    }

    fn done(&mut self) -> Command {
        self.report(Completion::Done)
    }

    fn answer(&mut self, upper: u32) -> Command {
        self.report(Completion::Transferred(Some(sealed(upper))))
    }
}

fn greeted() -> Owner {
    let (monitor, first) = Monitor::start(0);
    let mut owner = Owner { monitor, now: 0 };
    assert_eq!(first, Command::Draw(draw_splash()));
    assert_eq!(owner.done(), Command::Flush);
    assert_eq!(owner.done(), Command::Sleep(5000));
    assert_eq!(owner.done(), Command::Transfer([0xB4, 0x00, 0x20, 0x98]));
    owner
}

fn asked_for_identification() -> Owner {
    let mut owner = greeted();
    assert_eq!(owner.answer(0), Command::Sleep(1));
    assert_eq!(owner.done(), Command::Transfer([0xB4, 0x00, 0x00, 0x1F]));
    assert_eq!(owner.answer(0), Command::Transfer([0xB0, 0x00, 0x1F, 0x6F]));
    assert_eq!(owner.answer(0), Command::Sleep(25));
    assert_eq!(owner.done(), Command::Transfer([0x18, 0x00, 0x00, 0xE5]));
    assert_eq!(owner.answer(0), Command::Transfer([0x18, 0x00, 0x00, 0xE5]));
    assert_eq!(owner.answer(0), Command::Transfer([0x18, 0x00, 0x00, 0xE5]));
    assert_eq!(owner.answer(0x19_0000), Command::Transfer([0x40, 0x00, 0x00, 0x91]));
    assert_eq!(owner.answer(0), Command::Transfer([0x40, 0x00, 0x00, 0x91]));
    owner
}

fn started() -> Owner {
    let mut owner = asked_for_identification();
    assert_eq!(owner.answer(0x41_00C1), Command::Transfer([0x24, 0x00, 0x00, 0xC7]));
    owner
}

fn texts(command: &Command) -> Vec<String> {
    match command {
        Command::Draw(ops) => ops
            .iter()
            .filter_map(|op| match op {
                DrawOp::Text { text, .. } => Some(text.clone()),
                _ => None,
            })
            .collect(),
        _ => panic!("nothing is drawn"),
    }
}

fn clears(command: &Command) -> bool {
    match command {
        Command::Draw(ops) => ops.contains(&DrawOp::ClearBuffer),
        _ => false,
    }
}

fn read(owner: &mut Owner, x: u32, y: u32, z: u32) -> Command {
    assert_eq!(owner.answer(0), Command::Transfer([0x28, 0x00, 0x00, 0xCD]));
    assert_eq!(owner.answer(0x25_0000 | x), Command::Transfer([0x2C, 0x00, 0x00, 0xCB]));
    assert_eq!(owner.answer(0x29_0000 | y), Command::Transfer([0x18, 0x00, 0x00, 0xE5]));
    owner.answer(0x2D_0000 | z)
}

#[test]
fn angles_are_read_drawn_and_flushed_in_a_pass() {
    let mut owner = started();
    let drawn = read(&mut owner, 0x4000, 0xC000, 0);
    assert!(clears(&drawn));
    assert_eq!(
        texts(&drawn),
        vec![
            "SCL3300",
            "angles in deg",
            "X: +90.00",
            "Y: -90.00",
            "Z: +0.00",
            "R00001",
            "LED      17us",
            "SNS       0us",
            "CPU       0us",
            "FLU       0us",
            "LOP       0us",
        ]
    );
    assert_eq!(owner.done(), Command::Flush);
    assert_eq!(owner.done(), Command::Sleep(100));
}

#[test]
fn next_pass_shows_the_timings_of_the_one_before() {
    let mut owner = started();
    read(&mut owner, 0x4000, 0xC000, 0);
    owner.done();
    owner.done();
    assert_eq!(owner.done(), Command::Transfer([0x24, 0x00, 0x00, 0xC7]));
    let drawn = read(&mut owner, 0x4000, 0xC000, 1);
    assert!(!clears(&drawn));
    assert_eq!(
        texts(&drawn),
        vec!["R00002", "SNS 4000000us", "CPU 1000000us", "FLU 1000000us", "LOP 6000000us"]
    );
    assert_eq!(owner.done(), Command::Flush);
    assert_eq!(owner.done(), Command::Sleep(100));
}

#[test]
fn failed_reading_is_shown_and_tried_again() {
    let mut owner = started();
    let drawn = owner.report(Completion::Transferred(None));
    assert!(clears(&drawn));
    assert_eq!(texts(&drawn)[1..4], ["sensor error", "SPI transfer failed", "R00001"]);
    assert_eq!(owner.done(), Command::Flush);
    assert_eq!(owner.done(), Command::Sleep(100));
    assert_eq!(owner.done(), Command::Transfer([0x24, 0x00, 0x00, 0xC7]));
    let recovered = read(&mut owner, 0, 0, 0);
    assert!(clears(&recovered));
    assert_eq!(texts(&recovered)[1..3], ["angles in deg", "X: +0.00"]);
}

#[test]
fn disturbed_frame_in_a_reading_is_shown() {
    let mut owner = started();
    owner.answer(0);
    let drawn = owner.report(Completion::Transferred(Some([0x25, 0, 0, 0])));
    assert_eq!(texts(&drawn)[2], "CRC mismatch");
}

#[test]
fn response_to_another_command_is_shown() {
    let mut owner = started();
    owner.answer(0);
    owner.answer(0x29_0000);
    owner.answer(0x29_0000);
    let drawn = owner.answer(0x2D_0000);
    assert_eq!(texts(&drawn)[2], "off-frame mismatch");
}

#[test]
fn foreign_sensor_is_refused_for_good() {
    let mut owner = asked_for_identification();
    let put_up = owner.answer(0x41_1234);
    assert!(clears(&put_up));
    assert_eq!(texts(&put_up), ["SCL3300", "sensor error"]);
    let drawn = owner.done();
    assert!(!clears(&drawn));
    assert_eq!(texts(&drawn)[0..3], ["WHOAMI mismatch", "whoami=0x1234", "R00001"]);
    for pass in 2..5 {
        assert_eq!(owner.done(), Command::Flush);
        assert_eq!(owner.done(), Command::Sleep(250));
        let again = owner.done();
        assert_eq!(texts(&again)[0], format!("R{:05}", pass));
        assert!(!texts(&again).iter().any(|text| text.starts_with("SNS")));
    }
}

#[test]
fn startup_that_fails_on_the_bus_is_shown() {
    let mut owner = greeted();
    let put_up = owner.report(Completion::Transferred(None));
    assert_eq!(texts(&put_up), ["SCL3300", "sensor error"]);
    let drawn = owner.done();
    assert_eq!(texts(&drawn)[0], "SPI transfer failed");
    assert_eq!(owner.done(), Command::Flush);
    assert_eq!(owner.done(), Command::Sleep(250));
    // Putting up the screen counts for the pass, but not for the drawing.
    let next_pass = owner.done();
    assert_eq!(
        texts(&next_pass),
        ["R00002", "CPU 1000000us", "FLU 1000000us", "LOP 3000000us"]
    );
    owner.done();
    owner.done();
    assert_eq!(texts(&owner.done()), ["R00003", "LOP 2000000us"]);
}

#[test]
fn every_frame_that_is_sent_carries_its_checksum() {
    let mut owner = greeted();
    let mut command = owner.answer(0);
    let mut sent = 0;
    for _ in 0..30 {
        command = match command {
            Command::Transfer(bytes) => {
                let word = u32::from_be_bytes(bytes);
                assert_eq!(crc8(word >> 8), bytes[3]);
                sent += 1;
                // A sensor that identifies itself and is in order, whatever it is asked.
                owner.answer((word >> 8) & 0xFF_0000 | 0x01_00C1)
            }
            _ => owner.done(),
        };
    }
    assert!(sent > 10);
}

#[test]
fn display_follows_the_task_through_errors_and_back() {
    let mut shown: Vec<(i32, i32, String)> = Vec::new();
    let mut put = |command: &Command, shown: &mut Vec<(i32, i32, String)>| match command {
        Command::Draw(ops) => {
            for op in ops {
                match op {
                    DrawOp::ClearBuffer => shown.clear(),
                    DrawOp::Fill { area, .. } => shown.retain(|(x, y, _)| {
                        *x < area.x
                            || *x >= area.x + area.width as i32
                            || *y < area.y
                            || *y >= area.y + area.height as i32
                    }),
                    DrawOp::Text { text, x, y, .. } => shown.push((*x, *y, text.clone())),
                    DrawOp::Glyph { .. } => panic!("no glyphs in a pass"),
                }
            }
        }
        _ => panic!("nothing is drawn"),
    };
    let at = |x: i32, y: i32, shown: &Vec<(i32, i32, String)>| -> Vec<String> {
        shown.iter().filter(|t| t.0 == x && t.1 == y).map(|t| t.2.clone()).collect()
    };

    let mut owner = started();
    put(&read(&mut owner, 0x4000, 0xC000, 0), &mut shown);
    owner.done();
    owner.done();
    owner.done();
    put(&read(&mut owner, 0x4000, 0x2000, 0), &mut shown);
    assert_eq!(at(12, 52, &shown), ["X: +90.00"]);
    assert_eq!(at(12, 68, &shown), ["Y: +45.00"]);
    assert_eq!(at(324, 10, &shown), ["R00002"]);
    assert_eq!(at(220, 238, &shown), ["LOP 6000000us"]);
    owner.done();
    owner.done();
    owner.done();
    put(&owner.report(Completion::Transferred(None)), &mut shown);
    assert_eq!(at(12, 60, &shown), ["SPI transfer failed"]);
    assert_eq!(at(324, 10, &shown), ["R00003"]);
    assert_eq!(at(12, 52, &shown), Vec::<String>::new());
    owner.done();
    owner.done();
    owner.done();
    put(&read(&mut owner, 0, 0, 0), &mut shown);
    assert_eq!(at(12, 52, &shown), ["X: +0.00"]);
    assert_eq!(at(12, 60, &shown), Vec::<String>::new());
    assert_eq!(shown.len(), 11);
}

#[test]
fn reports_that_do_not_fit_are_not_accepted() {
    let owner = greeted();
    let now = owner.now;
    let fits = |now, completion| owner.monitor.accepts(&Event { now, led_us: 0, completion });
    assert!(fits(now, Completion::Transferred(None)));
    assert!(!fits(now, Completion::Done));
    assert!(!fits(now - 1, Completion::Transferred(None)));
    let (monitor, _) = Monitor::start(9);
    assert!(monitor.accepts(&Event { now: 9, led_us: 0, completion: Completion::Done }));
    assert!(!monitor.accepts(&Event {
        now: 9,
        led_us: 0,
        completion: Completion::Transferred(None)
    }));
}

#[test]
fn pass_that_is_too_long_to_tell_is_not_accepted() {
    let owner = started();
    let limit = owner.now + u64::MAX / 15_625;
    let fits = |now| {
        owner.monitor.accepts(&Event { now, led_us: 0, completion: Completion::Transferred(None) })
    };
    assert!(fits(limit));
    assert!(!fits(limit + 1));
}
