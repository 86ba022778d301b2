use inclinometer::frame::{
    SensorError, SCL3300_ENABLE_ANGLE_OUTPUTS, SCL3300_MODE_1, SCL3300_READ_ANG_X,
    SCL3300_READ_ANG_Y, SCL3300_READ_ANG_Z, SCL3300_READ_STATUS, SCL3300_READ_WHOAMI,
    SCL3300_SW_RESET,
};
use inclinometer::sensor::{
    assemble_readings, AngleRead, AngleReadings, ReadProgress, Reply, Request, Startup,
    StartupProgress,
};

const STATUS_OK: u32 = 0x1900_0000;
const WHOAMI_OK: u32 = 0x4100_C100;

fn good_replies() -> Vec<Reply> {
    vec![
        Reply::Response(Ok(0)),
        Reply::Waited,
        Reply::Response(Ok(0)),
        Reply::Response(Ok(0)),
        Reply::Waited,
        Reply::Response(Ok(0)),
        Reply::Response(Ok(0)),
        Reply::Response(Ok(STATUS_OK)),
        Reply::Response(Ok(0)),
        Reply::Response(Ok(WHOAMI_OK)),
    ]
}

fn run(replies: &[Reply]) -> (Vec<Request>, Result<(), SensorError>) {
    let (mut startup, first) = Startup::begin();
    let mut requests = vec![first];
    for reply in replies {
        assert_eq!(startup.awaits_transfer(), matches!(reply, Reply::Response(_)));
        match startup.advance(*reply) {
            StartupProgress::Next(request) => requests.push(request),
            StartupProgress::Finished(result) => return (requests, result),
        }
    }
    panic!("the replies did not settle the startup");
}

#[test]
fn startup_follows_the_script() {
    let (requests, result) = run(&good_replies());
    assert_eq!(result, Ok(()));
    assert_eq!(
        requests,
        vec![
            Request::Transfer(SCL3300_SW_RESET),
            Request::Wait(1),
            Request::Transfer(SCL3300_MODE_1),
            Request::Transfer(SCL3300_ENABLE_ANGLE_OUTPUTS),
            Request::Wait(25),
            Request::Transfer(SCL3300_READ_STATUS),
            Request::Transfer(SCL3300_READ_STATUS),
            Request::Transfer(SCL3300_READ_STATUS),
            Request::Transfer(SCL3300_READ_WHOAMI),
            Request::Transfer(SCL3300_READ_WHOAMI),
        ]
    );
}

#[test]
fn startup_stops_at_the_first_failed_transfer() {
    for place in [0, 2, 3, 5, 6, 7, 8, 9] {
        for error in [SensorError::Spi, SensorError::Crc] {
            let mut replies = good_replies();
            replies[place] = Reply::Response(Err(error));
            let (requests, result) = run(&replies);
            assert_eq!(result, Err(error));
            assert_eq!(requests.len(), place + 1);
        }
    }
}

#[test]
fn startup_stops_at_a_bad_status() {
    for status in [0u8, 2, 3] {
        let mut replies = good_replies();
        replies[7] = Reply::Response(Ok((0x18 | status as u32) << 24));
        let (requests, result) = run(&replies);
        assert_eq!(result, Err(SensorError::StartupStatus(status)));
        assert_eq!(requests.len(), 8);
    }
}

#[test]
fn startup_ignores_the_first_two_statuses() {
    let mut replies = good_replies();
    replies[5] = Reply::Response(Ok(0x1B00_0000));
    replies[6] = Reply::Response(Ok(0x1B00_0000));
    assert_eq!(run(&replies).1, Ok(()));
}

#[test]
fn startup_stops_at_a_foreign_identification() {
    let mut replies = good_replies();
    replies[9] = Reply::Response(Ok(0x4112_3400));
    assert_eq!(run(&replies).1, Err(SensorError::WhoAmI(0x1234)));
}

#[test]
fn startup_compares_the_low_byte_of_the_identification() {
    let mut replies = good_replies();
    replies[9] = Reply::Response(Ok(0x41AB_C100));
    assert_eq!(run(&replies).1, Ok(()));
}

fn read_with(outcomes: [Result<u32, SensorError>; 4]) -> (Vec<u32>, Result<AngleReadings, SensorError>) {
    let (mut read, first) = AngleRead::begin();
    let mut sent = vec![first];
    for outcome in outcomes {
        match read.advance(outcome) {
            ReadProgress::Next(next, word) => {
                read = next;
                sent.push(word);
            }
            ReadProgress::Finished(result) => return (sent, result),
        }
    }
    panic!("the responses did not settle the reading");
}

#[test]
fn reading_takes_each_response_for_the_command_before() {
    let (sent, result) = read_with([
        Ok(0xDEAD_BEEF),
        Ok(0x2500_0100),
        Ok(0x29FF_FF00),
        Ok(0x2D12_3400),
    ]);
    assert_eq!(
        sent,
        vec![SCL3300_READ_ANG_X, SCL3300_READ_ANG_Y, SCL3300_READ_ANG_Z, SCL3300_READ_STATUS]
    );
    assert_eq!(result, Ok(AngleReadings { x_raw: 1, y_raw: -1, z_raw: 0x1234 }));
}

#[test]
fn reading_stops_at_the_first_failed_transfer() {
    for place in 0..4 {
        let mut outcomes = [Ok(0), Ok(0x2500_0100), Ok(0x2900_0100), Ok(0x2D00_0100)];
        outcomes[place] = Err(SensorError::Crc);
        let (sent, result) = read_with(outcomes);
        assert_eq!(sent.len(), place + 1);
        assert_eq!(result, Err(SensorError::Crc));
    }
}

#[test]
fn readings_report_the_first_axis_that_is_amiss() {
    assert_eq!(
        assemble_readings(0x2700_0000, 0, 0),
        Err(SensorError::StartupStatus(3))
    );
    assert_eq!(
        assemble_readings(0x2500_0000, 0, 0x2F00_0000),
        Err(SensorError::UnexpectedResponse)
    );
    assert_eq!(
        assemble_readings(0x2500_0000, 0x2900_0000, 0x2E00_0000),
        Err(SensorError::StartupStatus(2))
    );
}
