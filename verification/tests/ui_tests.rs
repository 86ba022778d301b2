use inclinometer::display::{Area, DrawOp, Font, Ink, TextStyle};
use inclinometer::frame::SensorError;
use inclinometer::sensor::AngleReadings;
use inclinometer::ui::{
    clear_rect, draw_angle_screen, draw_sensor_error, draw_status_overlay, flush_or_keepalive,
    prepare_angle_screen, prepare_error_screen, render, update_text_field, ScreenMode, Service,
    Slot, Timings, UiState,
};

const BODY: TextStyle = TextStyle { font: Font::Body, ink: Ink::Off };
const TITLE: TextStyle = TextStyle { font: Font::Title, ink: Ink::Off };
const SLOT: Slot =
    Slot { clear: Area { x: 1, y: 2, width: 30, height: 4 }, text_x: 5, text_y: 6 };
const TIMINGS: Timings =
    Timings { led_us: 1, sensor_us: 22, cpu_us: 333, flush_us: 4444, loop_us: 12_345_678 };
const READINGS: AngleReadings = AngleReadings { x_raw: 16384, y_raw: -2, z_raw: 0 };

fn fill(x: i32, y: i32, width: u32, height: u32) -> DrawOp {
    DrawOp::Fill { area: Area { x, y, width, height }, ink: Ink::On }
}

fn line(text: &str, x: i32, y: i32, style: TextStyle) -> DrawOp {
    DrawOp::Text { text: String::from(text), x, y, style }
}

fn overlay() -> Vec<DrawOp> {
    vec![
        fill(320, 0, 80, 14),
        line("R00007", 324, 10, BODY),
        fill(220, 182, 180, 12),
        line("LED       1us", 220, 190, BODY),
        fill(220, 194, 180, 12),
        line("SNS      22us", 220, 202, BODY),
        fill(220, 206, 180, 12),
        line("CPU     333us", 220, 214, BODY),
        fill(220, 218, 180, 12),
        line("FLU    4444us", 220, 226, BODY),
        fill(220, 230, 180, 10),
        line("LOP 12345678us", 220, 238, BODY),
    ]
}

fn angle_fields() -> Vec<DrawOp> {
    let mut ops = vec![
        fill(12, 44, 140, 12),
        line("X: +90.00", 12, 52, BODY),
        fill(12, 60, 140, 12),
        line("Y: -0.01", 12, 68, BODY),
        fill(12, 76, 140, 12),
        line("Z: +0.00", 12, 84, BODY),
    ];
    ops.extend(overlay());
    ops
}

#[test]
fn new_state_is_blank() {
    let ui = UiState::new(77);
    assert_eq!(ui.screen_mode, None);
    assert_eq!(ui.last_flush_at, 77);
    assert_eq!(ui.x_text.as_str(), "");
    assert_eq!(ui.refresh_text.as_str(), "");
    assert_eq!(ui.loop_text.as_str(), "");
}

#[test]
fn wiping_fills_with_the_cleared_state() {
    let mut ops = Vec::new();
    clear_rect(&mut ops, Area { x: 1, y: 2, width: 3, height: 4 });
    assert_eq!(ops, vec![fill(1, 2, 3, 4)]);
}

#[test]
fn changed_field_is_wiped_and_drawn() {
    let mut ops = Vec::new();
    let mut cache: heapless::String<16> = heapless::String::new();
    assert!(update_text_field(&mut ops, &mut cache, "abc", SLOT, BODY));
    assert_eq!(ops, vec![fill(1, 2, 30, 4), line("abc", 5, 6, BODY)]);
    assert_eq!(cache.as_str(), "abc");
}

#[test]
fn unchanged_field_is_left_alone() {
    let mut ops = Vec::new();
    let mut cache: heapless::String<24> = heapless::String::new();
    cache.push_str("abc").unwrap();
    assert!(!update_text_field(&mut ops, &mut cache, "abc", SLOT, BODY));
    assert!(ops.is_empty());
    assert_eq!(cache.as_str(), "abc");
}

#[test]
fn text_that_differs_anywhere_is_a_change() {
    let mut cache: heapless::String<16> = heapless::String::new();
    let mut ops = Vec::new();
    for text in ["abc", "abd", "xbd", "xb", "xbdd", "\u{e9}bdd", "ebdd"] {
        assert!(update_text_field(&mut ops, &mut cache, text, SLOT, BODY));
        assert!(!update_text_field(&mut ops, &mut cache, text, SLOT, BODY));
        assert_eq!(cache.as_str(), text);
    }
    assert_eq!(ops.len(), 14);
}

#[test]
fn emptied_field_is_only_wiped() {
    let mut ops = Vec::new();
    let mut cache: heapless::String<32> = heapless::String::new();
    cache.push_str("abc").unwrap();
    assert!(update_text_field(&mut ops, &mut cache, "", SLOT, TITLE));
    assert_eq!(ops, vec![fill(1, 2, 30, 4)]);
    assert_eq!(cache.as_str(), "");
}

#[test]
fn text_too_long_for_its_field_is_drawn_every_time() {
    let mut cache: heapless::String<16> = heapless::String::new();
    for _ in 0..2 {
        let mut ops = Vec::new();
        assert!(update_text_field(&mut ops, &mut cache, "seventeen letters", SLOT, BODY));
        assert_eq!(ops, vec![fill(1, 2, 30, 4), line("seventeen letters", 5, 6, BODY)]);
        assert_eq!(cache.as_str(), "");
    }
    let mut ops = Vec::new();
    assert!(update_text_field(&mut ops, &mut cache, "sixteen letters.", SLOT, BODY));
    assert_eq!(cache.as_str(), "sixteen letters.");
}

#[test]
fn capacity_counts_bytes() {
    let mut cache: heapless::String<16> = heapless::String::new();
    let mut ops = Vec::new();
    let nine_times_two = "\u{e9}\u{e9}\u{e9}\u{e9}\u{e9}\u{e9}\u{e9}\u{e9}\u{e9}";
    assert!(update_text_field(&mut ops, &mut cache, nine_times_two, SLOT, BODY));
    assert_eq!(cache.as_str(), "");
}

#[test]
fn invalidated_state_keeps_mode_and_time() {
    let mut ui = UiState::new(5);
    let mut ops = Vec::new();
    render(&mut ops, &mut ui, Ok(READINGS), 7, TIMINGS);
    ui.invalidate_dynamic_fields();
    assert_eq!(ui.screen_mode, Some(ScreenMode::Angles));
    assert_eq!(ui.last_flush_at, 5);
    assert_eq!(ui.y_text.as_str(), "");
    assert_eq!(ui.cpu_text.as_str(), "");
    let mut again = Vec::new();
    assert!(render(&mut again, &mut ui, Ok(READINGS), 7, TIMINGS));
    assert_eq!(again, angle_fields());
}

#[test]
fn angle_screen_is_put_up() {
    let mut ui = UiState::new(0);
    let mut ops = Vec::new();
    prepare_angle_screen(&mut ops, &mut ui);
    assert_eq!(ui.screen_mode, Some(ScreenMode::Angles));
    assert_eq!(
        ops,
        vec![
            DrawOp::ClearBuffer,
            line("SCL3300", 12, 20, TITLE),
            line("angles in deg", 12, 108, BODY),
        ]
    );
}

#[test]
fn error_screen_is_put_up() {
    let mut ui = UiState::new(0);
    let mut ops = Vec::new();
    prepare_error_screen(&mut ops, &mut ui);
    assert_eq!(ui.screen_mode, Some(ScreenMode::Error));
    assert_eq!(
        ops,
        vec![
            DrawOp::ClearBuffer,
            line("SCL3300", 12, 20, TITLE),
            line("sensor error", 12, 44, BODY),
        ]
    );
}

#[test]
fn status_fields_are_drawn() {
    let mut ui = UiState::new(0);
    let mut ops = Vec::new();
    assert!(draw_status_overlay(&mut ops, &mut ui, 7, TIMINGS));
    assert_eq!(ops, overlay());
    assert_eq!(ui.refresh_text.as_str(), "R00007");
    assert_eq!(ui.led_text.as_str(), "LED       1us");
    assert_eq!(ui.sensor_text.as_str(), "SNS      22us");
    assert_eq!(ui.cpu_text.as_str(), "CPU     333us");
    assert_eq!(ui.flush_text.as_str(), "FLU    4444us");
    assert_eq!(ui.loop_text.as_str(), "LOP 12345678us");
}

#[test]
fn angles_are_drawn_and_then_only_what_changed() {
    let mut ui = UiState::new(0);
    let mut ops = Vec::new();
    assert!(draw_angle_screen(&mut ops, &mut ui, READINGS, 7, TIMINGS));
    assert_eq!(ops, angle_fields());

    let mut same = Vec::new();
    assert!(!draw_angle_screen(&mut same, &mut ui, READINGS, 7, TIMINGS));
    assert!(same.is_empty());

    let mut next = Vec::new();
    let moved = AngleReadings { y_raw: -16384, ..READINGS };
    assert!(draw_angle_screen(&mut next, &mut ui, moved, 7, TIMINGS));
    assert_eq!(next, vec![fill(12, 60, 140, 12), line("Y: -90.00", 12, 68, BODY)]);
}

#[test]
fn readings_that_look_the_same_are_not_drawn() {
    let mut ui = UiState::new(0);
    let mut ops = Vec::new();
    draw_angle_screen(&mut ops, &mut ui, READINGS, 7, TIMINGS);
    let mut same = Vec::new();
    let unseen = AngleReadings { z_raw: -1, ..READINGS };
    assert!(!draw_angle_screen(&mut same, &mut ui, unseen, 7, TIMINGS));
    assert!(same.is_empty());
}

#[test]
fn error_is_drawn_with_its_detail() {
    let mut ui = UiState::new(0);
    let mut ops = Vec::new();
    assert!(draw_sensor_error(&mut ops, &mut ui, SensorError::WhoAmI(0xAB), 7, TIMINGS));
    let mut expected = vec![
        fill(12, 52, 200, 12),
        line("WHOAMI mismatch", 12, 60, BODY),
        fill(12, 68, 200, 12),
        line("whoami=0x00AB", 12, 76, BODY),
    ];
    expected.extend(overlay());
    assert_eq!(ops, expected);

    let mut next = Vec::new();
    assert!(draw_sensor_error(&mut next, &mut ui, SensorError::Crc, 7, TIMINGS));
    assert_eq!(
        next,
        vec![
            fill(12, 52, 200, 12),
            line("CRC mismatch", 12, 60, BODY),
            fill(12, 68, 200, 12),
        ]
    );
}

#[test]
fn rendering_changes_the_screen_when_the_outcome_does() {
    let mut ui = UiState::new(0);
    let mut ops = Vec::new();
    assert!(render(&mut ops, &mut ui, Ok(READINGS), 7, TIMINGS));
    assert_eq!(ops.len(), 3 + 18);
    assert_eq!(ops[2], line("angles in deg", 12, 108, BODY));

    let mut error = Vec::new();
    assert!(render(&mut error, &mut ui, Err(SensorError::Spi), 7, TIMINGS));
    assert_eq!(error[0], DrawOp::ClearBuffer);
    assert_eq!(error[2], line("sensor error", 12, 44, BODY));
    assert_eq!(error[4], line("SPI transfer failed", 12, 60, BODY));
    assert_eq!(error.len(), 3 + 2 + 12);

    let mut same = Vec::new();
    assert!(!render(&mut same, &mut ui, Err(SensorError::Spi), 7, TIMINGS));
    assert!(same.is_empty());

    let mut next = Vec::new();
    assert!(render(&mut next, &mut ui, Err(SensorError::Spi), 8, TIMINGS));
    assert_eq!(next, vec![fill(320, 0, 80, 14), line("R00008", 324, 10, BODY)]);
}

#[test]
fn display_is_served_when_needed() {
    let ui = UiState::new(1000);
    assert_eq!(flush_or_keepalive(&ui, true, 1000), Service::Flush);
    assert_eq!(flush_or_keepalive(&ui, false, 1000), Service::Leave);
    assert_eq!(flush_or_keepalive(&ui, false, 1000 + 16_383), Service::Leave);
    assert_eq!(flush_or_keepalive(&ui, false, 1000 + 16_384), Service::KeepAlive);
}

#[test]
fn field_areas_are_apart() {
    let areas: Vec<Area> = angle_fields()
        .into_iter()
        .filter_map(|op| match op {
            DrawOp::Fill { area, .. } => Some(area),
            _ => None,
        })
        .collect();
    assert_eq!(areas.len(), 9);
    for (i, a) in areas.iter().enumerate() {
        assert!(a.x >= 0 && a.x + a.width as i32 <= 400);
        assert!(a.y >= 0 && a.y + a.height as i32 <= 240);
        for b in &areas[i + 1..] {
            assert!(
                a.x + a.width as i32 <= b.x
                    || b.x + b.width as i32 <= a.x
                    || a.y + a.height as i32 <= b.y
                    || b.y + b.height as i32 <= a.y
            );
        }
    }
}

#[test]
fn lines_stay_in_their_fields() {
    let slow = Timings {
        led_us: u32::MAX,
        sensor_us: u32::MAX,
        cpu_us: u32::MAX,
        flush_us: u32::MAX,
        loop_us: u32::MAX,
    };
    let steep = AngleReadings { x_raw: i16::MIN, y_raw: i16::MIN, z_raw: i16::MIN };
    for outcome in [
        Ok(steep),
        Err(SensorError::Spi),
        Err(SensorError::UnexpectedResponse),
        Err(SensorError::StartupStatus(0)),
        Err(SensorError::WhoAmI(0xFFFF)),
    ] {
        let mut ui = UiState::new(0);
        let mut ops = Vec::new();
        assert!(render(&mut ops, &mut ui, outcome, 99_999, slow));
        let mut drawn = 0;
        for pair in ops.windows(2) {
            if let (DrawOp::Fill { area, .. }, DrawOp::Text { text, x, y, .. }) =
                (&pair[0], &pair[1])
            {
                assert!(area.x <= *x && *x + 6 * text.len() as i32 <= area.x + area.width as i32);
                assert!(area.y <= *y - 7 && (*y + 3).min(240) <= area.y + area.height as i32);
                drawn += 1;
            }
        }
        assert!(drawn >= 7);
    }
}

#[test]
fn captions_are_outside_of_the_fields() {
    for outcome in [Ok(READINGS), Err(SensorError::WhoAmI(1))] {
        let mut ui = UiState::new(0);
        let mut ops = Vec::new();
        assert!(render(&mut ops, &mut ui, outcome, 1, TIMINGS));
        for caption in &ops[1..3] {
            let (left, right, top, bottom) = match caption {
                DrawOp::Text { text, x, y, style } if *style == TITLE => {
                    (*x, *x + 10 * text.len() as i32, *y - 15, *y + 5)
                }
                DrawOp::Text { text, x, y, .. } => {
                    (*x, *x + 6 * text.len() as i32, *y - 7, *y + 3)
                }
                _ => panic!("no caption"),
            };
            assert!(left >= 0 && right <= 400 && top >= 0 && bottom <= 240);
            for op in &ops[3..] {
                if let DrawOp::Fill { area, .. } = op {
                    assert!(
                        right <= area.x
                            || area.x + area.width as i32 <= left
                            || bottom <= area.y
                            || area.y + area.height as i32 <= top
                    );
                }
            }
        }
    }
}
