//! The two screens of the device. What a screen shows is kept in text fields; a field is drawn
//! anew only when its text changes.
use vstd::prelude::*;

use crate::clock;
use crate::display;
use crate::display::{Area, DrawOp, Font, Ink, TextStyle};
use crate::frame::SensorError;
use crate::sensor::AngleReadings;
use crate::text;
use crate::text::Line;

verus! {

/// Which screen is up.
#[derive(Clone, Copy, Debug, PartialEq, Eq, Structural)]
pub enum ScreenMode {
    Angles,
    Error,
}

/// How long the parts of the device took when they last ran, in microseconds.
#[derive(Clone, Copy, Debug, PartialEq, Eq, Structural)]
pub struct Timings {
    pub led_us: u32,
    pub sensor_us: u32,
    pub cpu_us: u32,
    pub flush_us: u32,
    pub loop_us: u32,
}

/// Which screen is up, when the display was last served, and the text that each field shows.
pub struct UiState {
    pub screen_mode: Option<ScreenMode>,
    pub last_flush_at: u64,
    pub x_text: heapless::String<32>,
    pub y_text: heapless::String<32>,
    pub z_text: heapless::String<32>,
    pub refresh_text: heapless::String<16>,
    pub led_text: heapless::String<24>,
    pub sensor_text: heapless::String<24>,
    pub cpu_text: heapless::String<24>,
    pub flush_text: heapless::String<24>,
    pub loop_text: heapless::String<24>,
    pub error_message: heapless::String<32>,
    pub error_detail: heapless::String<32>,
}

/// The state of the screens, with text as its characters.
#[verifier::ext_equal]
pub struct Screen {
    pub mode: Option<ScreenMode>,
    pub last_flush_at: u64,
    pub x: Seq<char>,
    pub y: Seq<char>,
    pub z: Seq<char>,
    pub refresh: Seq<char>,
    pub led: Seq<char>,
    pub sensor: Seq<char>,
    pub cpu: Seq<char>,
    pub flush: Seq<char>,
    pub pass: Seq<char>,
    pub message: Seq<char>,
    pub detail: Seq<char>,
}

impl View for UiState {
    type V = Screen;

    open spec fn view(&self) -> Screen {
        Screen {
            mode: self.screen_mode,
            last_flush_at: self.last_flush_at,
            x: self.x_text.text(),
            y: self.y_text.text(),
            z: self.z_text.text(),
            refresh: self.refresh_text.text(),
            led: self.led_text.text(),
            sensor: self.sensor_text.text(),
            cpu: self.cpu_text.text(),
            flush: self.flush_text.text(),
            pass: self.loop_text.text(),
            message: self.error_message.text(),
            detail: self.error_detail.text(),
        }
    }
}

/// A screen with nothing in its fields.
pub open spec fn blank_screen(mode: Option<ScreenMode>, last_flush_at: u64) -> Screen {
    Screen {
        mode,
        last_flush_at,
        x: Seq::empty(),
        y: Seq::empty(),
        z: Seq::empty(),
        refresh: Seq::empty(),
        led: Seq::empty(),
        sensor: Seq::empty(),
        cpu: Seq::empty(),
        flush: Seq::empty(),
        pass: Seq::empty(),
        message: Seq::empty(),
        detail: Seq::empty(),
    }
}

impl UiState {
    /// No screen is up yet, and no field shows anything.
    pub fn new(now: u64) -> (ui: UiState)
        ensures
            ui@ == blank_screen(None, now),
    {
        UiState {
            screen_mode: None,
            last_flush_at: now,
            x_text: text::new_line_32(),
            y_text: text::new_line_32(),
            z_text: text::new_line_32(),
            refresh_text: text::new_line_16(),
            led_text: text::new_line_24(),
            sensor_text: text::new_line_24(),
            cpu_text: text::new_line_24(),
            flush_text: text::new_line_24(),
            loop_text: text::new_line_24(),
            error_message: text::new_line_32(),
            error_detail: text::new_line_32(),
        }
    }

    /// Forgets what the fields show, so that all of them are drawn anew.
    pub fn invalidate_dynamic_fields(&mut self)
        ensures
            final(self)@ == blank_screen(old(self)@.mode, old(self)@.last_flush_at),
    {
        text::clear(&mut self.x_text);
        text::clear(&mut self.y_text);
        text::clear(&mut self.z_text);
        text::clear(&mut self.refresh_text);
        text::clear(&mut self.led_text);
        text::clear(&mut self.sensor_text);
        text::clear(&mut self.cpu_text);
        text::clear(&mut self.flush_text);
        text::clear(&mut self.loop_text);
        text::clear(&mut self.error_message);
        text::clear(&mut self.error_detail);
    }
}

/// The place of a field: the area that is wiped before its text is drawn, and where the baseline
/// of the text starts.
#[derive(Clone, Copy, Debug, PartialEq, Eq, Structural)]
pub struct Slot {
    pub clear: Area,
    pub text_x: i32,
    pub text_y: i32,
}

/// The slot with these measures.
pub open spec fn slot_at(
    x: i32,
    y: i32,
    width: u32,
    height: u32,
    text_x: i32,
    text_y: i32,
) -> Slot {
    Slot { clear: Area { x, y, width, height }, text_x, text_y }
}

fn new_slot(x: i32, y: i32, width: u32, height: u32, text_x: i32, text_y: i32) -> (slot: Slot)
    ensures
        slot == slot_at(x, y, width, height, text_x, text_y),
{
    Slot { clear: Area { x, y, width, height }, text_x, text_y }
}

/// The style of the titles.
pub open spec fn title_style() -> TextStyle {
    TextStyle { font: Font::Title, ink: Ink::Off }
}

/// The style of everything else.
pub open spec fn body_style() -> TextStyle {
    TextStyle { font: Font::Body, ink: Ink::Off }
}

/// Adds the wiping of an area to what is to be drawn.
pub fn clear_rect(ops: &mut Vec<DrawOp>, area: Area)
    ensures
        display::drawings(final(ops)@) == display::drawings(old(ops)@).push(
            display::Drawing::Fill { area, ink: Ink::On },
        ),
{
    let op = DrawOp::Fill { area, ink: Ink::On };
    proof {
        display::lemma_drawings_push(ops@, op);
    }
    ops.push(op);
}

/// What is drawn to make a field that shows `shown` show `wanted`: nothing if it does so already,
/// and else the area of the field is wiped and the text, if there is any, drawn.
pub open spec fn field_update(
    shown: Seq<char>,
    wanted: Seq<char>,
    slot: Slot,
    style: TextStyle,
) -> Seq<display::Drawing> {
    if shown == wanted {
        Seq::empty()
    } else if wanted.len() == 0 {
        seq![display::Drawing::Fill { area: slot.clear, ink: Ink::On }]
    } else {
        seq![
            display::Drawing::Fill { area: slot.clear, ink: Ink::On },
            display::Drawing::Text { text: wanted, x: slot.text_x, y: slot.text_y, style },
        ]
    }
}

/// What a field with room for `capacity` bytes remembers of a text that was drawn: all of it if
/// there is room for it, and else nothing.
pub open spec fn remembered(drawn: Seq<char>, capacity: nat) -> Seq<char> {
    if text::byte_len(drawn) <= capacity {
        drawn
    } else {
        Seq::empty()
    }
}

/// Makes a field show a text, and tells whether anything has to be drawn for it. A text for which
/// the field has no room is drawn every time, as the field remembers nothing of it.
pub fn update_text_field<const N: usize>(
    ops: &mut Vec<DrawOp>,
    cache: &mut heapless::String<N>,
    new_text: &str,
    slot: Slot,
    style: TextStyle,
) -> (changed: bool) where heapless::String<N>: Line
    ensures
        changed == (old(cache).text() != new_text@),
        display::drawings(final(ops)@) == display::drawings(old(ops)@) + field_update(
            old(cache).text(),
            new_text@,
            slot,
            style,
        ),
        final(cache).text() == (if changed {
            remembered(new_text@, N as nat)
        } else {
            old(cache).text()
        }),
        text::byte_len(final(cache).text()) <= N,
        text::byte_len(new_text@) > N ==> changed && final(cache).text() == Seq::<char>::empty(),
{
    if text::same_text(text::as_str(cache), new_text) {
        assert(display::drawings(ops@) =~= display::drawings(ops@) + Seq::<
            display::Drawing,
        >::empty());
        return false;
    }
    clear_rect(ops, slot.clear);
    if !new_text.is_empty() {
        let op = DrawOp::Text {
            text: new_text.to_owned(),
            x: slot.text_x,
            y: slot.text_y,
            style,
        };
        proof {
            display::lemma_drawings_push(ops@, op);
        }
        ops.push(op);
    }
    assert(display::drawings(ops@) =~= display::drawings(old(ops)@) + field_update(
        old(cache).text(),
        new_text@,
        slot,
        style,
    ));
    text::clear(cache);
    let _ = text::push_str(cache, new_text);
    assert(Seq::<char>::empty() + new_text@ =~= new_text@);
    assert(text::byte_len(Seq::<char>::empty()) == 0);
    true
}

/// A field never remembers a text for which it has no room, so that each time the text is to be
/// shown, the field is wiped and all of the text drawn.
pub proof fn text_without_room_is_drawn_every_time(
    shown: Seq<char>,
    wanted: Seq<char>,
    capacity: nat,
    slot: Slot,
    style: TextStyle,
)
    requires
        text::byte_len(shown) <= capacity,
        text::byte_len(wanted) > capacity,
    ensures
        field_update(shown, wanted, slot, style) == seq![
            display::Drawing::Fill { area: slot.clear, ink: Ink::On },
            display::Drawing::Text { text: wanted, x: slot.text_x, y: slot.text_y, style },
        ],
        remembered(wanted, capacity) == Seq::<char>::empty(),
        field_update(remembered(wanted, capacity), wanted, slot, style) == field_update(
            shown,
            wanted,
            slot,
            style,
        ),
{
    if wanted.len() == 0 {
        assert(text::byte_len(wanted) == 0);
    }
}

/// The field of the X axis.
pub open spec fn x_slot() -> Slot {
    slot_at(12, 44, 140, 12, 12, 52)
}

/// The field of the Y axis.
pub open spec fn y_slot() -> Slot {
    slot_at(12, 60, 140, 12, 12, 68)
}

/// The field of the Z axis.
pub open spec fn z_slot() -> Slot {
    slot_at(12, 76, 140, 12, 12, 84)
}

/// The field of the refresh count.
pub open spec fn refresh_slot() -> Slot {
    slot_at(320, 0, 80, 14, 324, 10)
}

/// The field of the LED timing.
pub open spec fn led_slot() -> Slot {
    slot_at(220, 182, 180, 12, 220, 190)
}

/// The field of the sensor timing.
pub open spec fn sensor_slot() -> Slot {
    slot_at(220, 194, 180, 12, 220, 202)
}

/// The field of the drawing timing.
pub open spec fn cpu_slot() -> Slot {
    slot_at(220, 206, 180, 12, 220, 214)
}

/// The field of the flush timing.
pub open spec fn flush_slot() -> Slot {
    slot_at(220, 218, 180, 12, 220, 226)
}

/// The field of the timing of a whole pass.
pub open spec fn pass_slot() -> Slot {
    slot_at(220, 230, 180, 10, 220, 238)
}

/// The field of the name of an error.
pub open spec fn message_slot() -> Slot {
    slot_at(12, 52, 200, 12, 12, 60)
}

/// The field of the detail of an error.
pub open spec fn detail_slot() -> Slot {
    slot_at(12, 68, 200, 12, 12, 76)
}

/// Lists are joined in any order of joining.
proof fn lemma_joined(
    a: Seq<display::Drawing>,
    b: Seq<display::Drawing>,
    c: Seq<display::Drawing>,
)
    ensures
        (a + b) + c == a + (b + c),
{
    assert((a + b) + c =~= a + (b + c));
}

/// What is drawn to bring the status fields up to date.
pub open spec fn overlay_drawings(
    screen: Screen,
    refresh_count: u32,
    timings: Timings,
) -> Seq<display::Drawing> {
    field_update(screen.refresh, text::refresh_line(refresh_count), refresh_slot(), body_style())
        + field_update(
        screen.led,
        text::timing_line("LED "@, timings.led_us),
        led_slot(),
        body_style(),
    ) + field_update(
        screen.sensor,
        text::timing_line("SNS "@, timings.sensor_us),
        sensor_slot(),
        body_style(),
    ) + field_update(
        screen.cpu,
        text::timing_line("CPU "@, timings.cpu_us),
        cpu_slot(),
        body_style(),
    ) + field_update(
        screen.flush,
        text::timing_line("FLU "@, timings.flush_us),
        flush_slot(),
        body_style(),
    ) + field_update(
        screen.pass,
        text::timing_line("LOP "@, timings.loop_us),
        pass_slot(),
        body_style(),
    )
}

/// The screen with its status fields up to date.
pub open spec fn with_overlay(screen: Screen, refresh_count: u32, timings: Timings) -> Screen {
    Screen {
        refresh: text::refresh_line(refresh_count),
        led: text::timing_line("LED "@, timings.led_us),
        sensor: text::timing_line("SNS "@, timings.sensor_us),
        cpu: text::timing_line("CPU "@, timings.cpu_us),
        flush: text::timing_line("FLU "@, timings.flush_us),
        pass: text::timing_line("LOP "@, timings.loop_us),
        ..screen
    }
}

proof fn lemma_overlay_lines_fit(refresh_count: u32, timings: Timings)
    ensures
        text::byte_len("LED "@) <= 12,
        text::byte_len("SNS "@) <= 12,
        text::byte_len("CPU "@) <= 12,
        text::byte_len("FLU "@) <= 12,
        text::byte_len("LOP "@) <= 12,
        text::byte_len(text::refresh_line(refresh_count)) <= 16,
        text::byte_len(text::timing_line("LED "@, timings.led_us)) <= 24,
        text::byte_len(text::timing_line("SNS "@, timings.sensor_us)) <= 24,
        text::byte_len(text::timing_line("CPU "@, timings.cpu_us)) <= 24,
        text::byte_len(text::timing_line("FLU "@, timings.flush_us)) <= 24,
        text::byte_len(text::timing_line("LOP "@, timings.loop_us)) <= 24,
{
    reveal_strlit("LED ");
    reveal_strlit("SNS ");
    reveal_strlit("CPU ");
    reveal_strlit("FLU ");
    reveal_strlit("LOP ");
    text::lemma_byte_len_ascii("LED "@);
    text::lemma_byte_len_ascii("SNS "@);
    text::lemma_byte_len_ascii("CPU "@);
    text::lemma_byte_len_ascii("FLU "@);
    text::lemma_byte_len_ascii("LOP "@);
    text::refresh_line_fits(refresh_count);
    text::timing_line_fits("LED "@, timings.led_us);
    text::timing_line_fits("SNS "@, timings.sensor_us);
    text::timing_line_fits("CPU "@, timings.cpu_us);
    text::timing_line_fits("FLU "@, timings.flush_us);
    text::timing_line_fits("LOP "@, timings.loop_us);
}

/// Brings the status fields up to date: the refresh count and the timings. Tells whether anything
/// has to be drawn for it.
#[verifier::spinoff_prover]
#[verifier::rlimit(40)]
pub fn draw_status_overlay(
    ops: &mut Vec<DrawOp>,
    ui_state: &mut UiState,
    refresh_count: u32,
    timings: Timings,
) -> (needs_flush: bool)
    ensures
        final(ui_state)@ == with_overlay(old(ui_state)@, refresh_count, timings),
        display::drawings(final(ops)@) == display::drawings(old(ops)@) + overlay_drawings(
            old(ui_state)@,
            refresh_count,
            timings,
        ),
        needs_flush == (overlay_drawings(old(ui_state)@, refresh_count, timings).len() > 0),
{
    let style = TextStyle { font: Font::Body, ink: Ink::Off };
    proof {
        lemma_overlay_lines_fit(refresh_count, timings);
    }
    let refresh_text = text::format_refresh_line(refresh_count);
    let led_text = text::format_timing_line("LED ", timings.led_us);
    let sensor_text = text::format_timing_line("SNS ", timings.sensor_us);
    let cpu_text = text::format_timing_line("CPU ", timings.cpu_us);
    let flush_text = text::format_timing_line("FLU ", timings.flush_us);
    let loop_text = text::format_timing_line("LOP ", timings.loop_us);

    let refresh_changed: bool = update_text_field(
        ops,
        &mut ui_state.refresh_text,
        text::as_str(&refresh_text),
        new_slot(320, 0, 80, 14, 324, 10),
        style,
    );
    let led_changed: bool = update_text_field(
        ops,
        &mut ui_state.led_text,
        text::as_str(&led_text),
        new_slot(220, 182, 180, 12, 220, 190),
        style,
    );
    let sensor_changed: bool = update_text_field(
        ops,
        &mut ui_state.sensor_text,
        text::as_str(&sensor_text),
        new_slot(220, 194, 180, 12, 220, 202),
        style,
    );
    let cpu_changed: bool = update_text_field(
        ops,
        &mut ui_state.cpu_text,
        text::as_str(&cpu_text),
        new_slot(220, 206, 180, 12, 220, 214),
        style,
    );
    let flush_changed: bool = update_text_field(
        ops,
        &mut ui_state.flush_text,
        text::as_str(&flush_text),
        new_slot(220, 218, 180, 12, 220, 226),
        style,
    );
    let loop_changed: bool = update_text_field(
        ops,
        &mut ui_state.loop_text,
        text::as_str(&loop_text),
        new_slot(220, 230, 180, 10, 220, 238),
        style,
    );
    proof {
        let (drawn, screen) = (display::drawings(old(ops)@), old(ui_state)@);
        let u1 = field_update(
            screen.refresh,
            text::refresh_line(refresh_count),
            refresh_slot(),
            style,
        );
        let u2 = field_update(
            screen.led,
            text::timing_line("LED "@, timings.led_us),
            led_slot(),
            style,
        );
        let u3 = field_update(
            screen.sensor,
            text::timing_line("SNS "@, timings.sensor_us),
            sensor_slot(),
            style,
        );
        let u4 = field_update(
            screen.cpu,
            text::timing_line("CPU "@, timings.cpu_us),
            cpu_slot(),
            style,
        );
        let u5 = field_update(
            screen.flush,
            text::timing_line("FLU "@, timings.flush_us),
            flush_slot(),
            style,
        );
        let u6 = field_update(
            screen.pass,
            text::timing_line("LOP "@, timings.loop_us),
            pass_slot(),
            style,
        );
        lemma_joined(drawn, u1, u2);
        lemma_joined(drawn, u1 + u2, u3);
        lemma_joined(drawn, u1 + u2 + u3, u4);
        lemma_joined(drawn, u1 + u2 + u3 + u4, u5);
        lemma_joined(drawn, u1 + u2 + u3 + u4 + u5, u6);
        assert(u1 + u2 + u3 + u4 + u5 + u6 == overlay_drawings(screen, refresh_count, timings));
        assert(ui_state@ =~= with_overlay(screen, refresh_count, timings));
    }
    refresh_changed || led_changed || sensor_changed || cpu_changed || flush_changed || loop_changed
}

/// What is drawn to put up the screen of a mode, before its fields: the title and a caption on a
/// cleared display.
pub open spec fn screen_drawings(mode: ScreenMode) -> Seq<display::Drawing> {
    seq![
        display::Drawing::ClearBuffer,
        display::Drawing::Text { text: "SCL3300"@, x: 12, y: 20, style: title_style() },
        match mode {
            ScreenMode::Angles => display::Drawing::Text {
                text: "angles in deg"@,
                x: 12,
                y: 108,
                style: body_style(),
            },
            ScreenMode::Error => display::Drawing::Text {
                text: "sensor error"@,
                x: 12,
                y: 44,
                style: body_style(),
            },
        },
    ]
}

/// Adds a line of fixed text to what is to be drawn.
fn draw_caption(ops: &mut Vec<DrawOp>, caption: &str, x: i32, y: i32, style: TextStyle)
    ensures
        display::drawings(final(ops)@) == display::drawings(old(ops)@).push(
            (display::Drawing::Text { text: caption@, x, y, style }),
        ),
{
    let op = DrawOp::Text { text: caption.to_owned(), x, y, style };
    proof {
        display::lemma_drawings_push(ops@, op);
    }
    ops.push(op);
}

/// Puts up the screen of the angles; all its fields are to be drawn anew.
pub fn prepare_angle_screen(ops: &mut Vec<DrawOp>, ui_state: &mut UiState)
    ensures
        final(ui_state)@ == blank_screen(Some(ScreenMode::Angles), old(ui_state)@.last_flush_at),
        display::drawings(final(ops)@) == display::drawings(old(ops)@) + screen_drawings(
            ScreenMode::Angles,
        ),
{
    proof {
        display::lemma_drawings_push(ops@, DrawOp::ClearBuffer);
    }
    ops.push(DrawOp::ClearBuffer);
    ui_state.screen_mode = Some(ScreenMode::Angles);
    ui_state.invalidate_dynamic_fields();
    draw_caption(ops, "SCL3300", 12, 20, TextStyle { font: Font::Title, ink: Ink::Off });
    draw_caption(ops, "angles in deg", 12, 108, TextStyle { font: Font::Body, ink: Ink::Off });
    assert(display::drawings(ops@) =~= display::drawings(old(ops)@) + screen_drawings(
        ScreenMode::Angles,
    ));
}

/// Puts up the screen of the errors; all its fields are to be drawn anew.
pub fn prepare_error_screen(ops: &mut Vec<DrawOp>, ui_state: &mut UiState)
    ensures
        final(ui_state)@ == blank_screen(Some(ScreenMode::Error), old(ui_state)@.last_flush_at),
        display::drawings(final(ops)@) == display::drawings(old(ops)@) + screen_drawings(
            ScreenMode::Error,
        ),
{
    proof {
        display::lemma_drawings_push(ops@, DrawOp::ClearBuffer);
    }
    ops.push(DrawOp::ClearBuffer);
    ui_state.screen_mode = Some(ScreenMode::Error);
    ui_state.invalidate_dynamic_fields();
    draw_caption(ops, "SCL3300", 12, 20, TextStyle { font: Font::Title, ink: Ink::Off });
    draw_caption(ops, "sensor error", 12, 44, TextStyle { font: Font::Body, ink: Ink::Off });
    assert(display::drawings(ops@) =~= display::drawings(old(ops)@) + screen_drawings(
        ScreenMode::Error,
    ));
}

/// What is drawn to bring the fields of the angle screen up to date.
pub open spec fn angle_drawings(
    screen: Screen,
    readings: AngleReadings,
    refresh_count: u32,
    timings: Timings,
) -> Seq<display::Drawing> {
    field_update(screen.x, text::axis_line('X', readings.x_raw as int), x_slot(), body_style())
        + field_update(
        screen.y,
        text::axis_line('Y', readings.y_raw as int),
        y_slot(),
        body_style(),
    ) + field_update(
        screen.z,
        text::axis_line('Z', readings.z_raw as int),
        z_slot(),
        body_style(),
    ) + overlay_drawings(screen, refresh_count, timings)
}

/// The angle screen with its fields up to date.
pub open spec fn with_angles(
    screen: Screen,
    readings: AngleReadings,
    refresh_count: u32,
    timings: Timings,
) -> Screen {
    with_overlay(
        Screen {
            x: text::axis_line('X', readings.x_raw as int),
            y: text::axis_line('Y', readings.y_raw as int),
            z: text::axis_line('Z', readings.z_raw as int),
            ..screen
        },
        refresh_count,
        timings,
    )
}

/// Brings the fields of the angle screen up to date. Tells whether anything has to be drawn for
/// it.
#[verifier::spinoff_prover]
#[verifier::rlimit(40)]
pub fn draw_angle_screen(
    ops: &mut Vec<DrawOp>,
    ui_state: &mut UiState,
    readings: AngleReadings,
    refresh_count: u32,
    timings: Timings,
) -> (needs_flush: bool)
    ensures
        final(ui_state)@ == with_angles(old(ui_state)@, readings, refresh_count, timings),
        display::drawings(final(ops)@) == display::drawings(old(ops)@) + angle_drawings(
            old(ui_state)@,
            readings,
            refresh_count,
            timings,
        ),
        needs_flush == (angle_drawings(old(ui_state)@, readings, refresh_count, timings).len() > 0),
{
    let style = TextStyle { font: Font::Body, ink: Ink::Off };
    let x_line = text::format_axis_line('X', readings.x_raw);
    let y_line = text::format_axis_line('Y', readings.y_raw);
    let z_line = text::format_axis_line('Z', readings.z_raw);
    proof {
        text::axis_line_fits('X', readings.x_raw);
        text::axis_line_fits('Y', readings.y_raw);
        text::axis_line_fits('Z', readings.z_raw);
    }
    let x_changed: bool = update_text_field(
        ops,
        &mut ui_state.x_text,
        text::as_str(&x_line),
        new_slot(12, 44, 140, 12, 12, 52),
        style,
    );
    let y_changed: bool = update_text_field(
        ops,
        &mut ui_state.y_text,
        text::as_str(&y_line),
        new_slot(12, 60, 140, 12, 12, 68),
        style,
    );
    let z_changed: bool = update_text_field(
        ops,
        &mut ui_state.z_text,
        text::as_str(&z_line),
        new_slot(12, 76, 140, 12, 12, 84),
        style,
    );
    let ghost between = ui_state@;
    let overlay_changed: bool = draw_status_overlay(ops, ui_state, refresh_count, timings);
    proof {
        assert(overlay_drawings(between, refresh_count, timings) == overlay_drawings(
            old(ui_state)@,
            refresh_count,
            timings,
        ));
        let (drawn, screen) = (display::drawings(old(ops)@), old(ui_state)@);
        let u1 = field_update(screen.x, x_line.text(), x_slot(), style);
        let u2 = field_update(screen.y, y_line.text(), y_slot(), style);
        let u3 = field_update(screen.z, z_line.text(), z_slot(), style);
        lemma_joined(drawn, u1, u2);
        lemma_joined(drawn, u1 + u2, u3);
        lemma_joined(drawn, u1 + u2 + u3, overlay_drawings(screen, refresh_count, timings));
        assert(ui_state@ =~= with_angles(old(ui_state)@, readings, refresh_count, timings));
    }
    x_changed || y_changed || z_changed || overlay_changed
}

/// What is drawn to bring the fields of the error screen up to date.
pub open spec fn error_drawings(
    screen: Screen,
    error: SensorError,
    refresh_count: u32,
    timings: Timings,
) -> Seq<display::Drawing> {
    field_update(screen.message, text::error_message(error), message_slot(), body_style())
        + field_update(screen.detail, text::error_detail(error), detail_slot(), body_style())
        + overlay_drawings(screen, refresh_count, timings)
}

/// The error screen with its fields up to date.
pub open spec fn with_error(
    screen: Screen,
    error: SensorError,
    refresh_count: u32,
    timings: Timings,
) -> Screen {
    with_overlay(
        Screen {
            message: text::error_message(error),
            detail: text::error_detail(error),
            ..screen
        },
        refresh_count,
        timings,
    )
}

/// Brings the fields of the error screen up to date. Tells whether anything has to be drawn for
/// it.
#[verifier::spinoff_prover]
#[verifier::rlimit(40)]
pub fn draw_sensor_error(
    ops: &mut Vec<DrawOp>,
    ui_state: &mut UiState,
    error: SensorError,
    refresh_count: u32,
    timings: Timings,
) -> (needs_flush: bool)
    ensures
        final(ui_state)@ == with_error(old(ui_state)@, error, refresh_count, timings),
        display::drawings(final(ops)@) == display::drawings(old(ops)@) + error_drawings(
            old(ui_state)@,
            error,
            refresh_count,
            timings,
        ),
        needs_flush == (error_drawings(old(ui_state)@, error, refresh_count, timings).len() > 0),
{
    let style = TextStyle { font: Font::Body, ink: Ink::Off };
    let (message, detail) = text::format_sensor_error(error);
    proof {
        text::error_lines_fit(error);
    }
    let message_changed: bool = update_text_field(
        ops,
        &mut ui_state.error_message,
        message,
        new_slot(12, 52, 200, 12, 12, 60),
        style,
    );
    let detail_changed: bool = update_text_field(
        ops,
        &mut ui_state.error_detail,
        text::as_str(&detail),
        new_slot(12, 68, 200, 12, 12, 76),
        style,
    );
    let ghost between = ui_state@;
    let overlay_changed: bool = draw_status_overlay(ops, ui_state, refresh_count, timings);
    proof {
        assert(overlay_drawings(between, refresh_count, timings) == overlay_drawings(
            old(ui_state)@,
            refresh_count,
            timings,
        ));
        let (drawn, screen) = (display::drawings(old(ops)@), old(ui_state)@);
        let u1 = field_update(screen.message, message@, message_slot(), style);
        let u2 = field_update(screen.detail, detail.text(), detail_slot(), style);
        lemma_joined(drawn, u1, u2);
        lemma_joined(drawn, u1 + u2, overlay_drawings(screen, refresh_count, timings));
        assert(ui_state@ =~= with_error(old(ui_state)@, error, refresh_count, timings));
    }
    message_changed || detail_changed || overlay_changed
}

/// The mode that shows an outcome.
pub open spec fn mode_for(outcome: Result<AngleReadings, SensorError>) -> ScreenMode {
    match outcome {
        Ok(_) => ScreenMode::Angles,
        Err(_) => ScreenMode::Error,
    }
}

/// The screen on which an outcome is drawn: the one that is up if it has the right mode, and else
/// a new one.
pub open spec fn prepared_screen(
    screen: Screen,
    outcome: Result<AngleReadings, SensorError>,
) -> Screen {
    if screen.mode == Some(mode_for(outcome)) {
        screen
    } else {
        blank_screen(Some(mode_for(outcome)), screen.last_flush_at)
    }
}

/// What is drawn into the fields to show an outcome on a screen of the right mode.
pub open spec fn outcome_drawings(
    screen: Screen,
    outcome: Result<AngleReadings, SensorError>,
    refresh_count: u32,
    timings: Timings,
) -> Seq<display::Drawing> {
    match outcome {
        Ok(readings) => angle_drawings(screen, readings, refresh_count, timings),
        Err(error) => error_drawings(screen, error, refresh_count, timings),
    }
}

/// What is drawn to show an outcome, from whatever screen is up.
pub open spec fn render_drawings(
    screen: Screen,
    outcome: Result<AngleReadings, SensorError>,
    refresh_count: u32,
    timings: Timings,
) -> Seq<display::Drawing> {
    (if screen.mode == Some(mode_for(outcome)) {
        Seq::empty()
    } else {
        screen_drawings(mode_for(outcome))
    }) + outcome_drawings(prepared_screen(screen, outcome), outcome, refresh_count, timings)
}

/// The screen that shows an outcome, from whatever screen is up.
pub open spec fn rendered_screen(
    screen: Screen,
    outcome: Result<AngleReadings, SensorError>,
    refresh_count: u32,
    timings: Timings,
) -> Screen {
    match outcome {
        Ok(readings) => with_angles(
            prepared_screen(screen, outcome),
            readings,
            refresh_count,
            timings,
        ),
        Err(error) => with_error(prepared_screen(screen, outcome), error, refresh_count, timings),
    }
}

/// Shows the outcome of a reading: puts up the screen for it if another is up, and brings its
/// fields up to date. Tells whether any of the fields has to be drawn for it.
pub fn render(
    ops: &mut Vec<DrawOp>,
    ui_state: &mut UiState,
    outcome: Result<AngleReadings, SensorError>,
    refresh_count: u32,
    timings: Timings,
) -> (needs_flush: bool)
    ensures
        final(ui_state)@ == rendered_screen(old(ui_state)@, outcome, refresh_count, timings),
        display::drawings(final(ops)@) == display::drawings(old(ops)@) + render_drawings(
            old(ui_state)@,
            outcome,
            refresh_count,
            timings,
        ),
        needs_flush == (outcome_drawings(
            prepared_screen(old(ui_state)@, outcome),
            outcome,
            refresh_count,
            timings,
        ).len() > 0),
{
    let needs_flush: bool = match outcome {
        Ok(readings) => {
            match ui_state.screen_mode {
                Some(ScreenMode::Angles) => {},
                _ => {
                    prepare_angle_screen(ops, ui_state);
                },
            }
            draw_angle_screen(ops, ui_state, readings, refresh_count, timings)
        },
        Err(error) => {
            match ui_state.screen_mode {
                Some(ScreenMode::Error) => {},
                _ => {
                    prepare_error_screen(ops, ui_state);
                },
            }
            draw_sensor_error(ops, ui_state, error, refresh_count, timings)
        },
    };
    assert(display::drawings(ops@) =~= display::drawings(old(ops)@) + render_drawings(
        old(ui_state)@,
        outcome,
        refresh_count,
        timings,
    ));
    needs_flush
}

/// What the display needs after a pass.
#[derive(Clone, Copy, Debug, PartialEq, Eq, Structural)]
pub enum Service {
    /// The changed lines have to be sent to it.
    Flush,
    /// It has to be told that it is still looked after.
    KeepAlive,
    /// Nothing.
    Leave,
}

/// For how long the display may be left alone, in milliseconds.
pub const KEEPALIVE_MS: u64 = 500;

/// What the display needs after a pass: a flush if something was drawn, and else a sign of life
/// if it was not served for long.
pub open spec fn service_needed(screen: Screen, needs_flush: bool, now: u64) -> Service {
    if needs_flush {
        Service::Flush
    } else if now - screen.last_flush_at >= clock::ticks_in(KEEPALIVE_MS as int) {
        Service::KeepAlive
    } else {
        Service::Leave
    }
}

/// Decides what the display needs after a pass.
pub fn flush_or_keepalive(ui_state: &UiState, needs_flush: bool, now: u64) -> (service: Service)
    requires
        !needs_flush ==> ui_state@.last_flush_at <= now,
    ensures
        service == service_needed(ui_state@, needs_flush, now),
{
    if needs_flush {
        Service::Flush
    } else if clock::has_passed(ui_state.last_flush_at, now, KEEPALIVE_MS) {
        Service::KeepAlive
    } else {
        Service::Leave
    }
}

/// An outcome that is already shown, with the same count and timings, takes no drawing, and
/// showing it again changes nothing.
pub proof fn repeated_rendering_draws_nothing(
    screen: Screen,
    outcome: Result<AngleReadings, SensorError>,
    refresh_count: u32,
    timings: Timings,
)
    ensures
        ({
            let shown = rendered_screen(screen, outcome, refresh_count, timings);
            &&& render_drawings(shown, outcome, refresh_count, timings) =~= Seq::empty()
            &&& rendered_screen(shown, outcome, refresh_count, timings) =~= shown
        }),
{
}

/// A pass asks for a flush exactly if it draws anything; in particular, a screen that is put up
/// always gets to the display.
pub proof fn whatever_is_drawn_is_flushed(
    screen: Screen,
    outcome: Result<AngleReadings, SensorError>,
    refresh_count: u32,
    timings: Timings,
)
    ensures
        outcome_drawings(
            prepared_screen(screen, outcome),
            outcome,
            refresh_count,
            timings,
        ).len() > 0 <==> render_drawings(screen, outcome, refresh_count, timings).len() > 0,
        screen.mode != Some(mode_for(outcome)) ==> render_drawings(
            screen,
            outcome,
            refresh_count,
            timings,
        ).len() > 3,
{
    match outcome {
        Ok(readings) => {
            text::axis_line_fits('X', readings.x_raw);
        },
        Err(error) => {
            text::error_lines_fit(error);
        },
    }
}

/// As each pass counts up, each pass draws at least the refresh count, whatever it shows
/// otherwise.
pub proof fn every_pass_draws(
    screen: Screen,
    before: Result<AngleReadings, SensorError>,
    after: Result<AngleReadings, SensorError>,
    refresh_count: u32,
    timings_before: Timings,
    timings_after: Timings,
)
    ensures
        render_drawings(
            rendered_screen(screen, before, refresh_count, timings_before),
            after,
            refresh_count.wrapping_add(1),
            timings_after,
        ).len() > 0,
{
    let shown = rendered_screen(screen, before, refresh_count, timings_before);
    let next = refresh_count.wrapping_add(1);
    text::refresh_line_counts_to_100000(refresh_count, next);
    assert(refresh_count % 100_000 != next % 100_000);
    whatever_is_drawn_is_flushed(shown, after, next, timings_after);
    assert(shown.refresh == text::refresh_line(refresh_count));
}

/// The fields of the screen of a mode.
pub open spec fn slots(mode: ScreenMode) -> Seq<Slot> {
    (match mode {
        ScreenMode::Angles => seq![x_slot(), y_slot(), z_slot()],
        ScreenMode::Error => seq![message_slot(), detail_slot()],
    }) + seq![refresh_slot(), led_slot(), sensor_slot(), cpu_slot(), flush_slot(), pass_slot()]
}

/// The fields of a screen lie on the display, and the areas of two of them share no pixel, so that
/// wiping one leaves the others as they are.
pub proof fn fields_are_apart(mode: ScreenMode, i: int, j: int, x: int, y: int)
    requires
        0 <= i < slots(mode).len(),
        0 <= j < slots(mode).len(),
    ensures
        slots(mode)[i].clear.covers(x, y) ==> 0 <= x < display::DISPLAY_WIDTH && 0 <= y
            < display::DISPLAY_HEIGHT,
        slots(mode)[i].clear.covers(x, y) && slots(mode)[j].clear.covers(x, y) ==> i == j,
{
}

/// If a line of the field takes in the pixel of the display, the area of the field does so too.
pub open spec fn stays_in(slot: Slot, line: Seq<char>, x: int, y: int) -> bool {
    y < display::DISPLAY_HEIGHT && display::line_covers(
        Font::Body,
        slot.text_x as int,
        slot.text_y as int,
        line.len(),
        x,
        y,
    ) ==> slot.clear.covers(x, y)
}

/// On the display no line reaches beyond the area that is wiped before its field is drawn anew, to
/// no side. (The lowest field lies at the lower edge: the last row of its characters falls below
/// the display.)
pub proof fn lines_stay_in_their_fields(
    readings: AngleReadings,
    error: SensorError,
    refresh_count: u32,
    micros: u32,
    x: int,
    y: int,
)
    ensures
        stays_in(x_slot(), text::axis_line('X', readings.x_raw as int), x, y),
        stays_in(y_slot(), text::axis_line('Y', readings.y_raw as int), x, y),
        stays_in(z_slot(), text::axis_line('Z', readings.z_raw as int), x, y),
        stays_in(message_slot(), text::error_message(error), x, y),
        stays_in(detail_slot(), text::error_detail(error), x, y),
        stays_in(refresh_slot(), text::refresh_line(refresh_count), x, y),
        stays_in(led_slot(), text::timing_line("LED "@, micros), x, y),
        stays_in(sensor_slot(), text::timing_line("SNS "@, micros), x, y),
        stays_in(cpu_slot(), text::timing_line("CPU "@, micros), x, y),
        stays_in(flush_slot(), text::timing_line("FLU "@, micros), x, y),
        stays_in(pass_slot(), text::timing_line("LOP "@, micros), x, y),
{
    text::axis_line_fits('X', readings.x_raw);
    text::axis_line_fits('Y', readings.y_raw);
    text::axis_line_fits('Z', readings.z_raw);
    text::error_lines_fit(error);
    text::refresh_line_fits(refresh_count);
    lemma_overlay_lines_fit(
        refresh_count,
        Timings {
            led_us: micros,
            sensor_us: micros,
            cpu_us: micros,
            flush_us: micros,
            loop_us: micros,
        },
    );
    reveal_strlit("LED ");
    reveal_strlit("SNS ");
    reveal_strlit("CPU ");
    reveal_strlit("FLU ");
    reveal_strlit("LOP ");
    text::timing_line_fits("LED "@, micros);
    text::timing_line_fits("SNS "@, micros);
    text::timing_line_fits("CPU "@, micros);
    text::timing_line_fits("FLU "@, micros);
    text::timing_line_fits("LOP "@, micros);
}

/// The title or the caption of the screen of a mode takes in the pixel.
pub open spec fn captions_cover(mode: ScreenMode, x: int, y: int) -> bool {
    exists|i: int|
        0 <= i < screen_drawings(mode).len() && match #[trigger] screen_drawings(mode)[i] {
            display::Drawing::Text { text, x: text_x, y: text_y, style } => display::line_covers(
                style.font,
                text_x as int,
                text_y as int,
                text.len(),
                x,
                y,
            ),
            _ => false,
        }
}

/// The title and the caption of a screen lie on the display and outside of all its fields, so that
/// they stay as they are while the screen is up.
pub proof fn captions_are_never_wiped(mode: ScreenMode, i: int, x: int, y: int)
    requires
        0 <= i < slots(mode).len(),
        captions_cover(mode, x, y),
    ensures
        0 <= x < display::DISPLAY_WIDTH && 0 <= y < display::DISPLAY_HEIGHT,
        !slots(mode)[i].clear.covers(x, y),
{
    reveal_strlit("SCL3300");
    reveal_strlit("angles in deg");
    reveal_strlit("sensor error");
}

/// What is seen of the state is what its fields hold, each under its own name.
pub proof fn state_is_seen_as_it_is(ui_state: UiState)
    ensures
        ui_state@.mode == ui_state.screen_mode,
        ui_state@.last_flush_at == ui_state.last_flush_at,
        ui_state@.x == text::contents_32(ui_state.x_text),
        ui_state@.y == text::contents_32(ui_state.y_text),
        ui_state@.z == text::contents_32(ui_state.z_text),
        ui_state@.refresh == text::contents_16(ui_state.refresh_text),
        ui_state@.led == text::contents_24(ui_state.led_text),
        ui_state@.sensor == text::contents_24(ui_state.sensor_text),
        ui_state@.cpu == text::contents_24(ui_state.cpu_text),
        ui_state@.flush == text::contents_24(ui_state.flush_text),
        ui_state@.pass == text::contents_24(ui_state.loop_text),
        ui_state@.message == text::contents_32(ui_state.error_message),
        ui_state@.detail == text::contents_32(ui_state.error_detail),
{
}

/// A blank screen shows nothing in any field, of whichever mode.
pub proof fn blank_screen_shows_nothing(
    mode: Option<ScreenMode>,
    last_flush_at: u64,
    of: ScreenMode,
    i: int,
)
    requires
        0 <= i < field_lines(blank_screen(mode, last_flush_at), of).len(),
    ensures
        blank_screen(mode, last_flush_at).mode == mode,
        blank_screen(mode, last_flush_at).last_flush_at == last_flush_at,
        field_lines(blank_screen(mode, last_flush_at), of)[i].len() == 0,
{
}

/// The lines in the fields of the screen of a mode, in the order of its fields.
pub open spec fn field_lines(screen: Screen, mode: ScreenMode) -> Seq<Seq<char>> {
    (match mode {
        ScreenMode::Angles => seq![screen.x, screen.y, screen.z],
        ScreenMode::Error => seq![screen.message, screen.detail],
    }) + seq![screen.refresh, screen.led, screen.sensor, screen.cpu, screen.flush, screen.pass]
}

/// A field is left alone if it shows the wanted line, and else wiped with the ink of the cleared
/// display, and the line, if there is any, drawn at the start of the field as it is asked for.
pub proof fn field_is_wiped_and_drawn(
    shown: Seq<char>,
    wanted: Seq<char>,
    slot: Slot,
    style: TextStyle,
)
    ensures
        shown == wanted ==> field_update(shown, wanted, slot, style).len() == 0,
        shown != wanted && wanted.len() == 0 ==> field_update(shown, wanted, slot, style) == seq![
            display::Drawing::Fill { area: slot.clear, ink: Ink::On },
        ],
        shown != wanted && wanted.len() > 0 ==> field_update(shown, wanted, slot, style) == seq![
            display::Drawing::Fill { area: slot.clear, ink: Ink::On },
            display::Drawing::Text { text: wanted, x: slot.text_x, y: slot.text_y, style },
        ],
{
}

/// A field with room for so many bytes remembers a text of no more bytes as it is, and nothing of
/// another.
pub proof fn field_remembers_what_fits(drawn: Seq<char>, capacity: nat)
    ensures
        vstd::utf8::encode_utf8(drawn).len() <= capacity ==> remembered(drawn, capacity) == drawn,
        vstd::utf8::encode_utf8(drawn).len() > capacity ==> remembered(drawn, capacity).len() == 0,
{
}

/// What there is to draw where the lines of fields change: for each line that differs, in order, the
/// area of its field is filled as on the cleared display, and the new line, if there is any, drawn
/// there in the body font and in the other ink.
pub open spec fn differences(
    before: Seq<Seq<char>>,
    after: Seq<Seq<char>>,
    fields: Seq<Slot>,
) -> Seq<display::Drawing>
    decreases fields.len(),
{
    if fields.len() == 0 {
        Seq::empty()
    } else {
        let slot = fields.last();
        let line = after[fields.len() - 1];
        differences(before, after, fields.drop_last()) + (if before[fields.len() - 1] == line {
            Seq::empty()
        } else if line.len() == 0 {
            seq![display::Drawing::Fill { area: slot.clear, ink: Ink::On }]
        } else {
            seq![
                display::Drawing::Fill { area: slot.clear, ink: Ink::On },
                display::Drawing::Text {
                    text: line,
                    x: slot.text_x,
                    y: slot.text_y,
                    style: TextStyle { font: Font::Body, ink: Ink::Off },
                },
            ]
        })
    }
}

proof fn lemma_one_more_field(
    before: Seq<Seq<char>>,
    after: Seq<Seq<char>>,
    fields: Seq<Slot>,
    n: int,
)
    requires
        0 <= n < fields.len(),
        fields.len() == before.len(),
        fields.len() == after.len(),
    ensures
        differences(before, after, fields.take(n + 1)) == differences(before, after, fields.take(n))
            + field_update(
            before[n],
            after[n],
            fields[n],
            TextStyle { font: Font::Body, ink: Ink::Off },
        ),
{
    assert(fields.take(n + 1).drop_last() =~= fields.take(n));
    assert(fields.take(n + 1).last() == fields[n]);
    field_is_wiped_and_drawn(
        before[n],
        after[n],
        fields[n],
        TextStyle { font: Font::Body, ink: Ink::Off },
    );
}

/// On a screen of the right mode a pass draws the lines that differ from what the screen shows, and
/// nothing else.
#[verifier::spinoff_prover]
#[verifier::rlimit(60)]
pub proof fn pass_draws_the_differences(
    screen: Screen,
    outcome: Result<AngleReadings, SensorError>,
    refresh_count: u32,
    timings: Timings,
)
    requires
        screen.mode == Some(mode_for(outcome)),
    ensures
        outcome_drawings(screen, outcome, refresh_count, timings) == differences(
            field_lines(screen, mode_for(outcome)),
            field_lines(
                rendered_screen(screen, outcome, refresh_count, timings),
                mode_for(outcome),
            ),
            slots(mode_for(outcome)),
        ),
{
    let mode = mode_for(outcome);
    let then = rendered_screen(screen, outcome, refresh_count, timings);
    let (before, after, fields) = (field_lines(screen, mode), field_lines(then, mode), slots(mode));
    let style = TextStyle { font: Font::Body, ink: Ink::Off };
    let k = fields.len() - 6;
    let o1 = field_update(screen.refresh, then.refresh, refresh_slot(), style);
    let o2 = field_update(screen.led, then.led, led_slot(), style);
    let o3 = field_update(screen.sensor, then.sensor, sensor_slot(), style);
    let o4 = field_update(screen.cpu, then.cpu, cpu_slot(), style);
    let o5 = field_update(screen.flush, then.flush, flush_slot(), style);
    let o6 = field_update(screen.pass, then.pass, pass_slot(), style);
    let own = differences(before, after, fields.take(k));
    assert(overlay_drawings(screen, refresh_count, timings) == o1 + o2 + o3 + o4 + o5 + o6);
    lemma_one_more_field(before, after, fields, 0);
    lemma_one_more_field(before, after, fields, 1);
    assert(fields.take(0).len() == 0);
    match outcome {
        Ok(readings) => {
            lemma_one_more_field(before, after, fields, 2);
            let u1 = field_update(screen.x, then.x, x_slot(), style);
            let u2 = field_update(screen.y, then.y, y_slot(), style);
            let u3 = field_update(screen.z, then.z, z_slot(), style);
            assert(Seq::<display::Drawing>::empty() + u1 =~= u1);
            assert(own == u1 + u2 + u3);
            assert(angle_drawings(screen, readings, refresh_count, timings) == own + (o1 + o2 + o3
                + o4 + o5 + o6));
        },
        Err(error) => {
            let u1 = field_update(screen.message, then.message, message_slot(), style);
            let u2 = field_update(screen.detail, then.detail, detail_slot(), style);
            assert(Seq::<display::Drawing>::empty() + u1 =~= u1);
            assert(own == u1 + u2);
            assert(error_drawings(screen, error, refresh_count, timings) == own + (o1 + o2 + o3 + o4
                + o5 + o6));
        },
    }
    lemma_one_more_field(before, after, fields, k);
    lemma_one_more_field(before, after, fields, k + 1);
    lemma_one_more_field(before, after, fields, k + 2);
    lemma_one_more_field(before, after, fields, k + 3);
    lemma_one_more_field(before, after, fields, k + 4);
    lemma_one_more_field(before, after, fields, k + 5);
    lemma_joined(own, o1, o2);
    lemma_joined(own, o1 + o2, o3);
    lemma_joined(own, o1 + o2 + o3, o4);
    lemma_joined(own, o1 + o2 + o3 + o4, o5);
    lemma_joined(own, o1 + o2 + o3 + o4 + o5, o6);
    assert(fields.take(k + 6) =~= fields);
}

/// A thing that is drawn into a field can be read there: areas are filled as on the cleared display,
/// and text is in the body font and in the other ink.
pub open spec fn can_be_read(drawing: display::Drawing) -> bool {
    match drawing {
        display::Drawing::Fill { ink, .. } => ink == Ink::On,
        display::Drawing::Text { style, .. } => style.font == Font::Body && style.ink == Ink::Off,
        _ => false,
    }
}

proof fn lemma_differences_can_be_read(
    before: Seq<Seq<char>>,
    after: Seq<Seq<char>>,
    fields: Seq<Slot>,
)
    ensures
        forall|i: int|
            0 <= i < differences(before, after, fields).len() ==> can_be_read(
                #[trigger] differences(before, after, fields)[i],
            ),
    decreases fields.len(),
{
    if fields.len() > 0 {
        let rest = differences(before, after, fields.drop_last());
        let all = differences(before, after, fields);
        lemma_differences_can_be_read(before, after, fields.drop_last());
        assert forall|i: int| 0 <= i < all.len() implies can_be_read(#[trigger] all[i]) by {
            if i < rest.len() {
                assert(all[i] == rest[i]);
            }
        }
    }
}

/// Whatever a pass draws into the fields can be read: no text is drawn in the ink of its ground.
pub proof fn every_line_can_be_read(
    screen: Screen,
    outcome: Result<AngleReadings, SensorError>,
    refresh_count: u32,
    timings: Timings,
    i: int,
)
    requires
        screen.mode == Some(mode_for(outcome)),
        0 <= i < outcome_drawings(screen, outcome, refresh_count, timings).len(),
    ensures
        can_be_read(outcome_drawings(screen, outcome, refresh_count, timings)[i]),
{
    let mode = mode_for(outcome);
    let then = rendered_screen(screen, outcome, refresh_count, timings);
    pass_draws_the_differences(screen, outcome, refresh_count, timings);
    lemma_differences_can_be_read(field_lines(screen, mode), field_lines(then, mode), slots(mode));
}

/// Showing an outcome puts up the screen for it first if another is up, on a cleared display, with
/// the title and a caption in the ink that can be read there, and draws the lines of its fields as on
/// a screen that shows nothing yet; if it is up already, only the lines that differ are drawn.
pub proof fn rendering_in_full(
    screen: Screen,
    outcome: Result<AngleReadings, SensorError>,
    refresh_count: u32,
    timings: Timings,
)
    ensures
        screen.mode == Some(mode_for(outcome)) ==> render_drawings(
            screen,
            outcome,
            refresh_count,
            timings,
        ) == differences(
            field_lines(screen, mode_for(outcome)),
            field_lines(
                rendered_screen(screen, outcome, refresh_count, timings),
                mode_for(outcome),
            ),
            slots(mode_for(outcome)),
        ),
        screen.mode != Some(mode_for(outcome)) ==> render_drawings(
            screen,
            outcome,
            refresh_count,
            timings,
        ) == screen_drawings(mode_for(outcome)) + differences(
            Seq::new(slots(mode_for(outcome)).len(), |i: int| Seq::empty()),
            field_lines(
                rendered_screen(screen, outcome, refresh_count, timings),
                mode_for(outcome),
            ),
            slots(mode_for(outcome)),
        ),
        mode_for(outcome) == (if outcome is Ok {
            ScreenMode::Angles
        } else {
            ScreenMode::Error
        }),
{
    let mode = mode_for(outcome);
    let prepared = prepared_screen(screen, outcome);
    pass_draws_the_differences(prepared, outcome, refresh_count, timings);
    let fields = outcome_drawings(prepared, outcome, refresh_count, timings);
    assert(rendered_screen(prepared, outcome, refresh_count, timings) == rendered_screen(
        screen,
        outcome,
        refresh_count,
        timings,
    ));
    if screen.mode == Some(mode) {
        assert(Seq::empty() + fields =~= fields);
    } else {
        assert(field_lines(prepared, mode) =~= Seq::new(slots(mode).len(), |i: int| Seq::empty()));
    }
}

/// A screen is put up by clearing the display and drawing the title and the caption of its mode on
/// it.
pub proof fn screens_are_put_up_in_full(mode: ScreenMode)
    ensures
        screen_drawings(mode).len() == 3,
        screen_drawings(mode)[0] is ClearBuffer,
        screen_drawings(mode)[1] == (display::Drawing::Text {
            text: "SCL3300"@,
            x: 12,
            y: 20,
            style: TextStyle { font: Font::Title, ink: Ink::Off },
        }),
        mode is Angles ==> screen_drawings(mode)[2] == (display::Drawing::Text {
            text: "angles in deg"@,
            x: 12,
            y: 108,
            style: TextStyle { font: Font::Body, ink: Ink::Off },
        }),
        mode is Error ==> screen_drawings(mode)[2] == (display::Drawing::Text {
            text: "sensor error"@,
            x: 12,
            y: 44,
            style: TextStyle { font: Font::Body, ink: Ink::Off },
        }),
{
}

/// The place of every field, by its number on the screen of its mode.
pub proof fn fields_have_their_places(mode: ScreenMode)
    ensures
        slots(ScreenMode::Angles).len() == 9,
        slots(ScreenMode::Error).len() == 8,
        slots(ScreenMode::Angles)[0] == slot_at(12, 44, 140, 12, 12, 52),
        slots(ScreenMode::Angles)[1] == slot_at(12, 60, 140, 12, 12, 68),
        slots(ScreenMode::Angles)[2] == slot_at(12, 76, 140, 12, 12, 84),
        slots(ScreenMode::Error)[0] == slot_at(12, 52, 200, 12, 12, 60),
        slots(ScreenMode::Error)[1] == slot_at(12, 68, 200, 12, 12, 76),
        slots(mode)[slots(mode).len() - 6] == slot_at(320, 0, 80, 14, 324, 10),
        slots(mode)[slots(mode).len() - 5] == slot_at(220, 182, 180, 12, 220, 190),
        slots(mode)[slots(mode).len() - 4] == slot_at(220, 194, 180, 12, 220, 202),
        slots(mode)[slots(mode).len() - 3] == slot_at(220, 206, 180, 12, 220, 214),
        slots(mode)[slots(mode).len() - 2] == slot_at(220, 218, 180, 12, 220, 226),
        slots(mode)[slots(mode).len() - 1] == slot_at(220, 230, 180, 10, 220, 238),
{
}

/// A slot keeps the measures that it is made of.
pub proof fn slot_has_its_measures(
    x: i32,
    y: i32,
    width: u32,
    height: u32,
    text_x: i32,
    text_y: i32,
)
    ensures
        slot_at(x, y, width, height, text_x, text_y).clear.x == x,
        slot_at(x, y, width, height, text_x, text_y).clear.y == y,
        slot_at(x, y, width, height, text_x, text_y).clear.width == width,
        slot_at(x, y, width, height, text_x, text_y).clear.height == height,
        slot_at(x, y, width, height, text_x, text_y).text_x == text_x,
        slot_at(x, y, width, height, text_x, text_y).text_y == text_y,
{
}

/// Once an outcome is rendered, the fields of its screen say it: each axis its own angle, or the name
/// and the detail of the error, and the status fields the count and each its own timing. The time of
/// the last service stays as it was.
pub proof fn rendered_screen_says_the_outcome(
    screen: Screen,
    outcome: Result<AngleReadings, SensorError>,
    refresh_count: u32,
    timings: Timings,
)
    ensures
        ({
            let then = rendered_screen(screen, outcome, refresh_count, timings);
            &&& outcome is Ok ==> then.mode == Some(ScreenMode::Angles)
            &&& outcome is Err ==> then.mode == Some(ScreenMode::Error)
            &&& outcome matches Ok(readings) ==> then.x == text::axis_line(
                'X',
                readings.x_raw as int,
            )
            &&& outcome matches Ok(readings) ==> then.y == text::axis_line(
                'Y',
                readings.y_raw as int,
            )
            &&& outcome matches Ok(readings) ==> then.z == text::axis_line(
                'Z',
                readings.z_raw as int,
            )
            &&& outcome matches Err(error) ==> then.message == text::error_message(error)
            &&& outcome matches Err(error) ==> then.detail == text::error_detail(error)
            &&& then.refresh == text::refresh_line(refresh_count)
            &&& then.led == text::timing_line("LED "@, timings.led_us)
            &&& then.sensor == text::timing_line("SNS "@, timings.sensor_us)
            &&& then.cpu == text::timing_line("CPU "@, timings.cpu_us)
            &&& then.flush == text::timing_line("FLU "@, timings.flush_us)
            &&& then.pass == text::timing_line("LOP "@, timings.loop_us)
            &&& then.last_flush_at == screen.last_flush_at
        }),
{
}

/// From the readings to the digits: after a reading, each axis of the screen, read back, says its own
/// angle, cut off to a hundredth of a degree, on its own side of zero.
pub proof fn screen_reads_back_the_angles(
    screen: Screen,
    readings: AngleReadings,
    refresh_count: u32,
    timings: Timings,
)
    ensures
        ({
            let then = rendered_screen(screen, Ok(readings), refresh_count, timings);
            &&& text::is_angle_line(then.x, 'X') && says(then.x, readings.x_raw as int)
            &&& text::is_angle_line(then.y, 'Y') && says(then.y, readings.y_raw as int)
            &&& text::is_angle_line(then.z, 'Z') && says(then.z, readings.z_raw as int)
        }),
{
    text::axis_line_reads_back('X', readings.x_raw);
    text::axis_line_reads_back('Y', readings.y_raw);
    text::axis_line_reads_back('Z', readings.z_raw);
}

/// The line shows the angle of the raw reading, cut off towards zero.
pub open spec fn says(line: Seq<char>, raw: int) -> bool {
    let angle = text::shown_angle(line);
    &&& line[3] == '-' <==> angle < 0
    &&& raw >= 0 ==> angle * 16384 <= raw * 9000 < (angle + 1) * 16384
    &&& raw <= 0 ==> (angle - 1) * 16384 < raw * 9000 <= angle * 16384
}

/// The display is flushed exactly if something has changed, and else told that it is looked after
/// exactly if half a second, which is 16384 ticks, has passed since it was last served.
pub proof fn service_in_full(screen: Screen, needs_flush: bool, now: u64)
    ensures
        service_needed(screen, needs_flush, now) is Flush <==> needs_flush,
        service_needed(screen, needs_flush, now) is KeepAlive <==> !needs_flush && now
            - screen.last_flush_at >= 16384,
        service_needed(screen, needs_flush, now) is Leave <==> !needs_flush && now
            - screen.last_flush_at < 16384,
{
}

/// On whatever screen, the status fields are brought up to date by drawing those whose lines differ,
/// each with its own line, and nothing but these fields changes.
pub proof fn overlay_in_full(screen: Screen, refresh_count: u32, timings: Timings)
    ensures
        overlay_drawings(screen, refresh_count, timings) == differences(
            seq![
                screen.refresh, screen.led, screen.sensor, screen.cpu, screen.flush, screen.pass,
            ],
            seq![
                text::refresh_line(refresh_count),
                text::timing_line("LED "@, timings.led_us),
                text::timing_line("SNS "@, timings.sensor_us),
                text::timing_line("CPU "@, timings.cpu_us),
                text::timing_line("FLU "@, timings.flush_us),
                text::timing_line("LOP "@, timings.loop_us),
            ],
            slots(ScreenMode::Angles).skip(3),
        ),
        with_overlay(screen, refresh_count, timings) == (Screen {
            refresh: text::refresh_line(refresh_count),
            led: text::timing_line("LED "@, timings.led_us),
            sensor: text::timing_line("SNS "@, timings.sensor_us),
            cpu: text::timing_line("CPU "@, timings.cpu_us),
            flush: text::timing_line("FLU "@, timings.flush_us),
            pass: text::timing_line("LOP "@, timings.loop_us),
            ..screen
        }),
{
    let before = seq![
        screen.refresh, screen.led, screen.sensor, screen.cpu, screen.flush, screen.pass,
    ];
    let after = seq![
        text::refresh_line(refresh_count),
        text::timing_line("LED "@, timings.led_us),
        text::timing_line("SNS "@, timings.sensor_us),
        text::timing_line("CPU "@, timings.cpu_us),
        text::timing_line("FLU "@, timings.flush_us),
        text::timing_line("LOP "@, timings.loop_us),
    ];
    let fields = slots(ScreenMode::Angles).skip(3);
    lemma_one_more_field(before, after, fields, 0);
    lemma_one_more_field(before, after, fields, 1);
    lemma_one_more_field(before, after, fields, 2);
    lemma_one_more_field(before, after, fields, 3);
    lemma_one_more_field(before, after, fields, 4);
    lemma_one_more_field(before, after, fields, 5);
    assert(fields.take(0).len() == 0);
    assert(fields.take(6) =~= fields);
    let first = field_update(before[0], after[0], fields[0], body_style());
    assert(Seq::<display::Drawing>::empty() + first =~= first);
}

/// On whatever screen, the fields of the angles are brought up to date by drawing those whose lines
/// differ, and nothing but them and the status fields changes.
pub proof fn angle_fields_in_full(
    screen: Screen,
    readings: AngleReadings,
    refresh_count: u32,
    timings: Timings,
)
    ensures
        angle_drawings(screen, readings, refresh_count, timings) == differences(
            field_lines(screen, ScreenMode::Angles),
            field_lines(
                with_angles(screen, readings, refresh_count, timings),
                ScreenMode::Angles,
            ),
            slots(ScreenMode::Angles),
        ),
        with_angles(screen, readings, refresh_count, timings) == with_overlay(
            (Screen {
                x: text::axis_line('X', readings.x_raw as int),
                y: text::axis_line('Y', readings.y_raw as int),
                z: text::axis_line('Z', readings.z_raw as int),
                ..screen
            }),
            refresh_count,
            timings,
        ),
{
    let up = Screen { mode: Some(ScreenMode::Angles), ..screen };
    pass_draws_the_differences(up, Ok(readings), refresh_count, timings);
    assert(field_lines(up, ScreenMode::Angles) =~= field_lines(screen, ScreenMode::Angles));
    assert(field_lines(
        rendered_screen(up, Ok(readings), refresh_count, timings),
        ScreenMode::Angles,
    ) =~= field_lines(
        with_angles(screen, readings, refresh_count, timings),
        ScreenMode::Angles,
    ));
    assert(angle_drawings(up, readings, refresh_count, timings) == angle_drawings(
        screen,
        readings,
        refresh_count,
        timings,
    ));
}

/// On whatever screen, the fields of the errors are brought up to date by drawing those whose lines
/// differ, and nothing but them and the status fields changes.
pub proof fn error_fields_in_full(
    screen: Screen,
    error: SensorError,
    refresh_count: u32,
    timings: Timings,
)
    ensures
        error_drawings(screen, error, refresh_count, timings) == differences(
            field_lines(screen, ScreenMode::Error),
            field_lines(with_error(screen, error, refresh_count, timings), ScreenMode::Error),
            slots(ScreenMode::Error),
        ),
        with_error(screen, error, refresh_count, timings) == with_overlay(
            (Screen {
                message: text::error_message(error),
                detail: text::error_detail(error),
                ..screen
            }),
            refresh_count,
            timings,
        ),
{
    let up = Screen { mode: Some(ScreenMode::Error), ..screen };
    pass_draws_the_differences(up, Err(error), refresh_count, timings);
    assert(field_lines(up, ScreenMode::Error) =~= field_lines(screen, ScreenMode::Error));
    assert(field_lines(
        rendered_screen(up, Err(error), refresh_count, timings),
        ScreenMode::Error,
    ) =~= field_lines(with_error(screen, error, refresh_count, timings), ScreenMode::Error));
    assert(error_drawings(up, error, refresh_count, timings) == error_drawings(
        screen,
        error,
        refresh_count,
        timings,
    ));
}

} // verus!
