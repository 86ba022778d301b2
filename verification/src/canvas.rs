//! What the display shows, field by field, and that it is what the state of the screens says.
use vstd::prelude::*;

use crate::display;
use crate::display::Ink;
use crate::frame::SensorError;
use crate::sensor::AngleReadings;
use crate::text;
use crate::ui;
use crate::ui::{Screen, ScreenMode, Slot, Timings};

verus! {

/// The text that stands in each field of the display. The areas of the fields of a screen share no
/// pixel, so that each field can be looked at by itself.
pub type Canvas = spec_fn(Slot) -> Seq<char>;

/// The display after one thing was drawn: a cleared buffer shows nothing, a filled area nothing in
/// its field, and text is added to what stands in the field whose text starts there.
pub open spec fn drawn(canvas: Canvas, drawing: display::Drawing) -> Canvas {
    match drawing {
        display::Drawing::ClearBuffer => |slot: Slot| Seq::empty(),
        display::Drawing::Fill { area, ink } => |slot: Slot|
            if slot.clear == area && ink == Ink::On {
                Seq::empty()
            } else {
                canvas(slot)
            },
        display::Drawing::Text { text, x, y, .. } => |slot: Slot|
            if slot.text_x == x && slot.text_y == y {
                canvas(slot) + text
            } else {
                canvas(slot)
            },
        display::Drawing::Glyph { .. } => canvas,
    }
}

/// The display after a list of things was drawn.
pub open spec fn all_drawn(canvas: Canvas, list: Seq<display::Drawing>) -> Canvas
    decreases list.len(),
{
    if list.len() == 0 {
        canvas
    } else {
        drawn(all_drawn(canvas, list.drop_last()), list.last())
    }
}

/// The status fields of the display show what the state says.
pub open spec fn overlay_agrees(screen: Screen, canvas: Canvas) -> bool {
    &&& canvas(ui::refresh_slot()) == screen.refresh
    &&& canvas(ui::led_slot()) == screen.led
    &&& canvas(ui::sensor_slot()) == screen.sensor
    &&& canvas(ui::cpu_slot()) == screen.cpu
    &&& canvas(ui::flush_slot()) == screen.flush
    &&& canvas(ui::pass_slot()) == screen.pass
}

/// The fields of the screen that is up show what the state says.
pub open spec fn agrees(screen: Screen, canvas: Canvas) -> bool {
    match screen.mode {
        None => true,
        Some(ScreenMode::Angles) => {
            &&& canvas(ui::x_slot()) == screen.x
            &&& canvas(ui::y_slot()) == screen.y
            &&& canvas(ui::z_slot()) == screen.z
            &&& overlay_agrees(screen, canvas)
        },
        Some(ScreenMode::Error) => {
            &&& canvas(ui::message_slot()) == screen.message
            &&& canvas(ui::detail_slot()) == screen.detail
            &&& overlay_agrees(screen, canvas)
        },
    }
}

/// Two fields have neither the area nor the start of the text in common.
pub open spec fn distinct(a: Slot, b: Slot) -> bool {
    &&& a.clear != b.clear
    &&& a.text_x != b.text_x || a.text_y != b.text_y
}

proof fn lemma_all_drawn_joined(canvas: Canvas, a: Seq<display::Drawing>, b: Seq<display::Drawing>)
    ensures
        all_drawn(canvas, a + b) == all_drawn(all_drawn(canvas, a), b),
    decreases b.len(),
{
    if b.len() == 0 {
        assert(a + b =~= a);
    } else {
        assert((a + b).drop_last() =~= a + b.drop_last());
        lemma_all_drawn_joined(canvas, a, b.drop_last());
    }
}

/// Updating a field makes it show the wanted text and leaves every other field as it is.
pub proof fn update_reaches_its_field_alone(
    canvas: Canvas,
    shown: Seq<char>,
    wanted: Seq<char>,
    slot: Slot,
    style: display::TextStyle,
)
    requires
        canvas(slot) == shown,
    ensures
        all_drawn(canvas, ui::field_update(shown, wanted, slot, style))(slot) == wanted,
        forall|other: Slot|
            distinct(other, slot) ==> #[trigger] all_drawn(
                canvas,
                ui::field_update(shown, wanted, slot, style),
            )(other) == canvas(other),
{
    let list = ui::field_update(shown, wanted, slot, style);
    reveal_with_fuel(all_drawn, 3);
    if shown != wanted {
        let fill = display::Drawing::Fill { area: slot.clear, ink: Ink::On };
        assert(list[0] == fill);
        let wiped = drawn(canvas, fill);
        assert(wiped(slot) =~= Seq::empty());
        if wanted.len() == 0 {
            assert(list.drop_last().len() == 0);
            assert(wanted =~= Seq::empty());
        } else {
            assert(list.drop_last().last() == fill);
            assert(list.drop_last().drop_last().len() == 0);
            assert(Seq::empty() + wanted =~= wanted);
        }
    }
}

/// The field is none of the status fields.
pub open spec fn beside_overlay(slot: Slot) -> bool {
    &&& distinct(slot, ui::refresh_slot())
    &&& distinct(slot, ui::led_slot())
    &&& distinct(slot, ui::sensor_slot())
    &&& distinct(slot, ui::cpu_slot())
    &&& distinct(slot, ui::flush_slot())
    &&& distinct(slot, ui::pass_slot())
}

proof fn lemma_overlay_agrees(screen: Screen, canvas: Canvas, refresh_count: u32, timings: Timings)
    requires
        overlay_agrees(screen, canvas),
    ensures
        overlay_agrees(
            ui::with_overlay(screen, refresh_count, timings),
            all_drawn(canvas, ui::overlay_drawings(screen, refresh_count, timings)),
        ),
        forall|other: Slot|
            beside_overlay(other) ==> #[trigger] all_drawn(
                canvas,
                ui::overlay_drawings(screen, refresh_count, timings),
            )(other) == canvas(other),
{
    let style = ui::body_style();
    let u1 = ui::field_update(
        screen.refresh,
        text::refresh_line(refresh_count),
        ui::refresh_slot(),
        style,
    );
    let u2 = ui::field_update(
        screen.led,
        text::timing_line("LED "@, timings.led_us),
        ui::led_slot(),
        style,
    );
    let u3 = ui::field_update(
        screen.sensor,
        text::timing_line("SNS "@, timings.sensor_us),
        ui::sensor_slot(),
        style,
    );
    let u4 = ui::field_update(
        screen.cpu,
        text::timing_line("CPU "@, timings.cpu_us),
        ui::cpu_slot(),
        style,
    );
    let u5 = ui::field_update(
        screen.flush,
        text::timing_line("FLU "@, timings.flush_us),
        ui::flush_slot(),
        style,
    );
    let u6 = ui::field_update(
        screen.pass,
        text::timing_line("LOP "@, timings.loop_us),
        ui::pass_slot(),
        style,
    );
    let c1 = all_drawn(canvas, u1);
    update_reaches_its_field_alone(
        canvas,
        screen.refresh,
        text::refresh_line(refresh_count),
        ui::refresh_slot(),
        style,
    );
    let c2 = all_drawn(c1, u2);
    update_reaches_its_field_alone(
        c1,
        screen.led,
        text::timing_line("LED "@, timings.led_us),
        ui::led_slot(),
        style,
    );
    let c3 = all_drawn(c2, u3);
    update_reaches_its_field_alone(
        c2,
        screen.sensor,
        text::timing_line("SNS "@, timings.sensor_us),
        ui::sensor_slot(),
        style,
    );
    let c4 = all_drawn(c3, u4);
    update_reaches_its_field_alone(
        c3,
        screen.cpu,
        text::timing_line("CPU "@, timings.cpu_us),
        ui::cpu_slot(),
        style,
    );
    let c5 = all_drawn(c4, u5);
    update_reaches_its_field_alone(
        c4,
        screen.flush,
        text::timing_line("FLU "@, timings.flush_us),
        ui::flush_slot(),
        style,
    );
    let c6 = all_drawn(c5, u6);
    update_reaches_its_field_alone(
        c5,
        screen.pass,
        text::timing_line("LOP "@, timings.loop_us),
        ui::pass_slot(),
        style,
    );
    lemma_all_drawn_joined(canvas, u1, u2);
    lemma_all_drawn_joined(canvas, u1 + u2, u3);
    lemma_all_drawn_joined(canvas, u1 + u2 + u3, u4);
    lemma_all_drawn_joined(canvas, u1 + u2 + u3 + u4, u5);
    lemma_all_drawn_joined(canvas, u1 + u2 + u3 + u4 + u5, u6);
    assert(u1 + u2 + u3 + u4 + u5 + u6 == ui::overlay_drawings(screen, refresh_count, timings));
    assert(all_drawn(canvas, u1 + u2 + u3 + u4 + u5 + u6) == c6);
}

proof fn lemma_fields_agree(
    screen: Screen,
    canvas: Canvas,
    outcome: Result<AngleReadings, SensorError>,
    refresh_count: u32,
    timings: Timings,
)
    requires
        screen.mode == Some(ui::mode_for(outcome)),
        agrees(screen, canvas),
    ensures
        agrees(
            ui::rendered_screen(screen, outcome, refresh_count, timings),
            all_drawn(canvas, ui::outcome_drawings(screen, outcome, refresh_count, timings)),
        ),
{
    let style = ui::body_style();
    let rest = ui::overlay_drawings(screen, refresh_count, timings);
    match outcome {
        Ok(readings) => {
            let (x, y, z) = (
                text::axis_line('X', readings.x_raw as int),
                text::axis_line('Y', readings.y_raw as int),
                text::axis_line('Z', readings.z_raw as int),
            );
            let u1 = ui::field_update(screen.x, x, ui::x_slot(), style);
            let u2 = ui::field_update(screen.y, y, ui::y_slot(), style);
            let u3 = ui::field_update(screen.z, z, ui::z_slot(), style);
            let c1 = all_drawn(canvas, u1);
            update_reaches_its_field_alone(canvas, screen.x, x, ui::x_slot(), style);
            let c2 = all_drawn(c1, u2);
            update_reaches_its_field_alone(c1, screen.y, y, ui::y_slot(), style);
            let c3 = all_drawn(c2, u3);
            update_reaches_its_field_alone(c2, screen.z, z, ui::z_slot(), style);
            assert(overlay_agrees(screen, c3));
            lemma_overlay_agrees(screen, c3, refresh_count, timings);
            lemma_all_drawn_joined(canvas, u1, u2);
            lemma_all_drawn_joined(canvas, u1 + u2, u3);
            lemma_all_drawn_joined(canvas, u1 + u2 + u3, rest);
            assert(beside_overlay(ui::x_slot()));
            assert(beside_overlay(ui::y_slot()));
            assert(beside_overlay(ui::z_slot()));
        },
        Err(error) => {
            let (message, detail) = (text::error_message(error), text::error_detail(error));
            let u1 = ui::field_update(screen.message, message, ui::message_slot(), style);
            let u2 = ui::field_update(screen.detail, detail, ui::detail_slot(), style);
            let c1 = all_drawn(canvas, u1);
            update_reaches_its_field_alone(
                canvas,
                screen.message,
                message,
                ui::message_slot(),
                style,
            );
            let c2 = all_drawn(c1, u2);
            update_reaches_its_field_alone(c1, screen.detail, detail, ui::detail_slot(), style);
            assert(overlay_agrees(screen, c2));
            lemma_overlay_agrees(screen, c2, refresh_count, timings);
            lemma_all_drawn_joined(canvas, u1, u2);
            lemma_all_drawn_joined(canvas, u1 + u2, rest);
            assert(beside_overlay(ui::message_slot()));
            assert(beside_overlay(ui::detail_slot()));
        },
    }
}

/// Putting up a screen makes the display show nothing in its fields, whatever it showed before.
pub proof fn new_screen_is_blank(canvas: Canvas, mode: ScreenMode, last_flush_at: u64)
    ensures
        agrees(
            ui::blank_screen(Some(mode), last_flush_at),
            all_drawn(canvas, ui::screen_drawings(mode)),
        ),
{
    let captions = ui::screen_drawings(mode);
    reveal_with_fuel(all_drawn, 4);
    assert(captions.drop_last().last() == captions[1]);
    assert(captions.drop_last().drop_last().last() == captions[0]);
    assert(captions.drop_last().drop_last().drop_last().len() == 0);
}

/// Though a pass draws only the fields that changed, the display then shows in every field what
/// the state says: if display and state agreed before, they agree after the pass was drawn.
pub proof fn display_follows_the_state(
    screen: Screen,
    canvas: Canvas,
    outcome: Result<AngleReadings, SensorError>,
    refresh_count: u32,
    timings: Timings,
)
    requires
        agrees(screen, canvas),
    ensures
        agrees(
            ui::rendered_screen(screen, outcome, refresh_count, timings),
            all_drawn(canvas, ui::render_drawings(screen, outcome, refresh_count, timings)),
        ),
{
    let mode = ui::mode_for(outcome);
    let prepared = ui::prepared_screen(screen, outcome);
    let fields = ui::outcome_drawings(prepared, outcome, refresh_count, timings);
    if screen.mode == Some(mode) {
        lemma_fields_agree(screen, canvas, outcome, refresh_count, timings);
        assert(Seq::empty() + fields =~= fields);
    } else {
        let captions = ui::screen_drawings(mode);
        let blank = all_drawn(canvas, captions);
        new_screen_is_blank(canvas, mode, screen.last_flush_at);
        lemma_fields_agree(prepared, blank, outcome, refresh_count, timings);
        lemma_all_drawn_joined(canvas, captions, fields);
    }
}

} // verus!
