use inclinometer::display::{
    can_enlarge, draw_scaled_centered_text, draw_scaled_glyph, draw_splash, scaled_pixel,
    scaled_text_width, Area, DrawOp, Font, FontMetrics, Typeface,
};

const SPACED: FontMetrics = FontMetrics {
    character_width: 10,
    character_height: 20,
    character_spacing: 3,
    image_width: 160,
};

const FACE: Typeface = Typeface { font: Font::Title, metrics: SPACED };

fn glyph(cell_x: i32, cell_y: i32, x: i32, y: i32, scale: u32) -> DrawOp {
    let cell = Area { x: cell_x, y: cell_y, width: 10, height: 20 };
    DrawOp::Glyph { font: Font::Title, cell, x, y, scale }
}

#[test]
fn text_width_has_spacing_between_characters_only() {
    assert_eq!(scaled_text_width(&SPACED, "", 5), 0);
    assert_eq!(scaled_text_width(&SPACED, "a", 5), 50);
    assert_eq!(scaled_text_width(&SPACED, "abc", 2), 72);
    assert_eq!(scaled_text_width(&SPACED, "\u{e9}\u{e9}", 1), 23);
}

#[test]
fn glyphs_are_found_row_by_row() {
    assert_eq!(draw_scaled_glyph(&FACE, 0, 1, 3, 4), glyph(0, 0, 3, 4, 1));
    assert_eq!(draw_scaled_glyph(&FACE, 15, 1, 3, 4), glyph(150, 0, 3, 4, 1));
    assert_eq!(draw_scaled_glyph(&FACE, 16, 2, 3, 4), glyph(0, 20, 3, 4, 2));
    assert_eq!(draw_scaled_glyph(&FACE, 95, 2, 3, 4), glyph(150, 100, 3, 4, 2));
    let narrow = Typeface { metrics: FontMetrics { image_width: 25, ..SPACED }, ..FACE };
    assert_eq!(draw_scaled_glyph(&narrow, 33, 1, 0, 0), glyph(10, 320, 0, 0, 1));
}

#[test]
fn centered_text_uses_the_title_font() {
    let mut ops = vec![DrawOp::ClearBuffer];
    draw_scaled_centered_text(&mut ops, "A~", 2, -7);
    assert_eq!(
        ops,
        vec![DrawOp::ClearBuffer, glyph(10, 40, 180, -7, 2), glyph(140, 100, 200, -7, 2)]
    );
}

#[test]
fn odd_rest_of_the_width_goes_to_the_right() {
    let mut ops = Vec::new();
    draw_scaled_centered_text(&mut ops, "   ", 3, 0);
    assert_eq!(ops[0], glyph(0, 0, 155, 0, 3));
    assert_eq!(ops[2], glyph(0, 0, 215, 0, 3));
}

#[test]
fn text_wider_than_the_display_starts_at_the_edge() {
    let mut ops = Vec::new();
    draw_scaled_centered_text(&mut ops, "xy", 21, 5);
    assert_eq!(ops, vec![glyph(80, 100, 0, 5, 21), glyph(90, 100, 210, 5, 21)]);
}

#[test]
fn unknown_characters_are_question_marks() {
    let mut ops = Vec::new();
    draw_scaled_centered_text(&mut ops, "\u{e9}", 1, 0);
    draw_scaled_centered_text(&mut ops, "?", 1, 0);
    draw_scaled_centered_text(&mut ops, "\n", 1, 0);
    assert_eq!(ops[0], glyph(150, 20, 195, 0, 1));
    assert_eq!(ops[1], ops[0]);
    assert_eq!(ops[2], ops[0]);
}

#[test]
fn splash_shows_the_name() {
    let ops = draw_splash();
    assert_eq!(ops.len(), 12);
    assert_eq!(ops[0], DrawOp::ClearBuffer);
    assert_eq!(ops[1], glyph(20, 60, 75, 25, 5));
    assert_eq!(ops[2], glyph(50, 100, 125, 25, 5));
    assert_eq!(ops[5], glyph(90, 100, 275, 25, 5));
    assert_eq!(ops[6], glyph(30, 60, 50, 125, 5));
    assert_eq!(ops[11], glyph(10, 80, 300, 125, 5));
}

#[test]
fn pixels_become_squares() {
    assert_eq!(scaled_pixel(75, 25, 5, 0, 0), Area { x: 75, y: 25, width: 5, height: 5 });
    assert_eq!(scaled_pixel(75, 25, 5, 9, 19), Area { x: 120, y: 120, width: 5, height: 5 });
    assert_eq!(scaled_pixel(-10, 0, 3, -1, 2), Area { x: -13, y: 6, width: 3, height: 3 });
}

#[test]
fn squares_of_two_pixels_are_apart() {
    let a = scaled_pixel(0, 0, 4, 1, 1);
    let right = scaled_pixel(0, 0, 4, 2, 1);
    let below = scaled_pixel(0, 0, 4, 1, 2);
    assert_eq!(a.x + a.width as i32, right.x);
    assert_eq!(a.y + a.height as i32, below.y);
}

#[test]
fn squares_out_of_range_are_refused() {
    assert!(can_enlarge(75, 5, 9));
    assert!(can_enlarge(0, 1, i32::MAX));
    assert!(!can_enlarge(1, 1, i32::MAX));
    assert!(!can_enlarge(0, 2, i32::MAX));
    assert!(!can_enlarge(-1, 1, i32::MIN));
    assert!(can_enlarge(0, u32::MAX, 7));
}

#[test]
fn glyph_cells_lie_in_the_image_and_are_apart() {
    let mut cells = Vec::new();
    for glyph_index in 0..96 {
        match draw_scaled_glyph(&FACE, glyph_index, 1, 0, 0) {
            DrawOp::Glyph { cell, .. } => {
                assert!(cell.x >= 0 && cell.x + cell.width as i32 <= 160);
                assert!(cell.y >= 0 && cell.y + cell.height as i32 <= 120);
                assert!(!cells.contains(&(cell.x, cell.y)));
                cells.push((cell.x, cell.y));
            }
            _ => panic!("no glyph"),
        }
    }
    assert_eq!(cells.len(), 96);
}

#[test]
fn glyphs_are_cut_from_the_font_that_is_given() {
    let small = FontMetrics {
        character_width: 6,
        character_height: 10,
        character_spacing: 0,
        image_width: 96,
    };
    let face = Typeface { font: Font::Body, metrics: small };
    assert_eq!(
        draw_scaled_glyph(&face, 33, 2, 7, 8),
        DrawOp::Glyph {
            font: Font::Body,
            cell: Area { x: 6, y: 20, width: 6, height: 10 },
            x: 7,
            y: 8,
            scale: 2,
        }
    );
}

#[test]
fn characters_have_the_size_of_the_fonts() {
    let title = embedded_graphics::mono_font::ascii::FONT_10X20;
    let body = embedded_graphics::mono_font::ascii::FONT_6X10;
    assert_eq!((title.character_size.width, title.character_size.height), (10, 20));
    assert_eq!((title.character_spacing, title.baseline), (0, 15));
    assert_eq!((body.character_size.width, body.character_size.height), (6, 10));
    assert_eq!((body.character_spacing, body.baseline), (0, 7));
}
