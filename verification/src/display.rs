//! What the display is told to draw, and where the pixels of enlarged text go.
use embedded_graphics::geometry::OriginDimensions;
use embedded_graphics::mono_font::ascii::FONT_10X20;
use vstd::prelude::*;

verus! {

/// The width of the display in pixels.
pub const DISPLAY_WIDTH: i32 = 400;

/// The height of the display in pixels.
pub const DISPLAY_HEIGHT: i32 = 240;

/// The state of a pixel. The cleared display is on all over, and text is drawn off.
#[derive(Clone, Copy, Debug, PartialEq, Eq, Structural)]
pub enum Ink {
    On,
    Off,
}

/// The fonts in use.
#[derive(Clone, Copy, Debug, PartialEq, Eq, Structural)]
pub enum Font {
    /// 10 by 20 pixels.
    Title,
    /// 6 by 10 pixels.
    Body,
}

/// How text is drawn.
#[derive(Clone, Copy, Debug, PartialEq, Eq, Structural)]
pub struct TextStyle {
    pub font: Font,
    pub ink: Ink,
}

/// A rectangle of pixels, by its top left corner and its size.
#[derive(Clone, Copy, Debug, PartialEq, Eq, Structural)]
pub struct Area {
    pub x: i32,
    pub y: i32,
    pub width: u32,
    pub height: u32,
}

impl Area {
    /// The pixel lies in the area.
    pub open spec fn covers(self, x: int, y: int) -> bool {
        &&& self.x <= x < self.x + self.width
        &&& self.y <= y < self.y + self.height
    }
}

/// One thing to draw into the frame buffer.
#[derive(Debug, PartialEq, Eq)]
pub enum DrawOp {
    /// Set the whole buffer to the cleared state.
    ClearBuffer,
    /// Fill an area.
    Fill { area: Area, ink: Ink },
    /// Draw text, its baseline starting at the point.
    Text { text: String, x: i32, y: i32, style: TextStyle },
    /// Draw a cell of the image of a font, each pixel enlarged to a square of `scale`, its top left
    /// corner at the point.
    Glyph { font: Font, cell: Area, x: i32, y: i32, scale: u32 },
}

/// A thing to draw, with text as its characters.
pub enum Drawing {
    ClearBuffer,
    Fill { area: Area, ink: Ink },
    Text { text: Seq<char>, x: i32, y: i32, style: TextStyle },
    Glyph { font: Font, cell: Area, x: i32, y: i32, scale: u32 },
}

impl View for DrawOp {
    type V = Drawing;

    open spec fn view(&self) -> Drawing {
        match *self {
            DrawOp::ClearBuffer => Drawing::ClearBuffer,
            DrawOp::Fill { area, ink } => Drawing::Fill { area, ink },
            DrawOp::Text { text, x, y, style } => Drawing::Text { text: text@, x, y, style },
            DrawOp::Glyph { font, cell, x, y, scale } => Drawing::Glyph { font, cell, x, y, scale },
        }
    }
}

/// A line of `count` characters of a font, its baseline starting at the point, takes in the pixel.
/// A character of the title font is 10 pixels wide, with 15 rows above the baseline and 5 from it
/// on, and one of the body font 6 pixels wide, with 7 rows above it and 3 from it on.
pub open spec fn line_covers(
    font: Font,
    text_x: int,
    text_y: int,
    count: nat,
    x: int,
    y: int,
) -> bool {
    match font {
        Font::Title => text_x <= x < text_x + 10 * count && text_y - 15 <= y < text_y + 5,
        Font::Body => text_x <= x < text_x + 6 * count && text_y - 7 <= y < text_y + 3,
    }
}

/// A list of things to draw, with text as its characters.
pub open spec fn drawings(ops: Seq<DrawOp>) -> Seq<Drawing> {
    ops.map_values(|op: DrawOp| op@)
}

/// Appending to a list appends to what it draws.
pub proof fn lemma_drawings_push(ops: Seq<DrawOp>, op: DrawOp)
    ensures
        drawings(ops.push(op)) == drawings(ops).push(op@),
{
    assert(drawings(ops.push(op)) =~= drawings(ops).push(op@));
}

/// What enlarged text needs to know of a font.
#[derive(Clone, Copy, Debug, PartialEq, Eq, Structural)]
pub struct FontMetrics {
    pub character_width: u32,
    pub character_height: u32,
    pub character_spacing: u32,
    /// The width of the image that holds the glyphs, row after row.
    pub image_width: u32,
}

/// A font, and what enlarged text needs to know of it.
#[derive(Clone, Copy, Debug, PartialEq, Eq, Structural)]
pub struct Typeface {
    pub font: Font,
    pub metrics: FontMetrics,
}

/// The metrics of the title font.
pub open spec fn title_font_metrics() -> FontMetrics {
    FontMetrics {
        character_width: 10,
        character_height: 20,
        character_spacing: 0,
        image_width: 160,
    }
}

/// The title font with its metrics.
pub open spec fn title_typeface() -> Typeface {
    Typeface { font: Font::Title, metrics: title_font_metrics() }
}

/// The place of the glyph of a character in an ASCII font: the printable characters follow one
/// another from the space on, and any other character has the glyph of the question mark.
pub open spec fn ascii_glyph(character: char) -> int {
    if ' ' <= character <= '\u{7f}' {
        character as int - ' ' as int
    } else {
        '?' as int - ' ' as int
    }
}

/// `embedded_graphics::mono_font::ascii::FONT_10X20`: its character size and spacing, and the
/// `OriginDimensions::size` of its image.
#[verifier::external_body]
pub(crate) fn title_font() -> (font: FontMetrics)
    ensures
        font == title_font_metrics(),
{
    let font = &FONT_10X20;
    FontMetrics {
        character_width: font.character_size.width,
        character_height: font.character_size.height,
        character_spacing: font.character_spacing,
        image_width: font.image.size().width,
    }
}

/// `embedded_graphics::mono_font::mapping::GlyphMapping::index` of `FONT_10X20`: the place of the
/// glyph that the font has for a character.
#[verifier::external_body]
pub(crate) fn title_glyph_index(character: char) -> (index: usize)
    ensures
        index == ascii_glyph(character),
{
    FONT_10X20.glyph_mapping.index(character)
}

/// The width of `count` characters of enlarged text: the spacing stands between characters only.
pub open spec fn text_width(font: FontMetrics, count: int, scale: int) -> int {
    if count == 0 {
        0
    } else {
        ((font.character_width + font.character_spacing) * count - font.character_spacing) * scale
    }
}

/// The width of enlarged text.
pub fn scaled_text_width(font: &FontMetrics, text: &str, scale: u32) -> (width: u32)
    requires
        text@.len() <= u32::MAX,
        text@.len() > 0 ==> (font.character_width + font.character_spacing) * text@.len()
            <= u32::MAX,
        text_width(*font, text@.len() as int, scale as int) <= u32::MAX,
    ensures
        width == text_width(*font, text@.len() as int, scale as int),
{
    let char_count: u32 = text.unicode_len() as u32;
    if char_count == 0 {
        0
    } else {
        proof {
            let cell = font.character_width + font.character_spacing;
            assert(cell * char_count >= cell) by (nonlinear_arith)
                requires
                    cell >= 0,
                    char_count >= 1,
            ;
        }
        ((font.character_width + font.character_spacing) * char_count - font.character_spacing)
            * scale
    }
}

/// The cell of the image of the font that holds glyph number `index`, and where it is to appear.
pub open spec fn scaled_glyph(
    typeface: Typeface,
    index: int,
    scale: u32,
    x: i32,
    y: i32,
) -> Drawing {
    let metrics = typeface.metrics;
    let glyphs_per_row = metrics.image_width as int / (metrics.character_width as int);
    Drawing::Glyph {
        font: typeface.font,
        cell: Area {
            x: (index % glyphs_per_row * metrics.character_width) as i32,
            y: (index / glyphs_per_row * metrics.character_height) as i32,
            width: metrics.character_width,
            height: metrics.character_height,
        },
        x,
        y,
        scale,
    }
}

/// Picks the cell of the image of the font that holds glyph number `glyph_index`, to be drawn
/// enlarged with its top left corner at the point.
pub fn draw_scaled_glyph(
    typeface: &Typeface,
    glyph_index: u32,
    scale: u32,
    x: i32,
    y: i32,
) -> (op: DrawOp)
    requires
        0 < typeface.metrics.character_width <= typeface.metrics.image_width,
        glyph_index as int / (typeface.metrics.image_width as int / (
        typeface.metrics.character_width as int)) * typeface.metrics.character_height <= u32::MAX,
    ensures
        op@ == scaled_glyph(*typeface, glyph_index as int, scale, x, y),
{
    let font: FontMetrics = typeface.metrics;
    let glyphs_per_row: u32 = font.image_width / font.character_width;
    proof {
        let (w, i, g) = (font.character_width, font.image_width, glyphs_per_row);
        assert(g >= 1 && g * w <= i) by (nonlinear_arith)
            requires
                0 < w <= i,
                g == i / w,
        ;
    }
    let row: u32 = glyph_index / glyphs_per_row;
    proof {
        let (n, r, g) = (glyph_index, row, glyphs_per_row);
        assert(r * g <= n && n - r * g == n % g && n % g < g) by (nonlinear_arith)
            requires
                g >= 1,
                r == n / g,
        ;
        let (c, w, i) = (n % g, font.character_width, font.image_width);
        assert(0 <= c * w <= i) by (nonlinear_arith)
            requires
                0 <= c < g,
                w >= 0,
                g * w <= i,
        ;
    }
    let char_x: u32 = (glyph_index - (row * glyphs_per_row)) * font.character_width;
    let char_y: u32 = row * font.character_height;
    DrawOp::Glyph {
        font: typeface.font,
        cell: Area {
            x: char_x as i32,
            y: char_y as i32,
            width: font.character_width,
            height: font.character_height,
        },
        x,
        y,
        scale,
    }
}

/// The column at which text of a width starts so that it stands in the middle of the display, or
/// at the left edge if it is too wide.
pub open spec fn centered_start(width: int) -> int {
    if width <= DISPLAY_WIDTH {
        (DISPLAY_WIDTH - width) / 2
    } else {
        0
    }
}

/// The column at which the glyph of character `i` of `count` starts. Both the width of the text and
/// that of a glyph are taken as signed numbers of 32 bits.
pub open spec fn glyph_column(count: int, scale: u32, i: int) -> int {
    let font = title_font_metrics();
    let width = text_width(font, count, scale as int) as u32;
    let advance = ((font.character_width + font.character_spacing) * scale) as u32;
    centered_start((width as i32) as int) + i * (advance as i32)
}

/// The computation of the column of a glyph stays in range.
pub open spec fn column_fits(count: int, scale: u32, i: int) -> bool {
    let advance = (title_font_metrics().character_width * scale) as u32;
    &&& i32::MIN <= i * (advance as i32) <= i32::MAX
    &&& i32::MIN <= glyph_column(count, scale, i) <= i32::MAX
}

/// The computation of all columns of centered text stays in range.
pub open spec fn can_center(count: int, scale: u32) -> bool {
    let width = text_width(title_font_metrics(), count, scale as int);
    &&& title_font_metrics().character_width * count <= u32::MAX
    &&& width <= u32::MAX
    &&& DISPLAY_WIDTH - ((width as u32) as i32) <= i32::MAX
    &&& forall|i: int| 0 <= i < count ==> #[trigger] column_fits(count, scale, i)
}

/// Enlarged text in the middle of the display, one glyph for each character.
pub open spec fn centered_text(text: Seq<char>, scale: u32, top_y: i32) -> Seq<Drawing> {
    Seq::new(
        text.len(),
        |i: int|
            scaled_glyph(
                title_typeface(),
                ascii_glyph(text[i]),
                scale,
                glyph_column(text.len() as int, scale, i) as i32,
                top_y,
            ),
    )
}

/// Adds enlarged text in the middle of the display to what is to be drawn.
pub fn draw_scaled_centered_text(ops: &mut Vec<DrawOp>, text: &str, scale: u32, top_y: i32)
    requires
        can_center(text@.len() as int, scale),
    ensures
        drawings(final(ops)@) == drawings(old(ops)@) + centered_text(text@, scale, top_y),
{
    let font: FontMetrics = title_font();
    let typeface = Typeface { font: Font::Title, metrics: font };
    let width: i32 = scaled_text_width(&font, text, scale) as i32;
    let start_x: i32 = if width <= DISPLAY_WIDTH {
        (DISPLAY_WIDTH - width) / 2
    } else {
        0
    };
    let count: usize = text.unicode_len();
    let ghost before = drawings(ops@);
    let ghost wanted = centered_text(text@, scale, top_y);
    let mut index: usize = 0;
    assert(before =~= before + wanted.take(0));
    while index < count
        invariant
            index <= count,
            count == text@.len(),
            font == title_font_metrics(),
            typeface == title_typeface(),
            can_center(count as int, scale),
            width == (text_width(font, count as int, scale as int) as u32) as i32,
            start_x == centered_start(width as int),
            wanted == centered_text(text@, scale, top_y),
            drawings(ops@) == before + wanted.take(index as int),
        decreases count - index,
    {
        let ch: char = text.get_char(index);
        proof {
            let (n, s) = (count as int, scale as int);
            assert(10 * s <= 10 * n * s) by (nonlinear_arith)
                requires
                    1 <= n,
                    s >= 0,
            ;
            assert(text_width(font, n, s) == 10 * n * s);
            assert(column_fits(n, scale, index as int));
        }
        let glyph_advance: u32 = (font.character_width + font.character_spacing) * scale;
        let glyph_x: i32 = start_x + (index as i32 * glyph_advance as i32);
        let glyph_index: u32 = title_glyph_index(ch) as u32;
        let ghost drawn = ops@;
        ops.push(draw_scaled_glyph(&typeface, glyph_index, scale, glyph_x, top_y));
        proof {
            lemma_drawings_push(drawn, ops@.last());
            assert(ops@ =~= drawn.push(ops@.last()));
            assert(wanted.take(index + 1) =~= wanted.take(index as int).push(wanted[index as int]));
        }
        index = index + 1;
    }
    assert(wanted.take(count as int) =~= wanted);
}

/// Text that is no wider than the display can be centered.
pub proof fn fitting_text_can_be_centered(count: int, scale: u32)
    requires
        0 < scale,
        0 <= count,
        text_width(title_font_metrics(), count, scale as int) <= DISPLAY_WIDTH,
    ensures
        can_center(count, scale),
        forall|i: int|
            0 <= i < count ==> #[trigger] glyph_column(count, scale, i) == centered_start(
                text_width(title_font_metrics(), count, scale as int),
            ) + i * (10 * scale),
{
    let s = scale as int;
    assert(count == 0 ==> 10 * count * s == 0) by (nonlinear_arith);
    assert(text_width(title_font_metrics(), count, s) == 10 * count * s);
    if count > 0 {
        assert(10 * count <= 10 * count * s && 10 * s <= 10 * count * s) by (nonlinear_arith)
            requires
                s >= 1,
                count >= 1,
        ;
    }
    let advance = ((title_font_metrics().character_width * scale) as u32) as i32;
    assert(count > 0 ==> advance == 10 * s);
    assert forall|i: int| 0 <= i < count implies #[trigger] column_fits(count, scale, i) by {
        assert(0 <= i * (10 * s) <= 10 * count * s) by (nonlinear_arith)
            requires
                0 <= i < count,
                s >= 1,
        ;
    }
}

/// Where pixel (`x`, `y`) of a glyph lands when the glyph is enlarged and its top left corner put
/// at the offset, in columns or rows.
pub open spec fn enlarged_position(offset: i32, scale: u32, coordinate: i32) -> int {
    offset + coordinate * (scale as i32)
}

/// The computation of the place of an enlarged pixel stays in range.
pub open spec fn enlargeable(offset: i32, scale: u32, coordinate: i32) -> bool {
    &&& i32::MIN <= coordinate * (scale as i32) <= i32::MAX
    &&& i32::MIN <= enlarged_position(offset, scale, coordinate) <= i32::MAX
}

/// Whether the computation of the place of an enlarged pixel stays in range.
pub fn can_enlarge(offset: i32, scale: u32, coordinate: i32) -> (fits: bool)
    ensures
        fits == enlargeable(offset, scale, coordinate),
{
    let factor: i64 = (scale as i32) as i64;
    proof {
        let (c, f) = (coordinate as int, factor as int);
        assert(-0x4000_0000_0000_0000 <= c * f <= 0x4000_0000_0000_0000) by (nonlinear_arith)
            requires
                -0x8000_0000 <= c <= 0x8000_0000,
                -0x8000_0000 <= f <= 0x8000_0000,
        ;
    }
    let distance: i64 = coordinate as i64 * factor;
    let low: i64 = i32::MIN as i64;
    let high: i64 = i32::MAX as i64;
    low <= distance && distance <= high && low <= offset as i64 + distance && offset as i64
        + distance <= high
}

/// The square that one pixel of a glyph becomes.
pub open spec fn enlarged_pixel(
    offset_x: i32,
    offset_y: i32,
    scale: u32,
    x: i32,
    y: i32,
) -> Area {
    Area {
        x: enlarged_position(offset_x, scale, x) as i32,
        y: enlarged_position(offset_y, scale, y) as i32,
        width: scale,
        height: scale,
    }
}

/// The square that pixel (`x`, `y`) of a glyph becomes when the glyph is enlarged and its top left
/// corner put at the offset.
pub fn scaled_pixel(offset_x: i32, offset_y: i32, scale: u32, x: i32, y: i32) -> (area: Area)
    requires
        enlargeable(offset_x, scale, x),
        enlargeable(offset_y, scale, y),
    ensures
        area == enlarged_pixel(offset_x, offset_y, scale, x, y),
{
    Area {
        x: offset_x + x * scale as i32,
        y: offset_y + y * scale as i32,
        width: scale,
        height: scale,
    }
}

/// The greeting of the device: its maker's name, enlarged, on a cleared display.
pub open spec fn splash() -> Seq<Drawing> {
    seq![Drawing::ClearBuffer] + centered_text("Ruddy"@, 5, 25) + centered_text("Subsea"@, 5, 125)
}

/// The greeting of the device.
pub fn draw_splash() -> (ops: Vec<DrawOp>)
    ensures
        drawings(ops@) == splash(),
{
    let mut ops: Vec<DrawOp> = Vec::new();
    proof {
        reveal_strlit("Ruddy");
        reveal_strlit("Subsea");
        assert("Ruddy"@.len() == 5 && "Subsea"@.len() == 6);
        fitting_text_can_be_centered(5, 5);
        fitting_text_can_be_centered(6, 5);
        lemma_drawings_push(ops@, DrawOp::ClearBuffer);
    }
    ops.push(DrawOp::ClearBuffer);
    assert(drawings(ops@) =~= seq![Drawing::ClearBuffer]);
    draw_scaled_centered_text(&mut ops, "Ruddy", 5, 25);
    draw_scaled_centered_text(&mut ops, "Subsea", 5, 125);
    ops
}

/// The cell of the image of the title font that is drawn for a character.
pub open spec fn title_cell(character: char) -> Area {
    scaled_glyph(title_typeface(), ascii_glyph(character), 1, 0, 0)->cell
}

/// The cell of every character lies within the image of the font, which is six rows of glyphs
/// high, and the cells of two glyphs share no pixel.
pub proof fn glyph_cells_are_apart(a: char, b: char, x: int, y: int)
    ensures
        0 <= title_cell(a).x && title_cell(a).x + title_cell(a).width <= 160,
        0 <= title_cell(a).y && title_cell(a).y + title_cell(a).height <= 120,
        ascii_glyph(a) != ascii_glyph(b) ==> !(title_cell(a).covers(x, y) && title_cell(b).covers(
            x,
            y,
        )),
{
    let (i, j) = (ascii_glyph(a), ascii_glyph(b));
    assert(160int / 10int == 16);
    assert(title_cell(a).x == i % 16 * 10 && title_cell(a).y == i / 16 * 20);
    assert(title_cell(b).x == j % 16 * 10 && title_cell(b).y == j / 16 * 20);
    if i / 16 == j / 16 {
        assert(i % 16 != j % 16 || i == j);
    }
}

/// The squares of two different pixels of an enlarged glyph do not overlap.
pub proof fn enlarged_pixels_are_apart(
    offset_x: i32,
    offset_y: i32,
    scale: u32,
    a: (i32, i32),
    b: (i32, i32),
    x: int,
    y: int,
)
    requires
        0 < scale <= i32::MAX,
        enlargeable(offset_x, scale, a.0) && enlargeable(offset_y, scale, a.1),
        enlargeable(offset_x, scale, b.0) && enlargeable(offset_y, scale, b.1),
        a != b,
    ensures
        !(enlarged_pixel(offset_x, offset_y, scale, a.0, a.1).covers(x, y) && enlarged_pixel(
            offset_x,
            offset_y,
            scale,
            b.0,
            b.1,
        ).covers(x, y)),
{
    let s = scale as int;
    assert(scale as i32 == s);
    let (ax, ay, bx, by) = (a.0 as int, a.1 as int, b.0 as int, b.1 as int);
    assert((ax < bx ==> ax * s + s <= bx * s) && (bx < ax ==> bx * s + s <= ax * s) && (ay < by
        ==> ay * s + s <= by * s) && (by < ay ==> by * s + s <= ay * s)) by (nonlinear_arith)
        requires
            s > 0,
    ;
}

/// Text that is no wider than the display stands in its middle, up to half a pixel.
pub proof fn text_is_centered(width: int)
    requires
        0 <= width <= DISPLAY_WIDTH,
    ensures
        ({
            let left = centered_start(width);
            let right = DISPLAY_WIDTH - (left + width);
            0 <= left <= right <= left + 1
        }),
{
}

/// The glyphs of centered text follow one another without gap or overlap, from the start of the
/// text to its end, and lie on the display if the text is no wider than it.
pub proof fn centered_glyphs_are_in_a_row(text: Seq<char>, scale: u32, top_y: i32, i: int)
    requires
        0 <= i < text.len(),
        0 < scale,
        text_width(title_font_metrics(), text.len() as int, scale as int) <= DISPLAY_WIDTH,
    ensures
        ({
            let width = text_width(title_font_metrics(), text.len() as int, scale as int);
            let row = centered_text(text, scale, top_y);
            &&& row[0]->Glyph_x == centered_start(width)
            &&& i + 1 < text.len() ==> row[i + 1]->Glyph_x == row[i]->Glyph_x + 10 * scale
            &&& row[text.len() - 1]->Glyph_x + 10 * scale == centered_start(width) + width
            &&& 0 <= row[i]->Glyph_x && row[i]->Glyph_x + 10 * scale <= DISPLAY_WIDTH
        }),
{
    let (n, s) = (text.len() as int, scale as int);
    let width = text_width(title_font_metrics(), n, s);
    fitting_text_can_be_centered(n, scale);
    assert(width == 10 * n * s);
    assert(glyph_column(n, scale, 0) == centered_start(width) + 0 * (10 * s));
    assert(glyph_column(n, scale, i) == centered_start(width) + i * (10 * s));
    assert(glyph_column(n, scale, n - 1) == centered_start(width) + (n - 1) * (10 * s));
    assert(i + 1 < n ==> glyph_column(n, scale, i + 1) == centered_start(width) + (i + 1) * (10
        * s));
    assert(0 * (10 * s) == 0);
    assert((n - 1) * (10 * s) + 10 * s == 10 * n * s) by (nonlinear_arith);
    assert((i + 1) * (10 * s) == i * (10 * s) + 10 * s) by (nonlinear_arith);
    assert(0 <= i * (10 * s) <= (n - 1) * (10 * s) && (i + 1 < n ==> (i + 1) * (10 * s) <= (n - 1)
        * (10 * s))) by (nonlinear_arith)
        requires
            0 <= i < n,
            s >= 0,
    ;
}

/// What a thing to draw stands for keeps all that it says, and a list keeps their order.
pub proof fn drawings_keep_what_is_to_be_drawn(ops: Seq<DrawOp>, i: int)
    requires
        0 <= i < ops.len(),
    ensures
        drawings(ops).len() == ops.len(),
        ops[i] is ClearBuffer ==> drawings(ops)[i] is ClearBuffer,
        ops[i] matches DrawOp::Fill { area, ink } ==> drawings(ops)[i] == (Drawing::Fill {
            area,
            ink,
        }),
        ops[i] matches DrawOp::Text { text, x, y, style } ==> drawings(ops)[i] == (Drawing::Text {
            text: text@,
            x,
            y,
            style,
        }),
        ops[i] matches DrawOp::Glyph { font, cell, x, y, scale } ==> drawings(ops)[i] == (
        Drawing::Glyph { font, cell, x, y, scale }),
{
}

/// Enlarged text of one character is as wide as its enlarged character, and each further character
/// adds the character and the spacing, enlarged.
pub proof fn text_width_grows_by_a_character(font: FontMetrics, count: int, scale: int)
    requires
        count >= 1,
    ensures
        text_width(font, 0, scale) == 0,
        text_width(font, 1, scale) == font.character_width * scale,
        text_width(font, count + 1, scale) == text_width(font, count, scale) + (
        font.character_width + font.character_spacing) * scale,
{
    let (w, g) = (font.character_width as int, font.character_spacing as int);
    assert(((w + g) * 1 - g) * scale == w * scale) by (nonlinear_arith);
    assert(((w + g) * (count + 1) - g) * scale == ((w + g) * count - g) * scale + (w + g) * scale)
        by (nonlinear_arith);
}

/// The cell of a glyph lies in its row of the image of the font that is given, on the grid of the
/// characters, and counting the cells row by row up to it gives the number of the glyph.
pub proof fn cell_holds_the_glyph(typeface: Typeface, index: int, scale: u32, x: i32, y: i32)
    requires
        0 < typeface.metrics.character_width <= typeface.metrics.image_width <= i32::MAX,
        0 < typeface.metrics.character_height,
        0 <= index,
        index * typeface.metrics.character_height <= i32::MAX,
    ensures
        ({
            let drawing = scaled_glyph(typeface, index, scale, x, y);
            let cell = drawing->cell;
            let (w, h) = (
                typeface.metrics.character_width as int,
                typeface.metrics.character_height as int,
            );
            let per_row = typeface.metrics.image_width as int / w;
            &&& drawing is Glyph && drawing->font == typeface.font && drawing->scale == scale
            &&& drawing->Glyph_x == x && drawing->Glyph_y == y
            &&& cell.width == w && cell.height == h
            &&& 0 <= cell.x && cell.x + w <= typeface.metrics.image_width && cell.x as int % w == 0
            &&& 0 <= cell.y && cell.y as int % h == 0
            &&& (cell.y as int / h) * per_row + cell.x as int / w == index
        }),
{
    let (w, h) = (
        typeface.metrics.character_width as int,
        typeface.metrics.character_height as int,
    );
    let iw = typeface.metrics.image_width as int;
    let p = iw / w;
    assert(p >= 1 && p * w <= iw) by (nonlinear_arith)
        requires
            0 < w <= iw,
            p == iw / w,
    ;
    let (c, r) = (index % p, index / p);
    assert(0 <= c < p && 0 <= r <= index && r * p + c == index) by (nonlinear_arith)
        requires
            p >= 1,
            index >= 0,
            c == index % p,
            r == index / p,
    ;
    assert(0 <= c * w && c * w + w <= iw) by (nonlinear_arith)
        requires
            0 <= c < p,
            w > 0,
            p * w <= iw,
    ;
    assert(0 <= r * h <= index * h) by (nonlinear_arith)
        requires
            0 <= r <= index,
            h > 0,
    ;
    vstd::arithmetic::div_mod::lemma_mod_multiples_basic(c, w);
    vstd::arithmetic::div_mod::lemma_mod_multiples_basic(r, h);
    vstd::arithmetic::div_mod::lemma_div_by_multiple(c, w);
    vstd::arithmetic::div_mod::lemma_div_by_multiple(r, h);
}

/// The glyphs of the title font follow the printable characters from the space on, sixteen to a row,
/// each 10 pixels wide and 20 high, and any other character has the glyph of the question mark.
pub proof fn glyphs_follow_the_characters(character: char)
    ensures
        0x20 <= character as int <= 0x7F ==> ascii_glyph(character) == character as int - 0x20,
        !(0x20 <= character as int <= 0x7F) ==> ascii_glyph(character) == 0x1F,
        title_font_metrics().character_width == 10,
        title_font_metrics().character_height == 20,
        title_font_metrics().character_spacing == 0,
        title_font_metrics().image_width == 160,
{
}

/// The number of the glyph that is drawn for a character.
pub open spec fn glyph_number(character: char) -> int {
    if 0x20 <= character as int <= 0x7F {
        character as int - 0x20
    } else {
        0x1F
    }
}

/// Centered text draws for each character, in order, its glyph out of the title font, at the height
/// that is asked for, one beside the other from the place on at which as much of the display is free
/// to the left as to the right, or from the left edge on if the text is wider than the display.
pub proof fn centered_text_in_full(text: Seq<char>, scale: u32, top_y: i32, i: int)
    requires
        0 <= i < text.len(),
        10 * text.len() * scale <= i32::MAX,
    ensures
        centered_text(text, scale, top_y).len() == text.len(),
        centered_text(text, scale, top_y)[i] == (Drawing::Glyph {
            font: Font::Title,
            cell: Area {
                x: (glyph_number(text[i]) % 16 * 10) as i32,
                y: (glyph_number(text[i]) / 16 * 20) as i32,
                width: 10,
                height: 20,
            },
            x: ((if 10 * text.len() * scale <= 400 {
                (400 - 10 * text.len() * scale) / 2
            } else {
                0
            }) + 10 * scale * i) as i32,
            y: top_y,
            scale,
        }),
{
    let (n, s) = (text.len() as int, scale as int);
    assert(10 * s <= 10 * n * s) by (nonlinear_arith)
        requires
            n >= 1,
            s >= 0,
    ;
    assert(text_width(title_font_metrics(), n, s) == 10 * n * s);
    let advance = ((title_font_metrics().character_width * scale) as u32) as i32;
    assert(advance == 10 * s);
    assert(i * (10 * s) == 10 * s * i) by (nonlinear_arith);
    assert(160int / 10int == 16);
}

/// A pixel of the display lies in the square of a pixel of an enlarged glyph exactly if its distance
/// from the corner of the glyph, divided by the scale, is that pixel.
pub proof fn enlarged_pixel_takes_its_share(
    offset_x: i32,
    offset_y: i32,
    scale: u32,
    pixel: (i32, i32),
    x: int,
    y: int,
)
    requires
        0 < scale <= i32::MAX,
        enlargeable(offset_x, scale, pixel.0),
        enlargeable(offset_y, scale, pixel.1),
    ensures
        enlarged_pixel(offset_x, offset_y, scale, pixel.0, pixel.1).covers(x, y) <==> (x - offset_x)
            / (scale as int) == pixel.0 && (y - offset_y) / (scale as int) == pixel.1,
        enlarged_pixel(offset_x, offset_y, scale, pixel.0, pixel.1).width == scale,
        enlarged_pixel(offset_x, offset_y, scale, pixel.0, pixel.1).height == scale,
{
    let s = scale as int;
    assert(scale as i32 == s);
    lemma_share(x - offset_x, s, pixel.0 as int);
    lemma_share(y - offset_y, s, pixel.1 as int);
}

proof fn lemma_share(distance: int, scale: int, coordinate: int)
    requires
        scale > 0,
    ensures
        coordinate * scale <= distance < coordinate * scale + scale <==> distance / scale
            == coordinate,
{
    let q = distance / scale;
    assert(q * scale <= distance < q * scale + scale) by (nonlinear_arith)
        requires
            scale > 0,
            q == distance / scale,
    ;
    if coordinate * scale <= distance < coordinate * scale + scale {
        assert(q == coordinate) by (nonlinear_arith)
            requires
                scale > 0,
                q * scale <= distance < q * scale + scale,
                coordinate * scale <= distance < coordinate * scale + scale,
        ;
    }
}

/// A pixel can be enlarged exactly if neither its distance from the corner of the glyph nor its place
/// leaves the signed numbers of 32 bits.
pub proof fn enlargeable_pixels_in_full(offset: i32, scale: u32, coordinate: i32)
    requires
        scale <= i32::MAX,
    ensures
        enlargeable(offset, scale, coordinate) <==> -0x8000_0000 <= coordinate * scale
            <= 0x7FFF_FFFF && -0x8000_0000 <= offset + coordinate * scale <= 0x7FFF_FFFF,
{
    assert(scale as i32 == scale);
}

/// The greeting clears the display and then spells the name of the maker in two rows of glyphs,
/// enlarged five times: five glyphs from column 75 on at the top, and six from column 50 on below.
pub proof fn splash_spells_the_name(i: int)
    requires
        0 <= i < 11,
    ensures
        splash().len() == 12,
        splash()[0] is ClearBuffer,
        splash()[i + 1] == (Drawing::Glyph {
            font: Font::Title,
            cell: Area {
                x: (glyph_number(
                    seq!['R', 'u', 'd', 'd', 'y', 'S', 'u', 'b', 's', 'e', 'a'][i],
                ) % 16 * 10) as i32,
                y: (glyph_number(
                    seq!['R', 'u', 'd', 'd', 'y', 'S', 'u', 'b', 's', 'e', 'a'][i],
                ) / 16 * 20) as i32,
                width: 10,
                height: 20,
            },
            x: (if i < 5 {
                75 + 50 * i
            } else {
                50 + 50 * (i - 5)
            }) as i32,
            y: if i < 5 {
                25
            } else {
                125
            },
            scale: 5,
        }),
{
    reveal_strlit("Ruddy");
    reveal_strlit("Subsea");
    if i < 5 {
        centered_text_in_full("Ruddy"@, 5, 25, i);
        assert(splash()[i + 1] == centered_text("Ruddy"@, 5, 25)[i]);
    } else {
        centered_text_in_full("Subsea"@, 5, 125, i - 5);
        assert(splash()[i + 1] == centered_text("Subsea"@, 5, 125)[i - 5]);
    }
}

/// A number of 32 bits taken as a signed one.
pub open spec fn signed_32(number: int) -> int {
    if number < 0x8000_0000 {
        number
    } else {
        number - 0x1_0000_0000
    }
}

proof fn lemma_signed_32(number: u32)
    ensures
        number as i32 == signed_32(number as int),
{
    assert(number as i32 == (if number < 0x8000_0000 {
        number as int
    } else {
        number - 0x1_0000_0000
    })) by (bit_vector);
}

/// Whatever the width of the text, its first glyph stands where the width, taken as a signed number
/// of 32 bits, leaves as much free to the left as to the right, or at the left edge, and each further
/// one an enlarged character on, taken as such a number too.
pub proof fn columns_are_evenly_spaced(count: int, scale: u32, i: int)
    requires
        count >= 1,
        10 * count * scale <= u32::MAX,
    ensures
        glyph_column(count, scale, 0) == (if signed_32(10 * count * scale) <= 400 {
            (400 - signed_32(10 * count * scale)) / 2
        } else {
            0
        }),
        glyph_column(count, scale, i + 1) - glyph_column(count, scale, i) == signed_32(10 * scale),
{
    let s = scale as int;
    assert(10 * s <= 10 * count * s) by (nonlinear_arith)
        requires
            count >= 1,
            s >= 0,
    ;
    assert(text_width(title_font_metrics(), count, s) == 10 * count * s);
    let width = (10 * count * s) as u32;
    let advance = (10 * s) as u32;
    lemma_signed_32(width);
    lemma_signed_32(advance);
    let step = (advance as i32) as int;
    assert((i + 1) * step == i * step + step) by (nonlinear_arith);
    assert(0 * step == 0);
}

/// Whatever the scale, an enlarged pixel stands from the corner of the glyph as far as its coordinates
/// times the scale, taken as a signed number of 32 bits, say.
pub proof fn enlarged_pixel_has_its_place(
    offset_x: i32,
    offset_y: i32,
    scale: u32,
    pixel: (i32, i32),
)
    requires
        enlargeable(offset_x, scale, pixel.0),
        enlargeable(offset_y, scale, pixel.1),
    ensures
        enlarged_pixel(offset_x, offset_y, scale, pixel.0, pixel.1).x == offset_x + pixel.0
            * signed_32(scale as int),
        enlarged_pixel(offset_x, offset_y, scale, pixel.0, pixel.1).y == offset_y + pixel.1
            * signed_32(scale as int),
{
    lemma_signed_32(scale);
}

} // verus!
