//! Text of bounded size, as the display fields hold it, and the lines that are written into it.
//! The storage is `heapless::String`, whose capacity `N` counts bytes of UTF-8.
use core::fmt::Write as _;

use vstd::prelude::*;

use crate::frame::SensorError;

verus! {

/// `heapless::String`, a string stored in place with room for `N` bytes.
#[verifier::external_type_specification]
#[verifier::external_body]
pub struct ExBoundedString<const N: usize>(heapless::String<N>);

/// The characters that a string with room for 16 bytes holds.
pub uninterp spec fn contents_16(line: heapless::String<16>) -> Seq<char>;

/// The characters that a string with room for 24 bytes holds.
pub uninterp spec fn contents_24(line: heapless::String<24>) -> Seq<char>;

/// The characters that a string with room for 32 bytes holds.
pub uninterp spec fn contents_32(line: heapless::String<32>) -> Seq<char>;

/// Text of bounded size, seen as its characters.
pub trait Line {
    /// The characters that the line holds.
    spec fn text(&self) -> Seq<char>;
}

impl Line for heapless::String<16> {
    open spec fn text(&self) -> Seq<char> {
        contents_16(*self)
    }
}

impl Line for heapless::String<24> {
    open spec fn text(&self) -> Seq<char> {
        contents_24(*self)
    }
}

impl Line for heapless::String<32> {
    open spec fn text(&self) -> Seq<char> {
        contents_32(*self)
    }
}

/// The number of bytes that `text` takes.
pub open spec fn byte_len(text: Seq<char>) -> nat {
    vstd::utf8::encode_utf8(text).len()
}

/// `heapless::String::new` with room for 16 bytes: the string holds nothing.
#[verifier::external_body]
pub(crate) fn new_line_16() -> (line: heapless::String<16>)
    ensures
        contents_16(line) == Seq::<char>::empty(),
{
    heapless::String::new()
}

/// `heapless::String::new` with room for 24 bytes: the string holds nothing.
#[verifier::external_body]
pub(crate) fn new_line_24() -> (line: heapless::String<24>)
    ensures
        contents_24(line) == Seq::<char>::empty(),
{
    heapless::String::new()
}

/// `heapless::String::new` with room for 32 bytes: the string holds nothing.
#[verifier::external_body]
pub(crate) fn new_line_32() -> (line: heapless::String<32>)
    ensures
        contents_32(line) == Seq::<char>::empty(),
{
    heapless::String::new()
}

/// `heapless::String::clear`: the string holds nothing afterwards.
#[verifier::external_body]
pub(crate) fn clear<const N: usize>(line: &mut heapless::String<N>) where heapless::String<N>: Line
    ensures
        final(line).text() == Seq::<char>::empty(),
{
    line.clear()
}

/// `heapless::String::as_str`: a slice of all that the string holds, which is never more than its
/// room for `N` bytes.
#[verifier::external_body]
pub(crate) fn as_str<const N: usize>(line: &heapless::String<N>) -> (slice: &str) where
    heapless::String<N>: Line,

    ensures
        slice@ == line.text(),
        byte_len(slice@) <= N,
{
    line.as_str()
}

/// `heapless::String::push_str`: the slice is appended if the bytes of both fit, and else the
/// string stays as it was and the call says so.
#[verifier::external_body]
pub(crate) fn push_str<const N: usize>(line: &mut heapless::String<N>, slice: &str) -> (done: Result<
    (),
    (),
>) where heapless::String<N>: Line
    ensures
        done is Ok <==> byte_len(old(line).text()) + byte_len(slice@) <= N,
        done is Ok ==> final(line).text() == old(line).text() + slice@,
        done is Err ==> final(line).text() == old(line).text(),
{
    line.push_str(slice)
}

/// Whether two slices hold the same characters.
pub(crate) fn same_text(a: &str, b: &str) -> (same: bool)
    ensures
        same == (a@ == b@),
{
    let count: usize = a.unicode_len();
    if count != b.unicode_len() {
        return false;
    }
    let mut i: usize = 0;
    while i < count
        invariant
            i <= count,
            count == a@.len(),
            count == b@.len(),
            forall|j: int| 0 <= j < i ==> a@[j] == b@[j],
        decreases count - i,
    {
        if a.get_char(i) != b.get_char(i) {
            return false;
        }
        i = i + 1;
    }
    assert(a@ =~= b@);
    true
}

/// The character for a digit below sixteen, with letters in upper case.
pub open spec fn digit_char(digit: nat) -> char {
    if digit < 10 {
        ('0' as int + digit) as char
    } else {
        ('A' as int + digit - 10) as char
    }
}

/// `number` in decimal notation.
pub open spec fn decimal(number: nat) -> Seq<char>
    decreases number,
{
    if number < 10 {
        seq![digit_char(number)]
    } else {
        decimal(number / 10).push(digit_char(number % 10))
    }
}

/// `number` in hexadecimal notation.
pub open spec fn hexadecimal(number: nat) -> Seq<char>
    decreases number,
{
    if number < 16 {
        seq![digit_char(number)]
    } else {
        hexadecimal(number / 16).push(digit_char(number % 16))
    }
}

/// `text` with as many `fill` in front of it as make it `width` characters long.
pub open spec fn pad_left(text: Seq<char>, width: nat, fill: char) -> Seq<char> {
    if text.len() < width {
        Seq::new((width - text.len()) as nat, |i: int| fill) + text
    } else {
        text
    }
}

/// `core::fmt` formatting of a character with `{}`, through the `core::fmt::Write` of
/// `heapless::String`: the character is appended, where there is room for it.
#[verifier::external_body]
pub(crate) fn write_char<const N: usize>(line: &mut heapless::String<N>, character: char) where
    heapless::String<N>: Line,

    requires
        byte_len(old(line).text()) + byte_len(seq![character]) <= N,
    ensures
        final(line).text() == old(line).text().push(character),
{
    let _ = write!(line, "{}", character);
}

/// `core::fmt` formatting of a number with a zero flag and a width, through the
/// `core::fmt::Write` of `heapless::String`: its decimal notation, filled with zeros in front up
/// to the width, is appended, where there is room for it.
#[verifier::external_body]
pub(crate) fn write_zero_padded<const N: usize>(
    line: &mut heapless::String<N>,
    number: u32,
    width: usize,
) where heapless::String<N>: Line
    requires
        byte_len(old(line).text()) + pad_left(decimal(number as nat), width as nat, '0').len() <= N,
    ensures
        final(line).text() == old(line).text() + pad_left(decimal(number as nat), width as nat, '0'),
{
    let _ = write!(line, "{:01$}", number, width);
}

/// `core::fmt` formatting of a number aligned to the right in a width, through the
/// `core::fmt::Write` of `heapless::String`: its decimal notation, filled with spaces in front up
/// to the width, is appended, where there is room for it.
#[verifier::external_body]
pub(crate) fn write_right_aligned<const N: usize>(
    line: &mut heapless::String<N>,
    number: u32,
    width: usize,
) where heapless::String<N>: Line
    requires
        byte_len(old(line).text()) + pad_left(decimal(number as nat), width as nat, ' ').len() <= N,
    ensures
        final(line).text() == old(line).text() + pad_left(decimal(number as nat), width as nat, ' '),
{
    let _ = write!(line, "{:>1$}", number, width);
}

/// `core::fmt` formatting of a number in upper case hexadecimal with a zero flag and a width,
/// through the `core::fmt::Write` of `heapless::String`: its hexadecimal notation, filled with
/// zeros in front up to the width, is appended, where there is room for it.
#[verifier::external_body]
pub(crate) fn write_upper_hex<const N: usize>(
    line: &mut heapless::String<N>,
    number: u16,
    width: usize,
) where heapless::String<N>: Line
    requires
        byte_len(old(line).text()) + pad_left(hexadecimal(number as nat), width as nat, '0').len()
            <= N,
    ensures
        final(line).text() == old(line).text() + pad_left(
            hexadecimal(number as nat),
            width as nat,
            '0',
        ),
{
    let _ = write!(line, "{:01$X}", number, width);
}

/// The bytes of joined text are those of its parts.
pub proof fn lemma_byte_len_joined(a: Seq<char>, b: Seq<char>)
    ensures
        byte_len(a + b) == byte_len(a) + byte_len(b),
    decreases a.len(),
{
    if a.len() == 0 {
        assert(a + b =~= b);
    } else {
        lemma_byte_len_joined(a.drop_first(), b);
        assert((a + b).drop_first() =~= a.drop_first() + b);
    }
}

/// A character takes at most four bytes.
proof fn lemma_byte_len_of_char(c: char)
    ensures
        byte_len(seq![c]) <= 4,
{
    reveal_with_fuel(vstd::utf8::encode_utf8, 2);
}

/// Text of ASCII characters takes one byte for each.
pub proof fn lemma_byte_len_ascii(text: Seq<char>)
    requires
        forall|i: int| 0 <= i < text.len() ==> (#[trigger] text[i] as u32) < 0x80,
    ensures
        byte_len(text) == text.len(),
    decreases text.len(),
{
    if text.len() > 0 {
        let rest = text.drop_first();
        assert forall|i: int| 0 <= i < rest.len() implies (#[trigger] rest[i] as u32) < 0x80 by {
            assert(rest[i] == text[i + 1]);
        }
        lemma_byte_len_ascii(rest);
        assert((text[0] as u32) < 0x80);
    }
}

/// Ten to the power of `exponent`.
pub open spec fn power_of_ten(exponent: nat) -> nat
    decreases exponent,
{
    if exponent == 0 {
        1
    } else {
        10 * power_of_ten((exponent - 1) as nat)
    }
}

/// A number below the power of ten has at most so many digits, all of them ASCII.
proof fn lemma_decimal(number: nat, count: nat)
    requires
        count >= 1,
        number < power_of_ten(count),
    ensures
        1 <= decimal(number).len() <= count,
        forall|i: int|
            0 <= i < decimal(number).len() ==> '0' <= #[trigger] decimal(number)[i] <= '9',
    decreases count,
{
    if number >= 10 {
        reveal_with_fuel(power_of_ten, 2);
        lemma_decimal(number / 10, (count - 1) as nat);
    }
}

/// Filled decimal notation takes one byte for each character.
proof fn lemma_padded_decimal(number: nat, count: nat, width: nat, fill: char)
    requires
        1 <= count,
        number < power_of_ten(count),
        (fill as u32) < 0x80,
    ensures
        1 <= pad_left(decimal(number), width, fill).len() <= (if count < width {
            width
        } else {
            count
        }),
        width <= pad_left(decimal(number), width, fill).len(),
        byte_len(pad_left(decimal(number), width, fill)) == pad_left(
            decimal(number),
            width,
            fill,
        ).len(),
{
    lemma_decimal(number, count);
    lemma_byte_len_ascii(pad_left(decimal(number), width, fill));
}

/// The angle in hundredths of a degree for a raw reading: 16384 steps make 90 degrees, and what is
/// left of a hundredth is cut off.
pub open spec fn centi_degrees(raw: int) -> int {
    if raw >= 0 {
        raw * 9000 / 16384
    } else {
        -((-raw) * 9000 / 16384)
    }
}

/// The absolute value of `number`.
pub open spec fn magnitude(number: int) -> nat {
    if number < 0 {
        (-number) as nat
    } else {
        number as nat
    }
}

/// The line that shows the angle of an axis, in degrees with two decimals and a sign.
pub open spec fn axis_line(axis: char, raw: int) -> Seq<char> {
    let angle = centi_degrees(raw);
    let sign = if angle < 0 {
        '-'
    } else {
        '+'
    };
    seq![axis] + ": "@ + seq![sign] + decimal(magnitude(angle) / 100) + "."@ + pad_left(
        decimal(magnitude(angle) % 100),
        2,
        '0',
    )
}

/// Writes the line that shows the angle of an axis.
pub fn format_axis_line(axis: char, raw: i16) -> (line: heapless::String<32>)
    ensures
        line.text() == axis_line(axis, raw as int),
{
    let mut line = new_line_32();
    let centi_degrees: i32 = (raw as i32 * 9000) / 16384;
    let sign: char = if centi_degrees < 0 {
        '-'
    } else {
        '+'
    };
    let magnitude: u32 = if centi_degrees < 0 {
        (-centi_degrees) as u32
    } else {
        centi_degrees as u32
    };
    proof {
        reveal_strlit(": ");
        reveal_strlit(".");
        reveal_with_fuel(power_of_ten, 4);
        lemma_byte_len_of_char(axis);
        lemma_byte_len_ascii(": "@);
        lemma_byte_len_ascii("."@);
        lemma_byte_len_ascii(seq![sign]);
        lemma_padded_decimal((magnitude / 100) as nat, 3, 0, '0');
        lemma_padded_decimal((magnitude % 100) as nat, 2, 2, '0');
    }
    let ghost whole = pad_left(decimal((magnitude / 100) as nat), 0, '0');
    let ghost part1 = seq![axis];
    let ghost part2 = part1 + ": "@;
    let ghost part3 = part2 + seq![sign];
    let ghost part4 = part3 + whole;
    let ghost part5 = part4 + "."@;
    proof {
        assert(byte_len(Seq::<char>::empty()) == 0);
        lemma_byte_len_joined(part1, ": "@);
        lemma_byte_len_joined(part2, seq![sign]);
        lemma_byte_len_joined(part3, whole);
        lemma_byte_len_joined(part4, "."@);
    }
    write_char(&mut line, axis);
    assert(line.text() =~= part1);
    let _ = push_str(&mut line, ": ");
    write_char(&mut line, sign);
    assert(line.text() =~= part3);
    write_zero_padded(&mut line, magnitude / 100, 0);
    let _ = push_str(&mut line, ".");
    write_zero_padded(&mut line, magnitude % 100, 2);
    line
}

/// The line that shows how often the display was refreshed, by the last five digits.
pub open spec fn refresh_line(refresh_count: u32) -> Seq<char> {
    "R"@ + pad_left(decimal((refresh_count % 100_000) as nat), 5, '0')
}

/// Writes the line that shows how often the display was refreshed.
pub fn format_refresh_line(refresh_count: u32) -> (line: heapless::String<16>)
    ensures
        line.text() == refresh_line(refresh_count),
{
    let mut line = new_line_16();
    proof {
        reveal_strlit("R");
        reveal_with_fuel(power_of_ten, 6);
        lemma_byte_len_ascii("R"@);
        lemma_padded_decimal((refresh_count % 100_000) as nat, 5, 5, '0');
        assert(byte_len(Seq::<char>::empty()) == 0);
    }
    let _ = push_str(&mut line, "R");
    assert(line.text() =~= "R"@);
    write_zero_padded(&mut line, refresh_count % 100_000, 5);
    line
}

/// The line that shows how long something took, after a label.
pub open spec fn timing_line(label: Seq<char>, micros: u32) -> Seq<char> {
    label + pad_left(decimal(micros as nat), 7, ' ') + "us"@
}

/// Writes the line that shows how long something took, after a label.
pub fn format_timing_line(label: &str, micros: u32) -> (line: heapless::String<24>)
    requires
        byte_len(label@) <= 12,
    ensures
        line.text() == timing_line(label@, micros),
{
    let mut line = new_line_24();
    let ghost number = pad_left(decimal(micros as nat), 7, ' ');
    proof {
        reveal_strlit("us");
        reveal_with_fuel(power_of_ten, 11);
        lemma_byte_len_ascii("us"@);
        lemma_padded_decimal(micros as nat, 10, 7, ' ');
        lemma_byte_len_joined(label@, number);
        assert(byte_len(Seq::<char>::empty()) == 0);
    }
    let _ = push_str(&mut line, label);
    assert(line.text() =~= label@);
    write_right_aligned(&mut line, micros, 7);
    let _ = push_str(&mut line, "us");
    line
}

/// What a sensor error is called on the display.
pub open spec fn error_message(error: SensorError) -> Seq<char> {
    match error {
        SensorError::Spi => "SPI transfer failed"@,
        SensorError::Crc => "CRC mismatch"@,
        SensorError::UnexpectedResponse => "off-frame mismatch"@,
        SensorError::StartupStatus(status) => if status == 0 {
            "startup in progress"@
        } else if status == 1 {
            "status says ok"@
        } else if status == 3 {
            "status flag set"@
        } else {
            "status reserved"@
        },
        SensorError::WhoAmI(_) => "WHOAMI mismatch"@,
    }
}

/// What the display says of a sensor error beyond its name: the identification that was read, in
/// hexadecimal, if that was amiss.
pub open spec fn error_detail(error: SensorError) -> Seq<char> {
    match error {
        SensorError::WhoAmI(value) => "whoami=0x"@ + pad_left(hexadecimal(value as nat), 4, '0'),
        _ => Seq::empty(),
    }
}

/// The two lines that the display has for a sensor error.
pub fn format_sensor_error(error: SensorError) -> (lines: (&'static str, heapless::String<32>))
    ensures
        lines.0@ == error_message(error),
        lines.1.text() == error_detail(error),
{
    let mut detail = new_line_32();
    let message: &'static str = match error {
        SensorError::Spi => "SPI transfer failed",
        SensorError::Crc => "CRC mismatch",
        SensorError::UnexpectedResponse => "off-frame mismatch",
        SensorError::StartupStatus(0) => "startup in progress",
        SensorError::StartupStatus(1) => "status says ok",
        SensorError::StartupStatus(3) => "status flag set",
        SensorError::StartupStatus(_) => "status reserved",
        SensorError::WhoAmI(value) => {
            proof {
                reveal_strlit("whoami=0x");
                lemma_byte_len_ascii("whoami=0x"@);
                reveal_with_fuel(hexadecimal, 5);
                assert(byte_len(Seq::<char>::empty()) == 0);
            }
            let _ = push_str(&mut detail, "whoami=0x");
            assert(detail.text() =~= "whoami=0x"@);
            write_upper_hex(&mut detail, value, 4);
            "WHOAMI mismatch"
        },
    };
    (message, detail)
}

/// The line of an axis fits its field, whatever the character that names the axis, and is never
/// empty.
pub proof fn axis_line_fits(axis: char, raw: i16)
    ensures
        0 < axis_line(axis, raw as int).len() <= 10,
        byte_len(axis_line(axis, raw as int)) <= 32,
{
    let angle = centi_degrees(raw as int);
    let sign = if angle < 0 {
        '-'
    } else {
        '+'
    };
    let whole = decimal(magnitude(angle) / 100);
    let part = pad_left(decimal(magnitude(angle) % 100), 2, '0');
    reveal_strlit(": ");
    reveal_strlit(".");
    reveal_with_fuel(power_of_ten, 4);
    lemma_byte_len_of_char(axis);
    lemma_byte_len_ascii(": "@);
    lemma_byte_len_ascii("."@);
    lemma_byte_len_ascii(seq![sign]);
    lemma_decimal(magnitude(angle) / 100, 3);
    lemma_byte_len_ascii(whole);
    lemma_padded_decimal(magnitude(angle) % 100, 2, 2, '0');
    lemma_byte_len_joined(seq![axis], ": "@);
    lemma_byte_len_joined(seq![axis] + ": "@, seq![sign]);
    lemma_byte_len_joined(seq![axis] + ": "@ + seq![sign], whole);
    lemma_byte_len_joined(seq![axis] + ": "@ + seq![sign] + whole, "."@);
    lemma_byte_len_joined(seq![axis] + ": "@ + seq![sign] + whole + "."@, part);
}

/// The line of the refresh count fits its field and always has six characters.
pub proof fn refresh_line_fits(refresh_count: u32)
    ensures
        refresh_line(refresh_count).len() == 6,
        byte_len(refresh_line(refresh_count)) == 6,
{
    let number = pad_left(decimal((refresh_count % 100_000) as nat), 5, '0');
    reveal_strlit("R");
    reveal_with_fuel(power_of_ten, 6);
    lemma_byte_len_ascii("R"@);
    lemma_padded_decimal((refresh_count % 100_000) as nat, 5, 5, '0');
    lemma_byte_len_joined("R"@, number);
}

/// The line of a timing fits its field and is never empty, if its label leaves the room.
pub proof fn timing_line_fits(label: Seq<char>, micros: u32)
    requires
        byte_len(label) <= 12,
    ensures
        0 < timing_line(label, micros).len() <= label.len() + 12,
        byte_len(timing_line(label, micros)) <= 24,
{
    let number = pad_left(decimal(micros as nat), 7, ' ');
    reveal_strlit("us");
    reveal_with_fuel(power_of_ten, 11);
    lemma_byte_len_ascii("us"@);
    lemma_padded_decimal(micros as nat, 10, 7, ' ');
    lemma_byte_len_joined(label, number);
    lemma_byte_len_joined(label + number, "us"@);
}

/// The lines of a sensor error fit their fields, and the first is never empty.
pub proof fn error_lines_fit(error: SensorError)
    ensures
        0 < error_message(error).len() <= 19,
        error_detail(error).len() <= 13,
        byte_len(error_message(error)) <= 32,
        byte_len(error_detail(error)) <= 32,
{
    reveal_strlit("SPI transfer failed");
    reveal_strlit("CRC mismatch");
    reveal_strlit("off-frame mismatch");
    reveal_strlit("startup in progress");
    reveal_strlit("status says ok");
    reveal_strlit("status flag set");
    reveal_strlit("status reserved");
    reveal_strlit("WHOAMI mismatch");
    reveal_strlit("whoami=0x");
    reveal_with_fuel(hexadecimal, 5);
    lemma_byte_len_ascii(error_message(error));
    lemma_byte_len_ascii(error_detail(error));
}

/// The shown angle is the exact one with the rest of a hundredth of a degree cut off, so it is
/// never further from zero and off by less than a hundredth; and it stays within 180 degrees.
pub proof fn angle_is_cut_off(raw: i16)
    ensures
        magnitude(centi_degrees(raw as int)) * 16384 <= magnitude(raw as int) * 9000,
        magnitude(raw as int) * 9000 < (magnitude(centi_degrees(raw as int)) + 1) * 16384,
        -18000 <= centi_degrees(raw as int) <= 17999,
{
}

/// A larger reading is never shown as a smaller angle.
pub proof fn angle_is_monotone(a: i16, b: i16)
    requires
        a <= b,
    ensures
        centi_degrees(a as int) <= centi_degrees(b as int),
{
}

/// Opposite readings are shown as opposite angles.
pub proof fn angle_is_odd(raw: int)
    ensures
        centi_degrees(-raw) == -centi_degrees(raw),
{
}

/// The number that a row of decimal digits spells.
pub open spec fn decimal_value(text: Seq<char>) -> int
    decreases text.len(),
{
    if text.len() == 0 {
        0
    } else {
        10 * decimal_value(text.drop_last()) + (text.last() as int - '0' as int)
    }
}

/// Decimal notation spells the number that it stands for.
pub proof fn decimal_spells_the_number(number: nat)
    ensures
        decimal_value(decimal(number)) == number,
    decreases number,
{
    if number < 10 {
        reveal_with_fuel(decimal_value, 2);
        assert(decimal(number).drop_last().len() == 0);
    } else {
        decimal_spells_the_number(number / 10);
        assert(decimal(number).drop_last() =~= decimal(number / 10));
    }
}

/// Filled decimal notation is determined by the number and determines it.
proof fn lemma_padded_decimal_injective(a: nat, b: nat, width: nat, fill: char)
    requires
        a <= u32::MAX,
        b <= u32::MAX,
        fill == ' ' || fill == '0',
        pad_left(decimal(a), width, fill) == pad_left(decimal(b), width, fill),
    ensures
        a == b,
{
    reveal_with_fuel(power_of_ten, 11);
    lemma_decimal(a, 10);
    lemma_decimal(b, 10);
    lemma_pad_keeps_value(decimal(a), width, fill);
    lemma_pad_keeps_value(decimal(b), width, fill);
    decimal_spells_the_number(a);
    decimal_spells_the_number(b);
}

/// The number that a row of decimal digits spells behind any fill.
pub open spec fn value_behind_fill(text: Seq<char>) -> int
    decreases text.len(),
{
    if text.len() == 0 {
        0
    } else {
        10 * value_behind_fill(text.drop_last()) + (if text.last() == ' ' {
            0
        } else {
            text.last() as int - '0' as int
        })
    }
}

proof fn lemma_pad_keeps_value(text: Seq<char>, width: nat, fill: char)
    requires
        fill == ' ' || fill == '0',
        forall|i: int| 0 <= i < text.len() ==> '0' <= #[trigger] text[i] <= '9',
    ensures
        value_behind_fill(pad_left(text, width, fill)) == decimal_value(text),
    decreases text.len() + width,
{
    let padded = pad_left(text, width, fill);
    if text.len() == 0 {
        if width > 0 {
            lemma_pad_keeps_value(text, (width - 1) as nat, fill);
            assert(padded.drop_last() =~= pad_left(text, (width - 1) as nat, fill));
        }
    } else {
        let shorter = text.drop_last();
        let narrower = if width > 0 {
            (width - 1) as nat
        } else {
            0
        };
        lemma_pad_keeps_value(shorter, narrower, fill);
        assert(padded.drop_last() =~= pad_left(shorter, narrower, fill));
        assert(padded.last() == text.last());
    }
}

/// The line of an axis shows the angle: two readings give the same line exactly if they stand for
/// the same hundredth of a degree.
pub proof fn axis_line_shows_the_angle(axis: char, a: i16, b: i16)
    ensures
        axis_line(axis, a as int) == axis_line(axis, b as int) <==> centi_degrees(a as int)
            == centi_degrees(b as int),
{
    if axis_line(axis, a as int) == axis_line(axis, b as int) {
        let (va, vb) = (centi_degrees(a as int), centi_degrees(b as int));
        let (la, lb) = (axis_line(axis, a as int), axis_line(axis, b as int));
        let (ma, mb) = (magnitude(va), magnitude(vb));
        reveal_strlit(": ");
        reveal_strlit(".");
        reveal_with_fuel(power_of_ten, 4);
        lemma_decimal(ma / 100, 3);
        lemma_decimal(mb / 100, 3);
        lemma_padded_decimal(ma % 100, 2, 2, '0');
        lemma_padded_decimal(mb % 100, 2, 2, '0');
        assert(la[3] == lb[3]);
        let whole_a = decimal(ma / 100);
        let whole_b = decimal(mb / 100);
        assert(la.len() == whole_a.len() + 7 && lb.len() == whole_b.len() + 7);
        assert(whole_a =~= la.subrange(4, 4 + whole_a.len() as int));
        assert(whole_b =~= lb.subrange(4, 4 + whole_b.len() as int));
        decimal_spells_the_number(ma / 100);
        decimal_spells_the_number(mb / 100);
        let part_a = pad_left(decimal(ma % 100), 2, '0');
        let part_b = pad_left(decimal(mb % 100), 2, '0');
        assert(part_a =~= la.subrange(la.len() - 2, la.len() as int));
        assert(part_b =~= lb.subrange(lb.len() - 2, lb.len() as int));
        lemma_padded_decimal_injective(ma % 100, mb % 100, 2, '0');
        assert(ma == mb);
    }
}

/// The refresh line repeats after exactly 100000 refreshes.
pub proof fn refresh_line_counts_to_100000(a: u32, b: u32)
    ensures
        refresh_line(a) == refresh_line(b) <==> a % 100_000 == b % 100_000,
{
    if refresh_line(a) == refresh_line(b) {
        let na = pad_left(decimal((a % 100_000) as nat), 5, '0');
        let nb = pad_left(decimal((b % 100_000) as nat), 5, '0');
        reveal_strlit("R");
        assert(na =~= refresh_line(a).skip(1));
        assert(nb =~= refresh_line(b).skip(1));
        lemma_padded_decimal_injective((a % 100_000) as nat, (b % 100_000) as nat, 5, '0');
    }
}

/// The line of a timing shows it: under one label, two timings give the same line only if they
/// are the same.
pub proof fn timing_line_shows_the_timing(label: Seq<char>, a: u32, b: u32)
    ensures
        timing_line(label, a) == timing_line(label, b) <==> a == b,
{
    if timing_line(label, a) == timing_line(label, b) {
        let (la, lb) = (timing_line(label, a), timing_line(label, b));
        let na = pad_left(decimal(a as nat), 7, ' ');
        let nb = pad_left(decimal(b as nat), 7, ' ');
        reveal_strlit("us");
        assert(na =~= la.subrange(label.len() as int, la.len() - 2));
        assert(nb =~= lb.subrange(label.len() as int, lb.len() - 2));
        lemma_padded_decimal_injective(a as nat, b as nat, 7, ' ');
    }
}

/// Decimal notation has no needless zero in front.
pub proof fn decimal_has_no_needless_zero(number: nat)
    ensures
        decimal(number).len() > 0,
        decimal(number)[0] == '0' <==> number == 0,
        number == 0 ==> decimal(number).len() == 1,
        forall|i: int|
            0 <= i < decimal(number).len() ==> '0' <= #[trigger] decimal(number)[i] <= '9',
    decreases number,
{
    if number >= 10 {
        decimal_has_no_needless_zero(number / 10);
    }
}

/// The angle that a line shows, in hundredths of a degree: the sign stands fourth, the degrees up to
/// the point, and two digits behind it.
pub open spec fn shown_angle(line: Seq<char>) -> int {
    let n = line.len() as int;
    let size = 100 * decimal_value(line.subrange(4, n - 3)) + 10 * (line[n - 2] as int - '0' as int)
        + (line[n - 1] as int - '0' as int);
    if line[3] == '-' {
        -size
    } else {
        size
    }
}

/// The line is made like `X: +12.34`: the axis, a colon and a space, the sign, which is a minus or a
/// plus, one to three digits without a needless zero in front, a point and two digits.
pub open spec fn is_angle_line(line: Seq<char>, axis: char) -> bool {
    let n = line.len() as int;
    &&& 8 <= n <= 10
    &&& line[0] == axis && line[1] == ':' && line[2] == ' '
    &&& line[3] == '-' || line[3] == '+'
    &&& line[n - 3] == '.'
    &&& forall|i: int| 4 <= i < n && i != n - 3 ==> '0' <= #[trigger] line[i] <= '9'
    &&& n > 8 ==> line[4] != '0'
}

/// The line of an axis, read back, gives the angle: the largest number of hundredths of a degree
/// that is no further from zero than the reading, at 16384 steps to 90 degrees, on the side of zero
/// on which the reading is. The sign is a minus exactly if the angle that is shown is below zero.
pub proof fn axis_line_reads_back(axis: char, raw: i16)
    ensures
        is_angle_line(axis_line(axis, raw as int), axis),
        axis_line(axis, raw as int)[3] == '-' <==> shown_angle(axis_line(axis, raw as int)) < 0,
        shown_angle(axis_line(axis, raw as int)) == centi_degrees(raw as int),
        raw >= 0 ==> shown_angle(axis_line(axis, raw as int)) * 16384 <= raw * 9000 < (shown_angle(
            axis_line(axis, raw as int),
        ) + 1) * 16384,
        raw <= 0 ==> (shown_angle(axis_line(axis, raw as int)) - 1) * 16384 < raw * 9000
            <= shown_angle(axis_line(axis, raw as int)) * 16384,
{
    let angle = centi_degrees(raw as int);
    let size = magnitude(angle);
    let whole = decimal(size / 100);
    let part = pad_left(decimal(size % 100), 2, '0');
    let line = axis_line(axis, raw as int);
    reveal_strlit(": ");
    reveal_strlit(".");
    reveal_with_fuel(power_of_ten, 4);
    lemma_decimal(size / 100, 3);
    decimal_has_no_needless_zero(size / 100);
    decimal_spells_the_number(size / 100);
    lemma_two_digits(size % 100);
    assert(line.len() == whole.len() + 7);
    assert(line.subrange(4, line.len() - 3) =~= whole);
    assert(line[line.len() - 2] == part[0]);
    assert(line[line.len() - 1] == part[1]);
    assert forall|i: int| 4 <= i < line.len() && i != line.len() - 3 implies '0'
        <= #[trigger] line[i] <= '9' by {
        if i < line.len() - 3 {
            assert(line[i] == whole[i - 4]);
        }
    }
    assert(line[4] == whole[0]);
}

proof fn lemma_two_digits(number: nat)
    requires
        number < 100,
    ensures
        pad_left(decimal(number), 2, '0').len() == 2,
        '0' <= pad_left(decimal(number), 2, '0')[0] <= '9',
        '0' <= pad_left(decimal(number), 2, '0')[1] <= '9',
        10 * (pad_left(decimal(number), 2, '0')[0] as int - '0' as int) + (pad_left(
            decimal(number),
            2,
            '0',
        )[1] as int - '0' as int) == number,
{
    reveal_with_fuel(decimal, 2);
}

/// The refresh line is an `R` and five digits that spell the count up to hundred thousands.
pub proof fn refresh_line_reads_back(refresh_count: u32)
    ensures
        refresh_line(refresh_count).len() == 6,
        refresh_line(refresh_count)[0] == 'R',
        forall|i: int| 1 <= i < 6 ==> '0' <= #[trigger] refresh_line(refresh_count)[i] <= '9',
        decimal_value(refresh_line(refresh_count).skip(1)) == refresh_count % 100_000,
{
    let count = (refresh_count % 100_000) as nat;
    let number = pad_left(decimal(count), 5, '0');
    let line = refresh_line(refresh_count);
    reveal_strlit("R");
    refresh_line_fits(refresh_count);
    reveal_with_fuel(power_of_ten, 6);
    lemma_decimal(count, 5);
    decimal_spells_the_number(count);
    lemma_pad_keeps_value(decimal(count), 5, '0');
    assert(line.skip(1) =~= number);
    assert forall|i: int| 1 <= i < 6 implies '0' <= #[trigger] line[i] <= '9' by {
        assert(line[i] == number[i - 1]);
    }
    lemma_digits_behind_no_fill(number);
}

proof fn lemma_digits_behind_no_fill(text: Seq<char>)
    requires
        forall|i: int| 0 <= i < text.len() ==> '0' <= #[trigger] text[i] <= '9',
    ensures
        value_behind_fill(text) == decimal_value(text),
    decreases text.len(),
{
    if text.len() > 0 {
        lemma_digits_behind_no_fill(text.drop_last());
    }
}

/// A number aligned to the right: at least seven characters, spaces in front and only in front, and
/// only as many as make it seven, then digits, without a needless zero in front.
pub open spec fn is_aligned_number(text: Seq<char>) -> bool {
    let n = text.len() as int;
    &&& n >= 7
    &&& n > 7 ==> text[0] != ' '
    &&& '0' <= text[n - 1] <= '9'
    &&& forall|i: int| 0 <= i < n ==> #[trigger] text[i] == ' ' || '0' <= text[i] <= '9'
    &&& forall|i: int, j: int|
        0 <= i < j < n && #[trigger] text[j] == ' ' ==> #[trigger] text[i] == ' '
    &&& forall|i: int|
        0 <= i < n - 1 && #[trigger] text[i] == '0' ==> i > 0 && text[i - 1] != ' '
}

/// The line of a timing is its label, the number of microseconds aligned to the right, and `us`.
pub proof fn timing_line_reads_back(label: Seq<char>, micros: u32)
    ensures
        timing_line(label, micros).len() >= label.len() + 9,
        timing_line(label, micros).take(label.len() as int) == label,
        timing_line(label, micros)[timing_line(label, micros).len() - 2] == 'u',
        timing_line(label, micros)[timing_line(label, micros).len() - 1] == 's',
        is_aligned_number(
            timing_line(label, micros).subrange(
                label.len() as int,
                timing_line(label, micros).len() - 2,
            ),
        ),
        value_behind_fill(
            timing_line(label, micros).subrange(
                label.len() as int,
                timing_line(label, micros).len() - 2,
            ),
        ) == micros,
{
    let digits = decimal(micros as nat);
    let number = pad_left(digits, 7, ' ');
    let line = timing_line(label, micros);
    reveal_strlit("us");
    decimal_has_no_needless_zero(micros as nat);
    decimal_spells_the_number(micros as nat);
    lemma_pad_keeps_value(digits, 7, ' ');
    assert(line.take(label.len() as int) =~= label);
    assert(line.subrange(label.len() as int, line.len() - 2) =~= number);
    let k = number.len() - digits.len();
    assert forall|i: int| 0 <= i < number.len() implies #[trigger] number[i] == (if i < k {
        ' '
    } else {
        digits[i - k]
    }) by {}
    assert forall|i: int| 0 <= i < number.len() - 1 && #[trigger] number[i] == '0' implies i > 0
        && number[i - 1] != ' ' by {
        assert(i >= k);
        if i == k {
            assert(digits[0] == '0');
        } else {
            assert(number[i - 1] == digits[i - 1 - k]);
        }
    }
}

/// The value of a hexadecimal digit, with letters in upper case.
pub open spec fn hexadecimal_digit(digit: char) -> int {
    if '0' <= digit <= '9' {
        digit as int - '0' as int
    } else if 'A' <= digit <= 'F' {
        digit as int - 'A' as int + 10
    } else {
        16
    }
}

/// The detail of a foreign identification is `whoami=0x` and four hexadecimal digits, in upper case,
/// that spell what was read.
pub proof fn identification_reads_back(value: u16)
    ensures
        error_detail(SensorError::WhoAmI(value)).len() == 13,
        error_detail(SensorError::WhoAmI(value)).take(9) == seq![
            'w', 'h', 'o', 'a', 'm', 'i', '=', '0', 'x',
        ],
        forall|i: int|
            9 <= i < 13 ==> 0 <= hexadecimal_digit(
                #[trigger] error_detail(SensorError::WhoAmI(value))[i],
            ) < 16,
        value == 0x1000 * hexadecimal_digit(error_detail(SensorError::WhoAmI(value))[9]) + 0x100
            * hexadecimal_digit(error_detail(SensorError::WhoAmI(value))[10]) + 0x10
            * hexadecimal_digit(error_detail(SensorError::WhoAmI(value))[11]) + hexadecimal_digit(
            error_detail(SensorError::WhoAmI(value))[12],
        ),
{
    reveal_strlit("whoami=0x");
    reveal_with_fuel(hexadecimal, 5);
    let v = value as nat;
    let line = error_detail(SensorError::WhoAmI(value));
    let digits = pad_left(hexadecimal(v), 4, '0');
    assert(digits.len() == 4);
    assert(line.take(9) =~= "whoami=0x"@);
    assert(line[9] == digits[0] && line[10] == digits[1] && line[11] == digits[2] && line[12]
        == digits[3]);
    assert(digits[3] == digit_char(v % 16));
    assert(digits[2] == digit_char(v / 16 % 16));
    assert(digits[1] == digit_char(v / 16 / 16 % 16));
    assert(digits[0] == digit_char(v / 16 / 16 / 16));
}

/// The display names each error by its own words, and has a detail for a foreign identification
/// alone.
pub proof fn errors_are_named(error: SensorError)
    ensures
        error == SensorError::Spi ==> error_message(error) == "SPI transfer failed"@,
        error == SensorError::Crc ==> error_message(error) == "CRC mismatch"@,
        error == SensorError::UnexpectedResponse ==> error_message(error) == "off-frame mismatch"@,
        error == SensorError::StartupStatus(0) ==> error_message(error) == "startup in progress"@,
        error == SensorError::StartupStatus(1) ==> error_message(error) == "status says ok"@,
        error == SensorError::StartupStatus(3) ==> error_message(error) == "status flag set"@,
        error matches SensorError::StartupStatus(status) ==> (status == 2 || status > 3
            ==> error_message(error) == "status reserved"@),
        error is WhoAmI ==> error_message(error) == "WHOAMI mismatch"@,
        !(error is WhoAmI) ==> error_detail(error).len() == 0,
{
}

} // verus!
