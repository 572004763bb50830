//! Colours with red, green, blue and alpha channels, and their text form
//! `#rrggbbaa`.

use crate::text::{hex_byte, hex_char, push_hex_byte};
use vstd::prelude::*;
use vstd::string::StringExecFns;
use vstd::string::StrSliceExecFns;
use vstd::utf8::is_ascii_chars;

verus! {

/// A colour of four 8-bit channels: red, green, blue, alpha.
#[derive(PartialEq, Eq, Debug, Clone, Copy, Structural)]
pub struct Rgba(pub u8, pub u8, pub u8, pub u8);

/// Why a text is not a colour.
#[derive(PartialEq, Eq, Debug, Clone, Copy, Structural)]
pub enum StringToRgbaError {
    /// The text, without a leading `#`, is not eight characters long.
    InvalidLength,
    /// The text holds a character outside ASCII.
    NotAscii,
    /// One of the eight characters is not a hexadecimal digit.
    InvalidHexValue,
}

/// The greatest numerator and denominator of an interpolation factor.
pub const FACTOR_LIMIT: u128 = 0x1_0000_0000_0000_0000_0000_0000_0000;

/// Whether a character is a hexadecimal digit, in either case.
pub open spec fn is_hex_digit(c: char) -> bool {
    ('0' <= c && c <= '9') || ('a' <= c && c <= 'f') || ('A' <= c && c <= 'F')
}

/// The value of a hexadecimal digit.
pub open spec fn hex_value(c: char) -> int {
    if '0' <= c && c <= '9' {
        c as int - 48
    } else if 'a' <= c && c <= 'f' {
        c as int - 87
    } else {
        c as int - 55
    }
}

/// The byte that two hexadecimal digits stand for.
pub open spec fn hex_pair_value(high: char, low: char) -> u8 {
    (hex_value(high) * 16 + hex_value(low)) as u8
}

/// The text without its leading `#`, if it has one.
pub open spec fn without_hash(text: Seq<char>) -> Seq<char> {
    if text.len() > 0 && text[0] == '#' {
        text.skip(1)
    } else {
        text
    }
}

/// The colour that a text stands for: eight hexadecimal digits, two for
/// each of red, green, blue and alpha, after an optional `#`.
pub open spec fn parse_rgba(text: Seq<char>) -> Result<Rgba, StringToRgbaError> {
    let digits = without_hash(text);
    if !is_ascii_chars(digits) {
        Err(StringToRgbaError::NotAscii)
    } else if digits.len() != 8 {
        Err(StringToRgbaError::InvalidLength)
    } else if exists|i: int| 0 <= i < 8 && !is_hex_digit(#[trigger] digits[i]) {
        Err(StringToRgbaError::InvalidHexValue)
    } else {
        Ok(
            Rgba(
                hex_pair_value(digits[0], digits[1]),
                hex_pair_value(digits[2], digits[3]),
                hex_pair_value(digits[4], digits[5]),
                hex_pair_value(digits[6], digits[7]),
            ),
        )
    }
}

/// A channel between `from` and `to`: `from + (to - from) * numerator /
/// denominator`, rounded to the nearest integer (a half rounds away from
/// zero) and kept within 0 and 255.
pub open spec fn interpolate_channel(from: u8, to: u8, numerator: int, denominator: int) -> u8 {
    let rounded = (2 * (from * denominator + (to - from) * numerator) + denominator) / (2
        * denominator);
    if rounded < 0 {
        0
    } else if rounded > 255 {
        255
    } else {
        rounded as u8
    }
}

/// A channel times `numerator / denominator`, rounded down and kept below 256.
pub open spec fn scale_channel(channel: u8, numerator: int, denominator: int) -> u8 {
    let scaled = channel * numerator / denominator;
    if scaled > 255 {
        255
    } else {
        scaled as u8
    }
}

impl Rgba {
    /// The colour with the given channels.
    pub fn new(r: u8, g: u8, b: u8, a: u8) -> (colour: Self)
        ensures
            colour == Rgba(r, g, b, a),
    {
        Rgba(r, g, b, a)
    }

    /// The text form of the colour: `#`, then two lower-case hexadecimal
    /// digits for each of red, green, blue and alpha.
    pub open spec fn hex_text(self) -> Seq<char> {
        seq!['#'] + hex_byte(self.0) + hex_byte(self.1) + hex_byte(self.2) + hex_byte(self.3)
    }

    /// The colour between `self` and `other` at `numerator / denominator`
    /// of the way, each channel by itself.
    pub open spec fn interpolate_spec(self, other: Rgba, numerator: int, denominator: int) -> Rgba {
        Rgba(
            interpolate_channel(self.0, other.0, numerator, denominator),
            interpolate_channel(self.1, other.1, numerator, denominator),
            interpolate_channel(self.2, other.2, numerator, denominator),
            interpolate_channel(self.3, other.3, numerator, denominator),
        )
    }

    /// The colour with every channel multiplied by `numerator / denominator`.
    pub open spec fn scale_spec(self, numerator: int, denominator: int) -> Rgba {
        Rgba(
            scale_channel(self.0, numerator, denominator),
            scale_channel(self.1, numerator, denominator),
            scale_channel(self.2, numerator, denominator),
            scale_channel(self.3, numerator, denominator),
        )
    }

    /// The colour between `self` (factor 0) and `other` (factor 1) at the
    /// factor `numerator / denominator`.
    pub fn interpolate(&self, other: Rgba, numerator: u128, denominator: u128) -> (colour: Rgba)
        requires
            0 < denominator <= FACTOR_LIMIT,
            numerator <= FACTOR_LIMIT,
        ensures
            colour == self.interpolate_spec(other, numerator as int, denominator as int),
    {
        Rgba(
            interpolate_one(self.0, other.0, numerator, denominator),
            interpolate_one(self.1, other.1, numerator, denominator),
            interpolate_one(self.2, other.2, numerator, denominator),
            interpolate_one(self.3, other.3, numerator, denominator),
        )
    }

    /// The colour with every channel multiplied by `numerator /
    /// denominator`, rounded down, and 255 where that would be more.
    pub fn scale(&self, numerator: u32, denominator: u32) -> (colour: Rgba)
        requires
            denominator > 0,
        ensures
            colour == self.scale_spec(numerator as int, denominator as int),
    {
        Rgba(
            scale_one(self.0, numerator, denominator),
            scale_one(self.1, numerator, denominator),
            scale_one(self.2, numerator, denominator),
            scale_one(self.3, numerator, denominator),
        )
    }

    /// The text form `#rrggbbaa` of the colour.
    pub fn to_string(&self) -> (text: String)
        ensures
            text@ == self.hex_text(),
    {
        let mut text = String::new();
        text.append("#");
        proof {
            reveal_strlit("#");
            assert(text@ =~= seq!['#']);
        }
        push_hex_byte(&mut text, self.0);
        push_hex_byte(&mut text, self.1);
        push_hex_byte(&mut text, self.2);
        push_hex_byte(&mut text, self.3);
        text
    }
}

impl Rgba {
    /// Reads a colour from eight hexadecimal digits, in either case, after
    /// an optional `#`.
    pub fn parse(text: &str) -> (parsed: Result<Rgba, StringToRgbaError>)
        ensures
            parsed == parse_rgba(text@),
    {
        let length = text.unicode_len();
        let digits: &str = if length > 0 && text.get_char(0) == '#' {
            text.substring_char(1, length)
        } else {
            text
        };
        assert(digits@ =~= without_hash(text@));
        if !digits.is_ascii() {
            return Err(StringToRgbaError::NotAscii);
        }
        if digits.unicode_len() != 8 {
            return Err(StringToRgbaError::InvalidLength);
        }
        let mut values: Vec<u8> = Vec::new();
        let mut i: usize = 0;
        while i < 8
            invariant
                i <= 8,
                digits@ == without_hash(text@),
                digits@.len() == 8,
                digits.is_ascii(),
                values.len() == i,
                forall|j: int|
                    0 <= j < i ==> is_hex_digit(#[trigger] digits@[j]) && values[j] == hex_value(
                        digits@[j],
                    ),
            decreases 8 - i,
        {
            let byte = digits.get_ascii(i);
            match hex_digit_value(byte) {
                Some(value) => {
                    values.push(value);
                },
                None => {
                    assert(!is_hex_digit(digits@[i as int]));
                    return Err(StringToRgbaError::InvalidHexValue);
                },
            }
            i += 1;
        }
        assert(!exists|i: int| 0 <= i < 8 && !is_hex_digit(#[trigger] digits@[i]));
        Ok(
            Rgba(
                values[0] * 16 + values[1],
                values[2] * 16 + values[3],
                values[4] * 16 + values[5],
                values[6] * 16 + values[7],
            ),
        )
    }
}

impl TryFrom<String> for Rgba {
    type Error = StringToRgbaError;

    /// Reads a colour from its text; see [`Rgba::parse`].
    fn try_from(value: String) -> (parsed: Result<Self, StringToRgbaError>) {
        Rgba::parse(value.as_str())
    }
}

impl vstd::std_specs::convert::TryFromSpecImpl<String> for Rgba {
    open spec fn obeys_try_from_spec() -> bool {
        true
    }

    open spec fn try_from_spec(value: String) -> Result<Self, StringToRgbaError> {
        parse_rgba(value@)
    }
}

impl core::ops::Add for Rgba {
    type Output = Self;

    /// The sum, channel by channel.
    fn add(self, rhs: Self) -> (sum: Self) {
        Rgba(self.0 + rhs.0, self.1 + rhs.1, self.2 + rhs.2, self.3 + rhs.3)
    }
}

impl vstd::std_specs::ops::AddSpecImpl for Rgba {
    open spec fn obeys_add_spec() -> bool {
        true
    }

    open spec fn add_req(self, rhs: Self) -> bool {
        self.0 + rhs.0 <= 255 && self.1 + rhs.1 <= 255 && self.2 + rhs.2 <= 255 && self.3 + rhs.3
            <= 255
    }

    open spec fn add_spec(self, rhs: Self) -> Self {
        Rgba(
            (self.0 + rhs.0) as u8,
            (self.1 + rhs.1) as u8,
            (self.2 + rhs.2) as u8,
            (self.3 + rhs.3) as u8,
        )
    }
}

impl core::ops::Sub for Rgba {
    type Output = Self;

    /// The difference, channel by channel.
    fn sub(self, rhs: Self) -> (difference: Self) {
        Rgba(self.0 - rhs.0, self.1 - rhs.1, self.2 - rhs.2, self.3 - rhs.3)
    }
}

impl vstd::std_specs::ops::SubSpecImpl for Rgba {
    open spec fn obeys_sub_spec() -> bool {
        true
    }

    open spec fn sub_req(self, rhs: Self) -> bool {
        self.0 >= rhs.0 && self.1 >= rhs.1 && self.2 >= rhs.2 && self.3 >= rhs.3
    }

    open spec fn sub_spec(self, rhs: Self) -> Self {
        Rgba(
            (self.0 - rhs.0) as u8,
            (self.1 - rhs.1) as u8,
            (self.2 - rhs.2) as u8,
            (self.3 - rhs.3) as u8,
        )
    }
}

impl From<&Rgba> for String {
    /// The text form `#rrggbbaa` of the colour.
    fn from(value: &Rgba) -> (text: String)
        ensures
            text@ == value.hex_text(),
    {
        value.to_string()
    }
}

impl vstd::std_specs::convert::FromSpecImpl<&Rgba> for String {
    open spec fn obeys_from_spec() -> bool {
        false
    }

    open spec fn from_spec(value: &Rgba) -> String {
        arbitrary()
    }
}

/// The value of the hexadecimal digit that a byte of text stands for.
fn hex_digit_value(byte: u8) -> (value: Option<u8>)
    requires
        byte < 128,
    ensures
        value is Some <==> is_hex_digit(byte as char),
        value is Some ==> value->0 == hex_value(byte as char) && value->0 < 16,
{
    if 48 <= byte && byte <= 57 {
        Some(byte - 48)
    } else if 97 <= byte && byte <= 102 {
        Some(byte - 87)
    } else if 65 <= byte && byte <= 70 {
        Some(byte - 55)
    } else {
        None
    }
}

/// The text form of a colour reads back as that colour.
pub proof fn lemma_hex_text_parses(colour: Rgba)
    ensures
        parse_rgba(colour.hex_text()) == Ok::<Rgba, StringToRgbaError>(colour),
{
    let text = colour.hex_text();
    let digits = without_hash(text);
    assert(digits =~= hex_byte(colour.0) + hex_byte(colour.1) + hex_byte(colour.2) + hex_byte(
        colour.3,
    ));
    lemma_hex_byte_reads_back(colour.0);
    lemma_hex_byte_reads_back(colour.1);
    lemma_hex_byte_reads_back(colour.2);
    lemma_hex_byte_reads_back(colour.3);
    assert(is_ascii_chars(digits));
}

/// The two digits of a byte are hexadecimal digits in ASCII that stand for
/// the byte.
proof fn lemma_hex_byte_reads_back(byte: u8)
    ensures
        is_hex_digit(hex_byte(byte)[0]),
        is_hex_digit(hex_byte(byte)[1]),
        hex_byte(byte)[0] as int <= 127,
        hex_byte(byte)[1] as int <= 127,
        hex_pair_value(hex_byte(byte)[0], hex_byte(byte)[1]) == byte,
{
}

/// One channel of [`Rgba::interpolate`].
fn interpolate_one(from: u8, to: u8, numerator: u128, denominator: u128) -> (channel: u8)
    requires
        0 < denominator <= FACTOR_LIMIT,
        numerator <= FACTOR_LIMIT,
    ensures
        channel == interpolate_channel(from, to, numerator as int, denominator as int),
{
    let ghost exact = 2 * (from * denominator + (to - from) * numerator) + denominator;
    assert(from * denominator <= 255 * FACTOR_LIMIT) by (nonlinear_arith)
        requires
            from <= 255,
            denominator <= FACTOR_LIMIT,
    ;
    assert((to - from) * numerator <= 255 * FACTOR_LIMIT && (from - to) * numerator <= 255
        * FACTOR_LIMIT) by (nonlinear_arith)
        requires
            -255 <= to - from <= 255,
            0 <= numerator <= FACTOR_LIMIT,
    ;
    let base: u128 = 2 * (from as u128 * denominator) + denominator;
    if to >= from {
        let sum: u128 = base + 2 * ((to - from) as u128 * numerator);
        let rounded: u128 = sum / (2 * denominator);
        assert(sum == exact) by (nonlinear_arith)
            requires
                sum == 2 * (from * denominator) + denominator + 2 * ((to - from) * numerator),
                exact == 2 * (from * denominator + (to - from) * numerator) + denominator,
        ;
        if rounded > 255 {
            255
        } else {
            rounded as u8
        }
    } else {
        let drop: u128 = 2 * ((from - to) as u128 * numerator);
        assert(base - drop == exact) by (nonlinear_arith)
            requires
                base == 2 * (from * denominator) + denominator,
                drop == 2 * ((from - to) * numerator),
                exact == 2 * (from * denominator + (to - from) * numerator) + denominator,
        ;
        if drop > base {
            assert(exact / (2 * denominator as int) < 0) by (nonlinear_arith)
                requires
                    exact < 0,
                    denominator > 0,
            ;
            0
        } else {
            let rounded: u128 = (base - drop) / (2 * denominator);
            assert(rounded <= 255) by (nonlinear_arith)
                requires
                    rounded == (base - drop) / (2 * denominator as int),
                    base - drop <= base,
                    base == 2 * (from * denominator) + denominator,
                    from <= 255,
                    denominator > 0,
            ;
            rounded as u8
        }
    }
}

/// One channel of [`Rgba::scale`].
fn scale_one(channel: u8, numerator: u32, denominator: u32) -> (scaled: u8)
    requires
        denominator > 0,
    ensures
        scaled == scale_channel(channel, numerator as int, denominator as int),
{
    assert(channel * numerator <= 255 * u32::MAX) by (nonlinear_arith)
        requires
            channel <= 255,
            numerator <= u32::MAX,
    ;
    let product: u64 = channel as u64 * numerator as u64;
    let scaled: u64 = product / denominator as u64;
    if scaled > 255 {
        255
    } else {
        scaled as u8
    }
}

} // verus!
