//! Named colour gradients and the colour at a position along one.

use vstd::prelude::*;
use vstd::string::StringExecFns;
use crate::fixed::{clamp_int, UNIT};
use crate::text::{chars_of, str_eq};

verus! {

/// A named list of colour stops, each written as `#RRGGBB`.
#[derive(Debug, Clone)]
pub struct Gradient {
    pub name: &'static str,
    pub colors: Vec<&'static str>,
}

/// The three stops of a gradient that the library knows by name.
pub open spec fn known_stops(name: Seq<char>) -> Option<(Seq<char>, Seq<char>, Seq<char>)> {
    if name == "fire"@ {
        Some(("#FF3366"@, "#FF6600"@, "#FF9933"@))
    } else if name == "ocean"@ {
        Some(("#0055FF"@, "#0099DD"@, "#00D1FF"@))
    } else if name == "sunset"@ {
        Some(("#FF2D55"@, "#FF7E5F"@, "#FEB47B"@))
    } else if name == "forest"@ {
        Some(("#1D976C"@, "#4CD964"@, "#93F9B9"@))
    } else if name == "violet"@ {
        Some(("#FF0080"@, "#8E2DE2"@, "#4A00E0"@))
    } else if name == "rideviz"@ {
        Some(("#00C2FF"@, "#00EABD"@, "#00FF94"@))
    } else if name == "white"@ {
        Some(("#FFFFFF"@, "#FFFFFF"@, "#FFFFFF"@))
    } else if name == "black"@ {
        Some(("#000000"@, "#000000"@, "#000000"@))
    } else {
        None
    }
}

/// The value of a hexadecimal digit, in either case.
pub open spec fn hex_value(c: char) -> Option<int> {
    if '0' <= c && c <= '9' {
        Some(c as u8 - 48)
    } else if 'a' <= c && c <= 'f' {
        Some(c as u8 - 87)
    } else if 'A' <= c && c <= 'F' {
        Some(c as u8 - 55)
    } else {
        None
    }
}

/// The text without its leading `#` signs.
pub open spec fn without_hashes(text: Seq<char>) -> Seq<char>
    decreases text.len(),
{
    if text.len() > 0 && text[0] == '#' {
        without_hashes(text.drop_first())
    } else {
        text
    }
}

/// The byte that two characters stand for: two hexadecimal digits, or a
/// plus sign and one digit.
pub open spec fn hex_pair(high: char, low: char) -> Option<u8> {
    match (hex_value(high), hex_value(low)) {
        (Some(h), Some(l)) => Some((h * 16 + l) as u8),
        (None, Some(l)) if high == '+' => Some(l as u8),
        _ => None,
    }
}

/// The red, green and blue of a colour written as three pairs of
/// characters after any number of `#` signs.
pub open spec fn hex_color(text: Seq<char>) -> Option<(u8, u8, u8)> {
    let digits = without_hashes(text);
    if digits.len() != 6 {
        None
    } else {
        match (
            hex_pair(digits[0], digits[1]),
            hex_pair(digits[2], digits[3]),
            hex_pair(digits[4], digits[5]),
        ) {
            (Some(r), Some(g), Some(b)) => Some((r, g, b)),
            _ => None,
        }
    }
}

/// The value of a hexadecimal digit.
fn hex_digit(c: char) -> (v: Option<u8>)
    ensures
        match v {
            Some(d) => hex_value(c) == Some(d as int) && d < 16,
            None => hex_value(c).is_none(),
        },
{
    if '0' <= c && c <= '9' {
        Some(c as u8 - 48)
    } else if 'a' <= c && c <= 'f' {
        Some(c as u8 - 87)
    } else if 'A' <= c && c <= 'F' {
        Some(c as u8 - 55)
    } else {
        None
    }
}

/// The byte that two characters stand for.
fn hex_byte(high: char, low: char) -> (v: Option<u8>)
    ensures
        v == hex_pair(high, low),
{
    match (hex_digit(high), hex_digit(low)) {
        (Some(h), Some(l)) => Some(h * 16 + l),
        (None, Some(l)) => if high == '+' {
            Some(l)
        } else {
            None
        },
        _ => None,
    }
}

/// Reads a colour written as `#RRGGBB`.
pub fn parse_hex_color(hex: &str) -> (color: Option<(u8, u8, u8)>)
    ensures
        color == hex_color(hex@),
{
    let chars = chars_of(hex);
    let mut start: usize = 0;
    assert(chars@.subrange(0, chars@.len() as int) =~= chars@);
    while start < chars.len() && chars[start] == '#'
        invariant
            0 <= start <= chars@.len(),
            without_hashes(chars@) == without_hashes(chars@.subrange(start as int, chars@.len() as int)),
        decreases chars@.len() - start,
    {
        assert(chars@.subrange(start as int, chars@.len() as int).drop_first() =~= chars@.subrange(
            start + 1,
            chars@.len() as int,
        ));
        start = start + 1;
    }
    let ghost digits = chars@.subrange(start as int, chars@.len() as int);
    assert(without_hashes(digits) == digits);
    if chars.len() - start != 6 {
        return None;
    }
    assert(digits[0] == chars@[start + 0] && digits[1] == chars@[start + 1] && digits[2]
        == chars@[start + 2] && digits[3] == chars@[start + 3] && digits[4] == chars@[start + 4]
        && digits[5] == chars@[start + 5]);
    match (
        hex_byte(chars[start], chars[start + 1]),
        hex_byte(chars[start + 2], chars[start + 3]),
        hex_byte(chars[start + 4], chars[start + 5]),
    ) {
        (Some(r), Some(g), Some(b)) => Some((r, g, b)),
        _ => None,
    }
}

/// The value at share `t` (in millionths) of the way from `start` to `end`,
/// rounded to the nearest whole number.
pub open spec fn lerp_channel(start: u8, end: u8, t: int) -> int {
    (start * UNIT + (end - start) * t + UNIT / 2) / (UNIT as int)
}

/// Interpolates one colour channel.
pub fn lerp_u8(start: u8, end: u8, t: u64) -> (value: u8)
    requires
        t <= UNIT,
    ensures
        value == lerp_channel(start, end, t as int),
{
    let base: u64 = start as u64 * UNIT + UNIT / 2;
    let total: u64 = if end >= start {
        assert(0 <= (end - start) * t <= (end - start) * UNIT) by (nonlinear_arith)
            requires
                0 <= end - start,
                0 <= t <= UNIT,
        ;
        base + (end - start) as u64 * t
    } else {
        assert(0 <= (start - end) * t <= (start - end) * UNIT) by (nonlinear_arith)
            requires
                0 <= start - end,
                0 <= t <= UNIT,
        ;
        assert((end - start) * t == -((start - end) * t)) by (nonlinear_arith);
        base - (start - end) as u64 * t
    };
    assert(total == start * UNIT + (end - start) * t + UNIT / 2);
    assert(total <= 255 * UNIT + UNIT / 2);
    (total / UNIT) as u8
}

/// The character of a hexadecimal digit, in upper case.
pub open spec fn hex_char(d: int) -> char {
    if d < 10 {
        crate::text::digit_char(d)
    } else if d == 10 {
        'A'
    } else if d == 11 {
        'B'
    } else if d == 12 {
        'C'
    } else if d == 13 {
        'D'
    } else if d == 14 {
        'E'
    } else {
        'F'
    }
}

/// A colour written as `#RRGGBB` in upper case.
pub open spec fn color_text(r: u8, g: u8, b: u8) -> Seq<char> {
    seq![
        '#',
        hex_char(r as int / 16),
        hex_char(r as int % 16),
        hex_char(g as int / 16),
        hex_char(g as int % 16),
        hex_char(b as int / 16),
        hex_char(b as int % 16),
    ]
}

/// The text of one hexadecimal digit.
fn hex_str(d: u8) -> (s: &'static str)
    requires
        d < 16,
    ensures
        s@ == seq![hex_char(d as int)],
{
    if d < 10 {
        crate::text::digit_str(d)
    } else {
        proof {
            reveal_strlit("A");
            reveal_strlit("B");
            reveal_strlit("C");
            reveal_strlit("D");
            reveal_strlit("E");
            reveal_strlit("F");
        }
        let s = if d == 10 {
            "A"
        } else if d == 11 {
            "B"
        } else if d == 12 {
            "C"
        } else if d == 13 {
            "D"
        } else if d == 14 {
            "E"
        } else {
            "F"
        };
        assert(s@ =~= seq![hex_char(d as int)]);
        s
    }
}

/// Writes a colour as `#RRGGBB`.
pub fn format_color(r: u8, g: u8, b: u8) -> (text: String)
    ensures
        text@ == color_text(r, g, b),
{
    proof {
        reveal_strlit("#");
    }
    let mut text = String::from_str("#");
    text.append(hex_str(r / 16));
    text.append(hex_str(r % 16));
    text.append(hex_str(g / 16));
    text.append(hex_str(g % 16));
    text.append(hex_str(b / 16));
    text.append(hex_str(b % 16));
    assert(text@ =~= color_text(r, g, b));
    text
}

/// The colour of a stop, white where the stop cannot be read.
pub open spec fn stop_color(text: Seq<char>) -> (u8, u8, u8) {
    match hex_color(text) {
        Some(c) => c,
        None => (255u8, 255u8, 255u8),
    }
}

/// The colour at position `t` (in millionths, limited to one whole) along
/// the stops: white without stops, the stop itself where there is one, else
/// the blend of the two stops around the position, channel by channel.
pub open spec fn gradient_color(stops: Seq<Seq<char>>, t: int) -> Seq<char> {
    let t = clamp_int(t, 0, UNIT as int);
    if stops.len() == 0 {
        "#FFFFFF"@
    } else if stops.len() == 1 {
        stops[0]
    } else {
        let scaled = t * (stops.len() - 1);
        let idx = if scaled / (UNIT as int) > stops.len() - 2 {
            stops.len() - 2
        } else {
            scaled / (UNIT as int)
        };
        let local = scaled - idx * UNIT;
        let start = stop_color(stops[idx]);
        let end = stop_color(stops[idx + 1]);
        color_text(
            lerp_channel(start.0, end.0, local) as u8,
            lerp_channel(start.1, end.1, local) as u8,
            lerp_channel(start.2, end.2, local) as u8,
        )
    }
}

impl Gradient {
    /// The texts of the stops.
    pub open spec fn stops(&self) -> Seq<Seq<char>> {
        Seq::new(self.colors@.len(), |i: int| self.colors@[i]@)
    }

    /// The gradient of that name, if the library knows it.
    pub fn get(name: &str) -> (found: Option<Self>)
        ensures
            match (found, known_stops(name@)) {
                (Some(g), Some(stops)) => g.name@ == name@ && g.stops() == seq![
                    stops.0,
                    stops.1,
                    stops.2,
                ],
                (None, None) => true,
                _ => false,
            },
    {
        let (label, first, second, third): (&'static str, &'static str, &'static str, &'static str) =
            if str_eq(name, "fire") {
            ("fire", "#FF3366", "#FF6600", "#FF9933")
        } else if str_eq(name, "ocean") {
            ("ocean", "#0055FF", "#0099DD", "#00D1FF")
        } else if str_eq(name, "sunset") {
            ("sunset", "#FF2D55", "#FF7E5F", "#FEB47B")
        } else if str_eq(name, "forest") {
            ("forest", "#1D976C", "#4CD964", "#93F9B9")
        } else if str_eq(name, "violet") {
            ("violet", "#FF0080", "#8E2DE2", "#4A00E0")
        } else if str_eq(name, "rideviz") {
            ("rideviz", "#00C2FF", "#00EABD", "#00FF94")
        } else if str_eq(name, "white") {
            ("white", "#FFFFFF", "#FFFFFF", "#FFFFFF")
        } else if str_eq(name, "black") {
            ("black", "#000000", "#000000", "#000000")
        } else {
            return None;
        };
        let mut colors: Vec<&'static str> = Vec::new();
        colors.push(first);
        colors.push(second);
        colors.push(third);
        let g = Gradient { name: label, colors };
        assert(g.stops() =~= seq![first@, second@, third@]);
        Some(g)
    }

    /// The gradient used where none is asked for: `fire`.
    pub fn default() -> (g: Self)
        ensures
            g.name@ == "fire"@,
            g.stops() == seq!["#FF3366"@, "#FF6600"@, "#FF9933"@],
    {
        let mut colors: Vec<&'static str> = Vec::new();
        colors.push("#FF3366");
        colors.push("#FF6600");
        colors.push("#FF9933");
        let g = Gradient { name: "fire", colors };
        assert(g.stops() =~= seq!["#FF3366"@, "#FF6600"@, "#FF9933"@]);
        g
    }

    /// The colour at position `t` along the gradient, `t` in millionths.
    #[verifier::rlimit(40)]
    pub fn interpolate(&self, t: u64) -> (text: String)
        ensures
            text@ == gradient_color(self.stops(), t as int),
    {
        let t: u64 = if t > UNIT {
            UNIT
        } else {
            t
        };
        let count = self.colors.len();
        if count == 0 {
            return String::from_str("#FFFFFF");
        }
        if count == 1 {
            return String::from_str(self.colors[0]);
        }
        assert(t * (count - 1) <= 1_000_000 * 0xFFFF_FFFF_FFFF_FFFF) by (nonlinear_arith)
            requires
                t <= 1_000_000,
                0 <= count - 1 <= 0xFFFF_FFFF_FFFF_FFFF,
        ;
        let scaled: u128 = t as u128 * (count - 1) as u128;
        let whole: u128 = scaled / UNIT as u128;
        let idx: usize = if whole > (count - 2) as u128 {
            count - 2
        } else {
            whole as usize
        };
        proof {
            assert(scaled <= UNIT * (count - 1)) by (nonlinear_arith)
                requires
                    scaled == t * (count - 1),
                    t <= UNIT,
                    count >= 2,
            ;
            if whole > count - 2 {
                assert(scaled >= (count - 1) * UNIT) by (nonlinear_arith)
                    requires
                        whole == scaled / (UNIT as u128),
                        whole >= count - 1,
                        UNIT == 1_000_000,
                ;
                assert((count - 1) * UNIT - (count - 2) * UNIT == UNIT) by (nonlinear_arith);
            } else {
                assert(0 <= scaled - whole * UNIT < UNIT) by (nonlinear_arith)
                    requires
                        whole == scaled / (UNIT as u128),
                        UNIT == 1_000_000,
                ;
            }
            assert(idx * UNIT <= scaled) by (nonlinear_arith)
                requires
                    idx <= whole,
                    whole == scaled / (UNIT as u128),
                    UNIT == 1_000_000,
            ;
        }
        let local: u64 = (scaled - idx as u128 * UNIT as u128) as u64;
        let start = match parse_hex_color(self.colors[idx]) {
            Some(c) => c,
            None => (255, 255, 255),
        };
        let end = match parse_hex_color(self.colors[idx + 1]) {
            Some(c) => c,
            None => (255, 255, 255),
        };
        format_color(
            lerp_u8(start.0, end.0, local),
            lerp_u8(start.1, end.1, local),
            lerp_u8(start.2, end.2, local),
        )
    }
}

} // verus!
