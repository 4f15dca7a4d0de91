//! Appearance color palette and tint helpers for custom themes.
use vstd::prelude::*;

use crate::text::{chars_of, decimal, padded_decimal, padded_to_string, u64_to_string};

verus! {

/// Default text — warm stone, WCAG AA on [`DEFAULT_BG_COLOR`].
pub const DEFAULT_TEXT_COLOR: &'static str = "#1c1917";

/// Default popup background — warm paper white.
pub const DEFAULT_BG_COLOR: &'static str = "#faf8f5";

/// Holiday accent — deep Persian crimson.
pub const DEFAULT_HOLIDAY_COLOR: &'static str = "#a61e2e";

/// Today accent — Persian tile blue-teal.
pub const DEFAULT_TODAY_COLOR: &'static str = "#0f6e9c";

/// Prayer accent — calm emerald.
pub const DEFAULT_PRAYER_COLOR: &'static str = "#1a7a4c";

/// Alpha of the today tint, in hundredths.
pub const TODAY_BG_ALPHA_HUNDREDTHS: u32 = 22;

/// Alpha of the holiday tint, in hundredths.
pub const HOLIDAY_BG_ALPHA_HUNDREDTHS: u32 = 14;

#[derive(Debug, Clone, Copy, PartialEq, Eq, Structural)]
pub struct Rgb {
    pub r: u8,
    pub g: u8,
    pub b: u8,
}

/// Parsed appearance colors with derived background tints for day cells.
#[derive(Debug)]
pub struct AppearanceTints {
    pub today_background: String,
    pub holiday_background: String,
}

pub open spec fn hex_value(c: char) -> int {
    if '0' <= c && c <= '9' {
        (c as u32) - ('0' as u32)
    } else if 'a' <= c && c <= 'f' {
        (c as u32) - ('a' as u32) + 10
    } else if 'A' <= c && c <= 'F' {
        (c as u32) - ('A' as u32) + 10
    } else {
        -1
    }
}

pub open spec fn is_hex_digit(c: char) -> bool {
    ('0' <= c && c <= '9') || ('a' <= c && c <= 'f') || ('A' <= c && c <= 'F')
}

/// `#RRGGBB`: seven characters, `#` then six hexadecimal digits.
pub open spec fn valid_hex(s: Seq<char>) -> bool {
    &&& s.len() == 7
    &&& s[0] == '#'
    &&& forall|i: int| 1 <= i < 7 ==> is_hex_digit(#[trigger] s[i])
}

/// Value of the two hexadecimal digits at `i` and `i + 1`.
pub open spec fn hex_pair(s: Seq<char>, i: int) -> int {
    16 * hex_value(s[i]) + hex_value(s[i + 1])
}

fn hex_digit_value(c: char) -> (v: u8)
    requires
        is_hex_digit(c),
    ensures
        v as int == hex_value(c),
        v < 16,
{
    if '0' <= c && c <= '9' {
        ((c as u32) - ('0' as u32)) as u8
    } else if 'a' <= c && c <= 'f' {
        ((c as u32) - ('a' as u32) + 10) as u8
    } else {
        ((c as u32) - ('A' as u32) + 10) as u8
    }
}

fn is_hex_char(c: char) -> (r: bool)
    ensures
        r == is_hex_digit(c),
{
    ('0' <= c && c <= '9') || ('a' <= c && c <= 'f') || ('A' <= c && c <= 'F')
}

/// Returns true for `#RRGGBB` hex strings.
pub fn is_valid_hex(color: &str) -> (r: bool)
    ensures
        r == valid_hex(color@),
{
    let v = chars_of(color);
    if v.len() != 7 || v[0] != '#' {
        return false;
    }
    let mut i: usize = 1;
    while i < 7
        invariant
            v@ == color@,
            v.len() == 7,
            1 <= i <= 7,
            forall|j: int| 1 <= j < i ==> is_hex_digit(#[trigger] v@[j]),
        decreases 7 - i,
    {
        if !is_hex_char(v[i]) {
            return false;
        }
        i = i + 1;
    }
    true
}

/// The red, green and blue bytes of a `#RRGGBB` color.
pub fn parse_hex(color: &str) -> (r: Option<Rgb>)
    ensures
        r is Some <==> valid_hex(color@),
        r matches Some(rgb) ==> rgb.r as int == hex_pair(color@, 1) && rgb.g as int == hex_pair(
            color@,
            3,
        ) && rgb.b as int == hex_pair(color@, 5),
{
    if !is_valid_hex(color) {
        return None;
    }
    let v = chars_of(color);
    assert(is_hex_digit(v@[1]) && is_hex_digit(v@[2]) && is_hex_digit(v@[3]));
    assert(is_hex_digit(v@[4]) && is_hex_digit(v@[5]) && is_hex_digit(v@[6]));
    let r = hex_digit_value(v[1]) * 16 + hex_digit_value(v[2]);
    let g = hex_digit_value(v[3]) * 16 + hex_digit_value(v[4]);
    let b = hex_digit_value(v[5]) * 16 + hex_digit_value(v[6]);
    Some(Rgb { r, g, b })
}

/// `rgba(r, g, b, a)` with the alpha written with two decimals.
pub open spec fn rgba_text(rgb: Rgb, hundredths: nat) -> Seq<char> {
    "rgba("@ + decimal(rgb.r as nat) + ", "@ + decimal(rgb.g as nat) + ", "@ + decimal(
        rgb.b as nat,
    ) + ", "@ + decimal(hundredths / 100) + "."@ + padded_decimal(hundredths % 100, 2) + ")"@
}

/// CSS `rgba(r, g, b, a)` string for a translucent overlay; the alpha is given
/// in hundredths and clamped to 0..=100.
pub fn rgba_css_hundredths(color: &str, alpha_hundredths: u32) -> (r: Option<String>)
    ensures
        r is Some <==> valid_hex(color@),
        r matches Some(s) ==> exists|rgb: Rgb|
            rgb.r as int == hex_pair(color@, 1) && rgb.g as int == hex_pair(color@, 3) && rgb.b as int
                == hex_pair(color@, 5) && s@ == rgba_text(
                rgb,
                (if alpha_hundredths > 100 {
                    100
                } else {
                    alpha_hundredths
                }) as nat,
            ),
{
    let rgb = match parse_hex(color) {
        Some(rgb) => rgb,
        None => {
            return None;
        },
    };
    let a = if alpha_hundredths > 100 {
        100
    } else {
        alpha_hundredths
    };
    let mut s = String::from_str("rgba(");
    let rs = u64_to_string(rgb.r as u64);
    s.append(rs.as_str());
    s.append(", ");
    let gs = u64_to_string(rgb.g as u64);
    s.append(gs.as_str());
    s.append(", ");
    let bs = u64_to_string(rgb.b as u64);
    s.append(bs.as_str());
    s.append(", ");
    let whole = u64_to_string((a / 100) as u64);
    s.append(whole.as_str());
    s.append(".");
    let frac = padded_to_string((a % 100) as u64, 2);
    s.append(frac.as_str());
    s.append(")");
    assert(s@ =~= rgba_text(rgb, a as nat));
    Some(s)
}

/// Today tint when `today_color` is valid, else the default tint.
pub open spec fn today_tint(today_color: Seq<char>) -> Seq<char> {
    if valid_hex(today_color) {
        rgba_text(
            Rgb {
                r: hex_pair(today_color, 1) as u8,
                g: hex_pair(today_color, 3) as u8,
                b: hex_pair(today_color, 5) as u8,
            },
            22,
        )
    } else {
        "rgba(15, 110, 156, 0.22)"@
    }
}

/// Holiday tint when `holiday_color` is valid, else the default tint.
pub open spec fn holiday_tint(holiday_color: Seq<char>) -> Seq<char> {
    if valid_hex(holiday_color) {
        rgba_text(
            Rgb {
                r: hex_pair(holiday_color, 1) as u8,
                g: hex_pair(holiday_color, 3) as u8,
                b: hex_pair(holiday_color, 5) as u8,
            },
            14,
        )
    } else {
        "rgba(166, 30, 46, 0.14)"@
    }
}

/// Background tints aligned with GNOME Shell stylesheet alpha values.
pub fn appearance_tints(today_color: &str, holiday_color: &str) -> (t: AppearanceTints)
    ensures
        t.today_background@ == today_tint(today_color@),
        t.holiday_background@ == holiday_tint(holiday_color@),
{
    let today_background = match rgba_css_hundredths(today_color, TODAY_BG_ALPHA_HUNDREDTHS) {
        Some(s) => s,
        None => String::from_str("rgba(15, 110, 156, 0.22)"),
    };
    let holiday_background = match rgba_css_hundredths(holiday_color, HOLIDAY_BG_ALPHA_HUNDREDTHS) {
        Some(s) => s,
        None => String::from_str("rgba(166, 30, 46, 0.14)"),
    };
    AppearanceTints { today_background, holiday_background }
}

} // verus!
