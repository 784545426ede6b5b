use vstd::prelude::*;

verus! {

/// One telemetry sample of a driver.
///
/// `relative_distance_ppm` is the fraction of the lap completed at this
/// sample, in millionths (0 at the start line, 1_000_000 at the finish).
#[derive(Clone, Copy, Debug)]
pub struct DriverTelemetryData {
    pub x: i32,
    pub y: i32,
    pub session_time: i64,
    pub speed: i32,
    pub relative_distance_ppm: u32,
}

/// A raw position sample.
#[derive(Clone, Copy, Debug, PartialEq, Eq, Structural)]
pub struct DriverPosition {
    pub x: i32,
    pub y: i32,
}

/// Lap time, sector durations and the session times at which each sector
/// was completed, all in milliseconds.
pub struct LapData {
    pub lap_time: i32,
    pub sector1_time: i32,
    pub sector2_time: i32,
    pub sector3_time: i32,
    pub sector1_session_time: i64,
    pub sector2_session_time: i64,
    pub sector3_session_time: i64,
}

/// An RGBA colour.
#[derive(Clone, Copy, Debug, PartialEq, Eq, Structural)]
pub struct Color {
    pub r: u8,
    pub g: u8,
    pub b: u8,
    pub a: u8,
}

/// Display data of a driver.
pub struct DriverData {
    pub broadcast_name: String,
    pub team_name: String,
    pub team_color: Color,
}

/// Everything known about one driver's lap.
pub struct CompleteDriverData {
    pub telemetry: Vec<DriverTelemetryData>,
    pub lap: LapData,
    pub driver: DriverData,
}

impl Color {
    pub open spec fn rgb(r: int, g: int, b: int, a: int) -> Color {
        Color { r: r as u8, g: g as u8, b: b as u8, a: a as u8 }
    }
}

/// Value of an ASCII hexadecimal digit, if `c` is one.
pub open spec fn hex_digit_value(c: char) -> Option<int> {
    if '0' <= c && c <= '9' {
        Some(c as int - '0' as int)
    } else if 'a' <= c && c <= 'f' {
        Some(c as int - 'a' as int + 10)
    } else if 'A' <= c && c <= 'F' {
        Some(c as int - 'A' as int + 10)
    } else {
        None
    }
}

/// The byte written by the two hex digits at `i` and `i + 1` of `s`.
pub open spec fn hex_byte_at(s: Seq<char>, i: int) -> Option<int> {
    match (hex_digit_value(s[i]), hex_digit_value(s[i + 1])) {
        (Some(h), Some(l)) => Some(16 * h + l),
        _ => None,
    }
}

/// An opaque colour written as `RRGGBB` (further characters ignored).
pub open spec fn team_color_of(s: Seq<char>) -> Option<Color> {
    if s.len() < 6 {
        None
    } else {
        match (hex_byte_at(s, 0), hex_byte_at(s, 2), hex_byte_at(s, 4)) {
            (Some(r), Some(g), Some(b)) => Some(Color::rgb(r, g, b, 255)),
            _ => None,
        }
    }
}

fn hex_digit(c: char) -> (r: Option<u8>)
    ensures
        match hex_digit_value(c) {
            Some(v) => r == Some(v as u8) && 0 <= v < 16,
            None => r is None,
        },
{
    if '0' <= c && c <= '9' {
        Some((c as u32 - '0' as u32) as u8)
    } else if 'a' <= c && c <= 'f' {
        Some((c as u32 - 'a' as u32 + 10) as u8)
    } else if 'A' <= c && c <= 'F' {
        Some((c as u32 - 'A' as u32 + 10) as u8)
    } else {
        None
    }
}

fn hex_byte(s: &str, i: usize) -> (r: Option<u8>)
    requires
        i + 1 < s@.len(),
        i <= 4,
    ensures
        match hex_byte_at(s@, i as int) {
            Some(v) => r == Some(v as u8) && 0 <= v < 256,
            None => r is None,
        },
{
    match (hex_digit(s.get_char(i)), hex_digit(s.get_char(i + 1))) {
        (Some(h), Some(l)) => Some(16 * h + l),
        _ => None,
    }
}

/// Parses a team colour written as six hex digits `RRGGBB` into an opaque
/// colour; `None` when the text is shorter or holds another character there.
pub fn parse_team_color(s: &str) -> (r: Option<Color>)
    ensures
        r == team_color_of(s@),
{
    if s.unicode_len() < 6 {
        return None;
    }
    match (hex_byte(s, 0), hex_byte(s, 2), hex_byte(s, 4)) {
        (Some(r), Some(g), Some(b)) => Some(Color { r, g, b, a: 255 }),
        _ => None,
    }
}

} // verus!
