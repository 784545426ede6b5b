use vstd::prelude::*;
use crate::model::Color;

verus! {

/// Stroke thickness of the track-map trails.
pub const THICKNESS: i32 = 3;
/// Free border around the track map and the telemetry plot (five strokes).
pub const PADDING: u32 = 15;
pub const PADDING_LR: u32 = 20;
pub const PADDING_TB: u32 = 38;
pub const PADDING_TB_INNER: u32 = 10;

pub const TRACK_WIDTH: u32 = 512;
pub const TRACK_HEIGHT: u32 = 512;
pub const SIDEBAR_WIDTH: u32 = 256;
pub const TELEMETRY_HEIGHT: u32 = 256;
pub const TELEMETRY_PLOT_WIDTH: u32 = TRACK_WIDTH + SIDEBAR_WIDTH - 2 * PADDING;
pub const TELEMETRY_PLOT_HEIGHT: u32 = TELEMETRY_HEIGHT - 2 * PADDING;
pub const DRIVER_STATS_HEIGHT: u32 = 200;

pub const TELEMETRY_PLOT_AXES_LABELS_MARGIN: u32 = 32;
pub const TELEMETRY_LABEL_MARGIN: u32 = 5;
pub const DRIVER_TEAM_MARGIN: i32 = -5;
pub const NAME_LAP_SPEED_MARGIN: u32 = 5;
pub const SECTOR_TIMES_MARGIN: u32 = 3;

pub const GIF_WIDTH: u32 = TRACK_WIDTH + SIDEBAR_WIDTH;
pub const GIF_HEIGHT: u32 = TRACK_HEIGHT + TELEMETRY_HEIGHT;

pub const TELEMETRY_LABEL_FONT_SIZE: u32 = 9;
pub const DRIVER_FONT_SIZE: u32 = 20;
pub const TEAM_FONT_SIZE: u32 = 12;
pub const LAP_SPEED_FONT_SIZE: u32 = 24;
pub const SECTOR_FONT_SIZE: u32 = TEAM_FONT_SIZE;

pub const TELEMETRY_POSITION_X: i64 = 15;
pub const TELEMETRY_POSITION_Y: i64 = 527;
pub const HUD_POSITION_X: i64 = 512;
pub const HUD_POSITION_Y: i64 = 0;

/// Display time of one frame, in milliseconds.
pub const FRAME_TIME: u32 = 50;
/// Frames added after both trails end, so that the final state lingers.
pub const TAIL_FRAMES: usize = 20;

pub open spec fn spec_background_color() -> Color {
    Color { r: 15, g: 15, b: 15, a: 255 }
}

pub open spec fn spec_transparent() -> Color {
    Color { r: 255, g: 255, b: 255, a: 0 }
}

pub open spec fn spec_white() -> Color {
    Color { r: 255, g: 255, b: 255, a: 255 }
}

/// The opaque dark grey behind every frame.
pub fn background_color() -> (c: Color)
    ensures
        c == spec_background_color(),
{
    Color { r: 15, g: 15, b: 15, a: 255 }
}

/// Fully transparent white, the initial colour of every layer.
pub fn transparent() -> (c: Color)
    ensures
        c == spec_transparent(),
{
    Color { r: 255, g: 255, b: 255, a: 0 }
}

/// Opaque white, for axes and text.
pub fn white() -> (c: Color)
    ensures
        c == spec_white(),
{
    Color { r: 255, g: 255, b: 255, a: 255 }
}

} // verus!
