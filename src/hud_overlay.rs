use vstd::prelude::*;
use crate::model::{Color, CompleteDriverData};
use crate::raster::{Raster, color_bytes, filled_pixels, overlaid, overlay_raster};
use crate::text::{FontData, draw_text, line_height, line_height_of, text_drawn, text_width, text_width_of};
use crate::hud_text::{get_headline_str, get_sector_time_str, headline, lap_times_valid, sector_label};
use crate::layout::{
    DRIVER_FONT_SIZE, DRIVER_STATS_HEIGHT, DRIVER_TEAM_MARGIN, LAP_SPEED_FONT_SIZE, NAME_LAP_SPEED_MARGIN, PADDING_LR,
    PADDING_TB, PADDING_TB_INNER, SECTOR_FONT_SIZE, SECTOR_TIMES_MARGIN, SIDEBAR_WIDTH, TEAM_FONT_SIZE, TRACK_HEIGHT,
    spec_transparent, spec_white, transparent, white,
};

verus! {

/// A block of text lines is drawn only where each line is at most as tall
/// as the panel.
pub open spec fn line_fits(h: nat) -> bool {
    h <= TRACK_HEIGHT
}

pub open spec fn blank_block(height: nat) -> Seq<u8> {
    filled_pixels(SIDEBAR_WIDTH as nat * height, spec_transparent())
}

/// The driver's name in `color` over the team's name in white, and the
/// block's height.
pub open spec fn name_block(regular: Seq<u8>, bold: Seq<u8>, name: Seq<char>, team: Seq<char>, color: Color) -> (Seq<u8>, nat) {
    let dh = line_height_of(bold, DRIVER_FONT_SIZE as nat);
    let th = line_height_of(regular, TEAM_FONT_SIZE as nat);
    if line_fits(dh) && line_fits(th) {
        let h = dh + th;
        let with_name = text_drawn(blank_block(h), SIDEBAR_WIDTH as nat, h, color_bytes(color), PADDING_LR as int, 0, DRIVER_FONT_SIZE as nat, bold, name);
        (text_drawn(with_name, SIDEBAR_WIDTH as nat, h, color_bytes(spec_white()), PADDING_LR as int, dh + DRIVER_TEAM_MARGIN, TEAM_FONT_SIZE as nat, regular, team), h)
    } else {
        (Seq::empty(), 0)
    }
}

/// `text` in white, centred in one line of the panel, and the line's height.
pub open spec fn centered_line(bold: Seq<u8>, text: Seq<char>) -> (Seq<u8>, nat) {
    let h = line_height_of(bold, LAP_SPEED_FONT_SIZE as nat);
    let w = text_width_of(bold, LAP_SPEED_FONT_SIZE as nat, text);
    let dx = if w <= SIDEBAR_WIDTH { (SIDEBAR_WIDTH - w) / 2 } else { 0 };
    if line_fits(h) {
        (text_drawn(blank_block(h), SIDEBAR_WIDTH as nat, h, color_bytes(spec_white()), dx, 0, LAP_SPEED_FONT_SIZE as nat, bold, text), h)
    } else {
        (Seq::empty(), 0)
    }
}

pub open spec fn sector_line(regular: Seq<u8>, h: nat, label: Seq<char>) -> Seq<u8> {
    text_drawn(blank_block(h), SIDEBAR_WIDTH as nat, h, color_bytes(spec_white()), PADDING_LR as int, 0, SECTOR_FONT_SIZE as nat, regular, label)
}

/// The first `n` sector labels drawn, one per line, into a block of three
/// lines of height `h`.
pub open spec fn sectors_drawn(regular: Seq<u8>, h: nat, d: CompleteDriverData, frame: int, n: nat) -> Seq<u8>
    decreases n,
{
    if n == 0 {
        blank_block(3 * h)
    } else {
        let w = SIDEBAR_WIDTH as nat;
        overlaid(
            sectors_drawn(regular, h, d, frame, (n - 1) as nat), w, 3 * h,
            sector_line(regular, h, sector_label(d.telemetry@, d.lap, n as int, frame)), w, h, 0, (n - 1) * h,
        )
    }
}

/// The three sector labels, one per line, and the block's height.
pub open spec fn sector_block(regular: Seq<u8>, d: CompleteDriverData, frame: int) -> (Seq<u8>, nat) {
    let h = line_height_of(regular, SECTOR_FONT_SIZE as nat);
    if line_fits(h) {
        (sectors_drawn(regular, h, d, frame, 3), 3 * h)
    } else {
        (Seq::empty(), 0)
    }
}

/// One driver's stats block: names, then the speed or lap time, then the
/// sector labels at the bottom.
pub open spec fn stats_block(regular: Seq<u8>, bold: Seq<u8>, d: CompleteDriverData, frame: int) -> Seq<u8> {
    let w = SIDEBAR_WIDTH as nat;
    let h = DRIVER_STATS_HEIGHT as nat;
    let n = name_block(regular, bold, d.driver.broadcast_name@, d.driver.team_name@, d.driver.team_color);
    let c = centered_line(bold, headline(d.telemetry@, d.lap, frame));
    let s = sector_block(regular, d, frame);
    let with_name = overlaid(blank_block(h), w, h, n.0, w, n.1, 0, PADDING_TB_INNER as int);
    let with_line = overlaid(with_name, w, h, c.0, w, c.1, 0, PADDING_TB_INNER + n.1 + NAME_LAP_SPEED_MARGIN);
    overlaid(with_line, w, h, s.0, w, s.1, 0, DRIVER_STATS_HEIGHT - s.1 - SECTOR_TIMES_MARGIN)
}

/// The whole sidebar: the first driver's block near the top, the second's
/// near the bottom.
pub open spec fn hud_pixels(regular: Seq<u8>, bold: Seq<u8>, d1: CompleteDriverData, d2: CompleteDriverData, frame: int) -> Seq<u8> {
    let w = SIDEBAR_WIDTH as nat;
    let h = TRACK_HEIGHT as nat;
    let s = DRIVER_STATS_HEIGHT as nat;
    let top = overlaid(blank_block(h), w, h, stats_block(regular, bold, d1, frame), w, s, 0, PADDING_TB as int);
    overlaid(top, w, h, stats_block(regular, bold, d2, frame), w, s, 0, TRACK_HEIGHT - PADDING_TB - DRIVER_STATS_HEIGHT)
}

/// The per-driver stats sidebar.
pub struct HUD<'a> {
    pub d1: &'a CompleteDriverData,
    pub d2: &'a CompleteDriverData,
    pub regular_font: &'a FontData,
    pub bold_font: &'a FontData,
}

fn blank(height: u32) -> (r: Raster)
    requires
        height <= 3 * TRACK_HEIGHT,
    ensures
        r.wf(),
        r.width == SIDEBAR_WIDTH,
        r.height == height,
        r.data@ == blank_block(height as nat),
{
    assert(4 * SIDEBAR_WIDTH * height <= 4 * 256 * 1536) by (nonlinear_arith)
        requires height <= 1536, SIDEBAR_WIDTH == 256;
    assert(SIDEBAR_WIDTH as nat * height as nat == (SIDEBAR_WIDTH * height) as nat);
    Raster::filled(SIDEBAR_WIDTH, height, transparent())
}

impl<'a> HUD<'a> {
    pub fn new(d1: &'a CompleteDriverData, d2: &'a CompleteDriverData, regular_font: &'a FontData, bold_font: &'a FontData) -> (r: HUD<'a>)
        ensures
            r.d1 == d1,
            r.d2 == d2,
            r.regular_font == regular_font,
            r.bold_font == bold_font,
    {
        HUD { d1, d2, regular_font, bold_font }
    }

    /// The sidebar at tick `frame`.
    pub fn get_hud(&self, frame: usize) -> (r: Raster)
        requires
            lap_times_valid(self.d1.lap),
            lap_times_valid(self.d2.lap),
        ensures
            r.wf(),
            r.width == SIDEBAR_WIDTH,
            r.height == TRACK_HEIGHT,
            r.data@ == hud_pixels(self.regular_font.bytes@, self.bold_font.bytes@, *self.d1, *self.d2, frame as int),
    {
        let mut combined_buffer = blank(TRACK_HEIGHT);
        let d1_stats = self.get_driver_stats(self.d1, frame);
        let d2_stats = self.get_driver_stats(self.d2, frame);
        overlay_raster(&mut combined_buffer, &d1_stats, 0, PADDING_TB as i64);
        overlay_raster(&mut combined_buffer, &d2_stats, 0, (TRACK_HEIGHT - PADDING_TB - DRIVER_STATS_HEIGHT) as i64);
        combined_buffer
    }

    fn get_driver_and_team_name(&self, driver_name: &str, team_name: &str, color: Color) -> (r: Raster)
        ensures
            r.wf(),
            r.width == SIDEBAR_WIDTH,
            (r.data@, r.height as nat) == name_block(self.regular_font.bytes@, self.bold_font.bytes@, driver_name@, team_name@, color),
    {
        let driver_height = line_height(DRIVER_FONT_SIZE, self.bold_font);
        let team_height = line_height(TEAM_FONT_SIZE, self.regular_font);
        if driver_height <= TRACK_HEIGHT && team_height <= TRACK_HEIGHT {
            let mut name_buffer = blank(driver_height + team_height);
            draw_text(&mut name_buffer, color, PADDING_LR as i32, 0, DRIVER_FONT_SIZE, self.bold_font, driver_name);
            draw_text(&mut name_buffer, white(), PADDING_LR as i32, driver_height as i32 + DRIVER_TEAM_MARGIN, TEAM_FONT_SIZE, self.regular_font, team_name);
            name_buffer
        } else {
            blank(0)
        }
    }

    fn get_centered_line(&self, text: &str) -> (r: Raster)
        ensures
            r.wf(),
            r.width == SIDEBAR_WIDTH,
            (r.data@, r.height as nat) == centered_line(self.bold_font.bytes@, text@),
    {
        let height = line_height(LAP_SPEED_FONT_SIZE, self.bold_font);
        if height <= TRACK_HEIGHT {
            let width = text_width(LAP_SPEED_FONT_SIZE, self.bold_font, text);
            let dx = if width <= SIDEBAR_WIDTH { (SIDEBAR_WIDTH - width) / 2 } else { 0 };
            let mut buffer = blank(height);
            draw_text(&mut buffer, white(), dx as i32, 0, LAP_SPEED_FONT_SIZE, self.bold_font, text);
            buffer
        } else {
            blank(0)
        }
    }

    fn get_sector_times(&self, driver_data: &CompleteDriverData, current_frame: usize) -> (r: Raster)
        requires
            lap_times_valid(driver_data.lap),
        ensures
            r.wf(),
            r.width == SIDEBAR_WIDTH,
            (r.data@, r.height as nat) == sector_block(self.regular_font.bytes@, *driver_data, current_frame as int),
    {
        let height = line_height(SECTOR_FONT_SIZE, self.regular_font);
        if height <= TRACK_HEIGHT {
            let mut sector_times_buffer = blank(3 * height);
            let ghost h = height as nat;
            let ghost regular = self.regular_font.bytes@;
            let mut i: u8 = 0;
            while i < 3
                invariant
                    0 <= i <= 3,
                    height <= TRACK_HEIGHT,
                    h == height,
                    regular == self.regular_font.bytes@,
                    lap_times_valid(driver_data.lap),
                    sector_times_buffer.wf(),
                    sector_times_buffer.width == SIDEBAR_WIDTH,
                    sector_times_buffer.height == 3 * height,
                    sector_times_buffer.data@ == sectors_drawn(regular, h, *driver_data, current_frame as int, i as nat),
                decreases 3 - i,
            {
                let mut sector_time_buffer = blank(height);
                let sector_time_str = get_sector_time_str(driver_data, i + 1, current_frame);
                draw_text(&mut sector_time_buffer, white(), PADDING_LR as i32, 0, SECTOR_FONT_SIZE, self.regular_font, sector_time_str.as_str());
                assert(0 <= i * height <= 2 * 512) by (nonlinear_arith)
                    requires 0 <= i < 3, height <= 512;
                overlay_raster(&mut sector_times_buffer, &sector_time_buffer, 0, i as i64 * height as i64);
                i = i + 1;
            }
            sector_times_buffer
        } else {
            blank(0)
        }
    }

    fn get_driver_stats(&self, driver_data: &CompleteDriverData, current_frame: usize) -> (r: Raster)
        requires
            lap_times_valid(driver_data.lap),
        ensures
            r.wf(),
            r.width == SIDEBAR_WIDTH,
            r.height == DRIVER_STATS_HEIGHT,
            r.data@ == stats_block(self.regular_font.bytes@, self.bold_font.bytes@, *driver_data, current_frame as int),
    {
        let mut stats = blank(DRIVER_STATS_HEIGHT);
        let driver_name_buffer = self.get_driver_and_team_name(
            driver_data.driver.broadcast_name.as_str(), driver_data.driver.team_name.as_str(), driver_data.driver.team_color,
        );
        let headline_str = get_headline_str(driver_data, current_frame);
        let time_or_speed = self.get_centered_line(headline_str.as_str());
        let sector_times = self.get_sector_times(driver_data, current_frame);
        overlay_raster(&mut stats, &driver_name_buffer, 0, PADDING_TB_INNER as i64);
        overlay_raster(&mut stats, &time_or_speed, 0, PADDING_TB_INNER as i64 + driver_name_buffer.height as i64 + NAME_LAP_SPEED_MARGIN as i64);
        overlay_raster(&mut stats, &sector_times, 0, DRIVER_STATS_HEIGHT as i64 - sector_times.height as i64 - SECTOR_TIMES_MARGIN as i64);
        stats
    }
}

} // verus!
