use vstd::prelude::*;
use crate::model::{Color, CompleteDriverData, DriverPosition, DriverTelemetryData};
use crate::color::{disambiguated, get_driver_colors, reverse_blend};
use crate::normalize::{find_extrema, normalizable, normalize, normalized_series};
use crate::raster::{Raster, filled_pixels, overlaid, overlay_raster};
use crate::track_map::TrackMap;
use crate::telemetry_plot::TelemetryPlot;
use crate::hud_overlay::{HUD, hud_pixels};
use crate::hud_text::lap_times_valid;
use crate::text::FontData;
use crate::layout::{
    GIF_HEIGHT, GIF_WIDTH, HUD_POSITION_X, HUD_POSITION_Y, PADDING, SIDEBAR_WIDTH, TAIL_FRAMES, TELEMETRY_PLOT_HEIGHT,
    TELEMETRY_PLOT_WIDTH, TELEMETRY_POSITION_X, TELEMETRY_POSITION_Y, TRACK_HEIGHT, TRACK_WIDTH, background_color,
    spec_background_color,
};

verus! {

/// Number of frames of the animation: the longer series, then `pad` more.
pub open spec fn frame_total(len_a: int, len_b: int, pad: int) -> int {
    (if len_a >= len_b { len_a } else { len_b }) + pad
}

/// Number of frames of the animation: one per sample of the longer series,
/// then `pad` more so that the final state stays visible.
pub fn total_frames(len_a: usize, len_b: usize, pad: usize) -> (r: usize)
    requires
        frame_total(len_a as int, len_b as int, pad as int) <= usize::MAX,
    ensures
        r == frame_total(len_a as int, len_b as int, pad as int),
{
    (if len_a >= len_b { len_a } else { len_b }) + pad
}

/// The composed frame: the background, the track map at the origin, the
/// telemetry plot at its offset, the sidebar at its offset.
pub open spec fn frame_pixels(track: Seq<u8>, plot: Seq<u8>, hud: Seq<u8>) -> Seq<u8> {
    let w = GIF_WIDTH as nat;
    let h = GIF_HEIGHT as nat;
    let canvas = filled_pixels(w * h, spec_background_color());
    let with_track = overlaid(canvas, w, h, track, TRACK_WIDTH as nat, TRACK_HEIGHT as nat, 0, 0);
    let with_plot = overlaid(with_track, w, h, plot, TELEMETRY_PLOT_WIDTH as nat, TELEMETRY_PLOT_HEIGHT as nat, TELEMETRY_POSITION_X as int, TELEMETRY_POSITION_Y as int);
    overlaid(with_plot, w, h, hud, SIDEBAR_WIDTH as nat, TRACK_HEIGHT as nat, HUD_POSITION_X as int, HUD_POSITION_Y as int)
}

/// Composes one output frame from the three layers, in that order.
pub fn compose_frame(track: &Raster, plot: &Raster, hud: &Raster) -> (r: Raster)
    requires
        track.wf() && track.width == TRACK_WIDTH && track.height == TRACK_HEIGHT,
        plot.wf() && plot.width == TELEMETRY_PLOT_WIDTH && plot.height == TELEMETRY_PLOT_HEIGHT,
        hud.wf() && hud.width == SIDEBAR_WIDTH && hud.height == TRACK_HEIGHT,
    ensures
        r.wf(),
        r.width == GIF_WIDTH,
        r.height == GIF_HEIGHT,
        r.data@ == frame_pixels(track.data@, plot.data@, hud.data@),
{
    assert(GIF_WIDTH == 768 && GIF_HEIGHT == 768);
    assert(4 * GIF_WIDTH * GIF_HEIGHT == 2359296) by (nonlinear_arith)
        requires GIF_WIDTH == 768, GIF_HEIGHT == 768;
    let mut combined = Raster::filled(GIF_WIDTH, GIF_HEIGHT, background_color());
    overlay_raster(&mut combined, track, 0, 0);
    overlay_raster(&mut combined, plot, TELEMETRY_POSITION_X, TELEMETRY_POSITION_Y);
    overlay_raster(&mut combined, hud, HUD_POSITION_X, HUD_POSITION_Y);
    combined
}

/// Why an animation cannot be made from two drivers' records.
#[derive(Clone, Copy, Debug, PartialEq, Eq, Structural)]
pub enum RenderError {
    /// A driver's telemetry series is empty.
    EmptyTelemetry,
    /// A lap or sector time is negative.
    NegativeLapTime,
    /// The positions span more than an `i32` once shifted to be non-negative.
    CoordinatesOutOfRange,
    /// The frame count does not fit a `usize`.
    TooManySamples,
}

pub open spec fn positions_of(tel: Seq<DriverTelemetryData>) -> Seq<DriverPosition> {
    tel.map_values(|t: DriverTelemetryData| DriverPosition { x: t.x, y: t.y })
}

/// The error for two drivers' records, if any, in the order checked.
pub open spec fn input_error(d1: CompleteDriverData, d2: CompleteDriverData) -> Option<RenderError> {
    if d1.telemetry@.len() == 0 || d2.telemetry@.len() == 0 {
        Some(RenderError::EmptyTelemetry)
    } else if !lap_times_valid(d1.lap) || !lap_times_valid(d2.lap) {
        Some(RenderError::NegativeLapTime)
    } else if !normalizable(positions_of(d1.telemetry@), positions_of(d2.telemetry@), TRACK_WIDTH as int, TRACK_HEIGHT as int, PADDING as int) {
        Some(RenderError::CoordinatesOutOfRange)
    } else if frame_total(d1.telemetry@.len() as int, d2.telemetry@.len() as int, TAIL_FRAMES as int) > usize::MAX {
        Some(RenderError::TooManySamples)
    } else {
        None
    }
}

fn positions(tel: &Vec<DriverTelemetryData>) -> (r: Vec<DriverPosition>)
    ensures
        r@ == positions_of(tel@),
{
    let mut r: Vec<DriverPosition> = Vec::new();
    let mut i: usize = 0;
    while i < tel.len()
        invariant
            0 <= i <= tel@.len(),
            r@ == positions_of(tel@).take(i as int),
        decreases tel@.len() - i,
    {
        r.push(DriverPosition { x: tel[i].x, y: tel[i].y });
        assert(positions_of(tel@).take(i + 1) =~= positions_of(tel@).take(i as int).push(DriverPosition { x: tel@[i as int].x, y: tel@[i as int].y }));
        i = i + 1;
    }
    assert(positions_of(tel@).take(tel@.len() as int) =~= positions_of(tel@));
    r
}

fn lap_times_ok(d: &CompleteDriverData) -> (r: bool)
    ensures
        r == lap_times_valid(d.lap),
{
    d.lap.lap_time >= 0 && d.lap.sector1_time >= 0 && d.lap.sector2_time >= 0 && d.lap.sector3_time >= 0
}

/// The whole animation: both drivers' records, the fonts, the colours, and
/// the stateful track-map and telemetry-plot layers.
pub struct Animation {
    pub d1: CompleteDriverData,
    pub d2: CompleteDriverData,
    pub regular_font: FontData,
    pub bold_font: FontData,
    pub d1_color: Color,
    pub d2_color: Color,
    pub track_map: TrackMap,
    pub telemetry_plot: TelemetryPlot,
    pub current_frame: usize,
    pub total: usize,
}

impl Animation {
    pub open spec fn wf(&self) -> bool {
        &&& self.track_map.wf()
        &&& self.telemetry_plot.wf()
        &&& self.track_map.current_frame == self.current_frame
        &&& self.telemetry_plot.current_frame == self.current_frame
        &&& self.current_frame <= self.total
        &&& lap_times_valid(self.d1.lap)
        &&& lap_times_valid(self.d2.lap)
        &&& self.total == frame_total(self.d1.telemetry@.len() as int, self.d2.telemetry@.len() as int, TAIL_FRAMES as int)
    }

    /// Sets up the animation: resolves the colours (the second driver's team
    /// colour changes where both share one), normalizes the positions into
    /// the track map, and starts both layers empty.
    pub fn new(d1: CompleteDriverData, d2: CompleteDriverData, regular_font: FontData, bold_font: FontData) -> (r: Result<Animation, RenderError>)
        ensures
            match r {
                Ok(a) => {
                    &&& input_error(d1, d2) is None
                    &&& a.wf()
                    &&& a.current_frame == 0
                    &&& a.d1 == d1
                    &&& a.d2.telemetry == d2.telemetry
                    &&& a.d2.lap == d2.lap
                    &&& a.d2.driver.team_color == disambiguated(d1.driver.team_color, d2.driver.team_color)
                    &&& a.d1_color == reverse_blend(d1.driver.team_color, spec_background_color())
                    &&& a.d2_color == reverse_blend(a.d2.driver.team_color, spec_background_color())
                    &&& a.track_map.d1.positions@ == normalized_series(positions_of(d1.telemetry@), positions_of(d1.telemetry@), positions_of(d2.telemetry@), TRACK_WIDTH as int, TRACK_HEIGHT as int, PADDING as int)
                    &&& a.track_map.d2.positions@ == normalized_series(positions_of(d2.telemetry@), positions_of(d1.telemetry@), positions_of(d2.telemetry@), TRACK_WIDTH as int, TRACK_HEIGHT as int, PADDING as int)
                    &&& a.track_map.d1.color == a.d1_color
                    &&& a.track_map.d2.color == a.d2_color
                    &&& a.telemetry_plot.d1.color == a.d1_color
                    &&& a.telemetry_plot.d2.color == a.d2_color
                    &&& a.telemetry_plot.d1.telemetry@ == d1.telemetry@
                    &&& a.telemetry_plot.d2.telemetry@ == d2.telemetry@
                },
                Err(e) => input_error(d1, d2) == Some(e),
            },
    {
        if d1.telemetry.len() == 0 || d2.telemetry.len() == 0 {
            return Err(RenderError::EmptyTelemetry);
        }
        if !lap_times_ok(&d1) || !lap_times_ok(&d2) {
            return Err(RenderError::NegativeLapTime);
        }
        let mut p1 = positions(&d1.telemetry);
        let mut p2 = positions(&d2.telemetry);
        let ((lx, hx), (ly, hy)) = find_extrema(&p1, &p2);
        let sx: i64 = if lx < 0 { -(lx as i64) } else { 0 };
        let sy: i64 = if ly < 0 { -(ly as i64) } else { 0 };
        if hx as i64 + sx > i32::MAX as i64 || hy as i64 + sy > i32::MAX as i64 {
            return Err(RenderError::CoordinatesOutOfRange);
        }
        if d1.telemetry.len() > usize::MAX - TAIL_FRAMES || d2.telemetry.len() > usize::MAX - TAIL_FRAMES {
            return Err(RenderError::TooManySamples);
        }
        normalize(&mut p1, &mut p2, TRACK_WIDTH, TRACK_HEIGHT, PADDING);
        let mut d2 = d2;
        let (d1_color, d2_color) = get_driver_colors(&d1.driver, &mut d2.driver, background_color());
        let track_map = TrackMap::new(p1, p2, d1_color, d2_color);
        let telemetry_plot = TelemetryPlot::new(&d1, &d2, d1_color, d2_color, &regular_font);
        let total = total_frames(d1.telemetry.len(), d2.telemetry.len(), TAIL_FRAMES);
        Ok(Animation { d1, d2, regular_font, bold_font, d1_color, d2_color, track_map, telemetry_plot, current_frame: 0, total })
    }

    /// Number of frames of the animation.
    pub fn frame_count(&self) -> (r: usize)
        requires
            self.wf(),
        ensures
            r == frame_total(self.d1.telemetry@.len() as int, self.d2.telemetry@.len() as int, TAIL_FRAMES as int),
    {
        self.total
    }

    /// Whether frames are left to render.
    pub fn has_next_frame(&self) -> (r: bool)
        requires
            self.wf(),
        ensures
            r == (self.current_frame < self.total),
    {
        self.current_frame < self.total
    }

    /// Advances both layers by one tick and composes the frame for it.
    pub fn render_next_frame(&mut self) -> (r: Raster)
        requires
            old(self).wf(),
            old(self).current_frame < old(self).total,
        ensures
            final(self).wf(),
            final(self).current_frame == old(self).current_frame + 1,
            final(self).d1 == old(self).d1,
            final(self).d2 == old(self).d2,
            r.wf(),
            r.width == GIF_WIDTH,
            r.height == GIF_HEIGHT,
            r.data@ == frame_pixels(
                overlaid(
                    overlaid(
                        filled_pixels((TRACK_WIDTH * TRACK_HEIGHT) as nat, spec_background_color()), TRACK_WIDTH as nat, TRACK_HEIGHT as nat,
                        final(self).track_map.d1.buffer.data@, TRACK_WIDTH as nat, TRACK_HEIGHT as nat, 0, 0,
                    ),
                    TRACK_WIDTH as nat, TRACK_HEIGHT as nat,
                    final(self).track_map.d2.buffer.data@, TRACK_WIDTH as nat, TRACK_HEIGHT as nat, 0, 0,
                ),
                overlaid(
                    overlaid(
                        final(self).telemetry_plot.base_buffer.data@, TELEMETRY_PLOT_WIDTH as nat, TELEMETRY_PLOT_HEIGHT as nat,
                        final(self).telemetry_plot.d1.buffer.data@, crate::telemetry_plot::TRAIL_AREA_WIDTH as nat, crate::telemetry_plot::TRAIL_AREA_HEIGHT as nat,
                        crate::layout::TELEMETRY_PLOT_AXES_LABELS_MARGIN as int, 0,
                    ),
                    TELEMETRY_PLOT_WIDTH as nat, TELEMETRY_PLOT_HEIGHT as nat,
                    final(self).telemetry_plot.d2.buffer.data@, crate::telemetry_plot::TRAIL_AREA_WIDTH as nat, crate::telemetry_plot::TRAIL_AREA_HEIGHT as nat,
                    crate::layout::TELEMETRY_PLOT_AXES_LABELS_MARGIN as int, 0,
                ),
                hud_pixels(old(self).regular_font.bytes@, old(self).bold_font.bytes@, old(self).d1, old(self).d2, old(self).current_frame as int),
            ),
    {
        let frame = self.current_frame;
        self.track_map.draw_next_frame();
        self.telemetry_plot.draw_next_frame();
        let hud = HUD::new(&self.d1, &self.d2, &self.regular_font, &self.bold_font);
        let hud_layer = hud.get_hud(frame);
        let track = self.track_map.get_track_map();
        let plot = self.telemetry_plot.get_telemetry_plot();
        self.current_frame = frame + 1;
        compose_frame(&track, &plot, &hud_layer)
    }
}

} // verus!
