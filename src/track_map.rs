use vstd::prelude::*;
use crate::model::{Color, DriverPosition};
use crate::raster::{
    Raster, color_bytes, draw_thick_line_mut, filled_pixels, in_draw_range, overlaid, overlay_raster,
    thick_line_drawn,
};
use crate::layout::{
    THICKNESS, TRACK_HEIGHT, TRACK_WIDTH, background_color, spec_background_color, spec_transparent,
    transparent,
};

verus! {

/// One driver's trail on the track map.
pub struct TrackTrail {
    pub positions: Vec<DriverPosition>,
    pub buffer: Raster,
    pub color: Color,
}

/// The segment drawn at `tick`, on screen: x along the width is the sample's
/// y, and y along the height is the sample's x.
pub open spec fn track_segment(pts: Seq<DriverPosition>, tick: int) -> ((i32, i32), (i32, i32)) {
    ((pts[tick].y, pts[tick].x), (pts[tick + 1].y, pts[tick + 1].x))
}

/// Whether `advance` draws at `tick`: only while a next sample exists.
pub open spec fn can_draw_at(len: int, tick: int) -> bool {
    tick + 1 < len
}

/// The trail's pixels after `ticks` advances from `pixels`.
pub open spec fn track_trail_after(pixels: Seq<u8>, width: nat, height: nat, pts: Seq<DriverPosition>, color: Color, ticks: nat) -> Seq<u8>
    decreases ticks,
{
    if ticks == 0 {
        pixels
    } else {
        let prev = track_trail_after(pixels, width, height, pts, color, (ticks - 1) as nat);
        let t = ticks - 1;
        if can_draw_at(pts.len() as int, t) {
            let seg = track_segment(pts, t);
            thick_line_drawn(prev, width, height, seg.0, seg.1, THICKNESS as int, color_bytes(color))
        } else {
            prev
        }
    }
}

/// The tick from which a trail of `len` samples no longer changes.
pub open spec fn exhaustion_tick(len: int) -> nat {
    if len <= 1 {
        0
    } else {
        (len - 1) as nat
    }
}

/// Once a driver's series is exhausted, the trail stays byte-identical on
/// every later tick.
pub proof fn lemma_track_trail_frozen(pixels: Seq<u8>, width: nat, height: nat, pts: Seq<DriverPosition>, color: Color, k: nat)
    requires
        k >= exhaustion_tick(pts.len() as int),
    ensures
        track_trail_after(pixels, width, height, pts, color, k)
            == track_trail_after(pixels, width, height, pts, color, exhaustion_tick(pts.len() as int)),
    decreases k,
{
    if k > exhaustion_tick(pts.len() as int) {
        lemma_track_trail_frozen(pixels, width, height, pts, color, (k - 1) as nat);
    }
}

pub open spec fn blank_track() -> Seq<u8> {
    filled_pixels((TRACK_WIDTH * TRACK_HEIGHT) as nat, spec_transparent())
}

pub open spec fn positions_drawable(pts: Seq<DriverPosition>) -> bool {
    forall|i: int| 0 <= i < pts.len() ==> in_draw_range((#[trigger] pts[i]).x as int) && in_draw_range(pts[i].y as int)
}

impl TrackTrail {
    /// The trail after `ticks` advances: its raster holds exactly what the
    /// segments of the first `ticks` ticks drew onto a transparent layer.
    pub open spec fn wf_at(&self, ticks: nat) -> bool {
        &&& self.buffer.wf()
        &&& self.buffer.width == TRACK_WIDTH
        &&& self.buffer.height == TRACK_HEIGHT
        &&& positions_drawable(self.positions@)
        &&& self.buffer.data@ == track_trail_after(blank_track(), TRACK_WIDTH as nat, TRACK_HEIGHT as nat, self.positions@, self.color, ticks)
    }

    fn new(positions: Vec<DriverPosition>, color: Color) -> (r: TrackTrail)
        requires
            positions_drawable(positions@),
        ensures
            r.wf_at(0),
            r.positions == positions,
            r.color == color,
    {
        let buffer = Raster::filled(TRACK_WIDTH, TRACK_HEIGHT, transparent());
        TrackTrail { positions, buffer, color }
    }

    /// Draws the segment from sample `tick` to sample `tick + 1`, if both
    /// exist; otherwise leaves the trail as it is.
    fn advance(&mut self, tick: usize)
        requires
            old(self).wf_at(tick as nat),
        ensures
            final(self).wf_at((tick + 1) as nat),
            final(self).positions == old(self).positions,
            final(self).color == old(self).color,
            !can_draw_at(old(self).positions@.len() as int, tick as int) ==> final(self).buffer.data@ == old(self).buffer.data@,
    {
        if tick < self.positions.len() && tick + 1 < self.positions.len() {
            let p1 = (self.positions[tick].y, self.positions[tick].x);
            let p2 = (self.positions[tick + 1].y, self.positions[tick + 1].x);
            draw_thick_line_mut(&mut self.buffer, p1, p2, self.color, THICKNESS);
        }
    }
}

/// The track-map layer: both drivers' trails, advanced one sample per tick.
pub struct TrackMap {
    pub d1: TrackTrail,
    pub d2: TrackTrail,
    pub current_frame: usize,
}

impl TrackMap {
    pub open spec fn wf(&self) -> bool {
        &&& self.d1.wf_at(self.current_frame as nat)
        &&& self.d2.wf_at(self.current_frame as nat)
    }

    /// Both trails start empty, on transparent layers of the track map's size.
    pub fn new(d1_positions: Vec<DriverPosition>, d2_positions: Vec<DriverPosition>, d1_color: Color, d2_color: Color) -> (r: TrackMap)
        requires
            positions_drawable(d1_positions@),
            positions_drawable(d2_positions@),
        ensures
            r.wf(),
            r.current_frame == 0,
            r.d1.positions == d1_positions,
            r.d2.positions == d2_positions,
            r.d1.color == d1_color,
            r.d2.color == d2_color,
    {
        TrackMap { d1: TrackTrail::new(d1_positions, d1_color), d2: TrackTrail::new(d2_positions, d2_color), current_frame: 0 }
    }

    /// Advances both trails by one tick: each draws its next segment while
    /// its series lasts and stays frozen afterwards.
    pub fn draw_next_frame(&mut self)
        requires
            old(self).wf(),
            old(self).current_frame < usize::MAX,
        ensures
            final(self).wf(),
            final(self).current_frame == old(self).current_frame + 1,
            final(self).d1.positions == old(self).d1.positions,
            final(self).d2.positions == old(self).d2.positions,
            final(self).d1.color == old(self).d1.color,
            final(self).d2.color == old(self).d2.color,
    {
        self.d1.advance(self.current_frame);
        self.d2.advance(self.current_frame);
        self.current_frame = self.current_frame + 1;
    }

    /// The track map as shown: the background, then the first driver's
    /// trail, then the second's.
    pub fn get_track_map(&self) -> (r: Raster)
        requires
            self.wf(),
        ensures
            r.wf(),
            r.width == TRACK_WIDTH,
            r.height == TRACK_HEIGHT,
            r.data@ == overlaid(
                overlaid(
                    filled_pixels((TRACK_WIDTH * TRACK_HEIGHT) as nat, spec_background_color()),
                    TRACK_WIDTH as nat, TRACK_HEIGHT as nat,
                    self.d1.buffer.data@, TRACK_WIDTH as nat, TRACK_HEIGHT as nat, 0, 0,
                ),
                TRACK_WIDTH as nat, TRACK_HEIGHT as nat,
                self.d2.buffer.data@, TRACK_WIDTH as nat, TRACK_HEIGHT as nat, 0, 0,
            ),
    {
        let mut track_map = Raster::filled(TRACK_WIDTH, TRACK_HEIGHT, background_color());
        overlay_raster(&mut track_map, &self.d1.buffer, 0, 0);
        overlay_raster(&mut track_map, &self.d2.buffer, 0, 0);
        track_map
    }
}

} // verus!
