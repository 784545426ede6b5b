use vstd::prelude::*;
use crate::model::{Color, CompleteDriverData, DriverTelemetryData};
use crate::normalize::lemma_max_characterized;
use crate::raster::{Raster, color_bytes, draw_segment, filled_pixels, overlaid, overlay_raster, segment_drawn};
use crate::text::{FontData, draw_text, line_height, rotate_270, text_width};
use crate::layout::{
    TELEMETRY_LABEL_FONT_SIZE, TELEMETRY_LABEL_MARGIN, TELEMETRY_PLOT_AXES_LABELS_MARGIN, TELEMETRY_PLOT_HEIGHT,
    TELEMETRY_PLOT_WIDTH, spec_transparent, transparent, white,
};

verus! {

/// Width of the area the trails are drawn in, right of the speed axis.
pub const TRAIL_AREA_WIDTH: u32 = TELEMETRY_PLOT_WIDTH - TELEMETRY_PLOT_AXES_LABELS_MARGIN;
/// Height of the area the trails are drawn in, above the distance axis.
pub const TRAIL_AREA_HEIGHT: u32 = TELEMETRY_PLOT_HEIGHT - TELEMETRY_PLOT_AXES_LABELS_MARGIN;

/// Horizontal plot position: the fraction of the lap (in millionths) times
/// the width, rounded down.
pub open spec fn plot_x(relative_distance_ppm: int, width: int) -> int {
    width * relative_distance_ppm / 1_000_000
}

/// Vertical plot position: the full height at zero speed, the top at the
/// largest speed.
pub open spec fn plot_y(speed: int, max_speed: int, height: int) -> int {
    if speed <= 0 || max_speed <= 0 {
        height
    } else {
        height - height * speed / max_speed
    }
}

pub open spec fn plot_point(s: DriverTelemetryData, max_speed: int, width: int, height: int) -> (int, int) {
    (plot_x(s.relative_distance_ppm as int, width), plot_y(s.speed as int, max_speed, height))
}

pub open spec fn point_view(p: Option<(u32, u32)>) -> Option<(int, int)> {
    match p {
        Some(q) => Some((q.0 as int, q.1 as int)),
        None => None,
    }
}

/// The plot trail's pixels and last point after `ticks` advances from
/// `pixels`: each tick within the series joins the previous point, if any,
/// to the tick's point and records that point.
pub open spec fn plot_trail_after(
    pixels: Seq<u8>,
    samples: Seq<DriverTelemetryData>,
    max_speed: int,
    color: Color,
    ticks: nat,
) -> (Seq<u8>, Option<(int, int)>)
    decreases ticks,
{
    if ticks == 0 {
        (pixels, None)
    } else {
        let prev = plot_trail_after(pixels, samples, max_speed, color, (ticks - 1) as nat);
        let t = ticks - 1;
        if t < samples.len() {
            let np = plot_point(samples[t], max_speed, TRAIL_AREA_WIDTH as int, TRAIL_AREA_HEIGHT as int);
            let drawn = match prev.1 {
                Some(pp) => segment_drawn(
                    prev.0, TRAIL_AREA_WIDTH as nat, TRAIL_AREA_HEIGHT as nat, pp.0, pp.1, np.0, np.1, color_bytes(color),
                ),
                None => prev.0,
            };
            (drawn, Some(np))
        } else {
            prev
        }
    }
}

/// Once a driver's series is exhausted, the plot trail stays byte-identical
/// on every later tick.
pub proof fn lemma_plot_trail_frozen(pixels: Seq<u8>, samples: Seq<DriverTelemetryData>, max_speed: int, color: Color, k: nat)
    requires
        k >= samples.len(),
    ensures
        plot_trail_after(pixels, samples, max_speed, color, k) == plot_trail_after(pixels, samples, max_speed, color, samples.len()),
    decreases k,
{
    if k > samples.len() {
        lemma_plot_trail_frozen(pixels, samples, max_speed, color, (k - 1) as nat);
    }
}

pub open spec fn blank_trail_area() -> Seq<u8> {
    filled_pixels((TRAIL_AREA_WIDTH * TRAIL_AREA_HEIGHT) as nat, spec_transparent())
}

pub open spec fn speeds_of(s: Seq<DriverTelemetryData>) -> Seq<int> {
    s.map_values(|t: DriverTelemetryData| t.speed as int)
}

/// One driver's trail on the speed/distance plot.
pub struct PlotTrail {
    pub telemetry: Vec<DriverTelemetryData>,
    pub buffer: Raster,
    pub color: Color,
    pub current_point: Option<(u32, u32)>,
}

impl PlotTrail {
    pub open spec fn wf_at(&self, max_speed: int, ticks: nat) -> bool {
        &&& self.buffer.wf()
        &&& self.buffer.width == TRAIL_AREA_WIDTH
        &&& self.buffer.height == TRAIL_AREA_HEIGHT
        &&& forall|i: int| 0 <= i < self.telemetry@.len() ==> (#[trigger] self.telemetry@[i]).speed <= max_speed
        &&& (self.current_point matches Some(p) ==> p.0 <= 0x80_0000 && p.1 <= TRAIL_AREA_HEIGHT)
        &&& (self.buffer.data@, point_view(self.current_point))
            == plot_trail_after(blank_trail_area(), self.telemetry@, max_speed, self.color, ticks)
    }
}

fn copy_samples(v: &Vec<DriverTelemetryData>) -> (r: Vec<DriverTelemetryData>)
    ensures
        r@ == v@,
{
    let mut r: Vec<DriverTelemetryData> = Vec::new();
    let mut i: usize = 0;
    while i < v.len()
        invariant
            0 <= i <= v@.len(),
            r@ == v@.take(i as int),
        decreases v@.len() - i,
    {
        r.push(v[i]);
        assert(v@.take(i + 1) =~= v@.take(i as int).push(v@[i as int]));
        i = i + 1;
    }
    assert(v@.take(v@.len() as int) =~= v@);
    r
}

fn max_speed_of(v: &Vec<DriverTelemetryData>) -> (r: i32)
    requires
        v@.len() > 0,
    ensures
        r == speeds_of(v@).max(),
{
    let ghost s = speeds_of(v@);
    let mut best = v[0].speed;
    let ghost mut w: int = 0;
    let mut i: usize = 1;
    while i < v.len()
        invariant
            s == speeds_of(v@),
            1 <= i <= v@.len(),
            0 <= w < i,
            s[w] == best,
            forall|j: int| 0 <= j < i ==> #[trigger] s[j] <= best,
        decreases v@.len() - i,
    {
        if v[i].speed > best {
            best = v[i].speed;
            proof { w = i as int; }
        }
        i = i + 1;
    }
    proof { lemma_max_characterized(s, best as int, w); }
    best
}

/// The largest speed, over both drivers' samples: the plot's common scale.
pub open spec fn shared_max_speed(a: Seq<DriverTelemetryData>, b: Seq<DriverTelemetryData>) -> int {
    let m1 = speeds_of(a).max();
    let m2 = speeds_of(b).max();
    if m1 >= m2 {
        m1
    } else {
        m2
    }
}

/// The pixels of the fixed base layer: the distance label, the rotated
/// speed label, then both axes. A label that the font makes larger than the
/// plot is left out.
pub open spec fn plot_base_pixels(font: Seq<u8>) -> Seq<u8> {
    let w = TELEMETRY_PLOT_WIDTH as nat;
    let h = TELEMETRY_PLOT_HEIGHT as nat;
    let m = TELEMETRY_PLOT_AXES_LABELS_MARGIN as int;
    let size = TELEMETRY_LABEL_FONT_SIZE as nat;
    let blank = filled_pixels(w * h, spec_transparent());
    let dist_w = text_width_of_label(font, "DISTANCE"@);
    let with_distance = if dist_w <= w {
        crate::text::text_drawn(
            blank, w, h, color_bytes(crate::layout::spec_white()),
            (w - m) / 2 + m - dist_w / 2, h - m + TELEMETRY_LABEL_MARGIN, size, font, "DISTANCE"@,
        )
    } else {
        blank
    };
    let speed_w = text_width_of_label(font, "SPEED"@);
    let lh = crate::text::line_height_of(font, size);
    let with_speed = if speed_w <= w && lh <= h {
        let label = crate::text::text_drawn(
            filled_pixels(speed_w * lh, spec_transparent()), speed_w, lh, color_bytes(crate::layout::spec_white()),
            0, 0, size, font, "SPEED"@,
        );
        overlaid(
            with_distance, w, h, crate::text::rotated_270(label, speed_w, lh), lh, speed_w,
            m - TELEMETRY_LABEL_MARGIN - lh, (h - m) / 2 - speed_w / 2,
        )
    } else {
        with_distance
    };
    let white = color_bytes(crate::layout::spec_white());
    let with_x_axis = segment_drawn(with_speed, w, h, m, h - m, w as int, h - m, white);
    segment_drawn(with_x_axis, w, h, m, 0, m, h - m, white)
}

pub open spec fn text_width_of_label(font: Seq<u8>, label: Seq<char>) -> nat {
    crate::text::text_width_of(font, TELEMETRY_LABEL_FONT_SIZE as nat, label)
}

/// The speed/distance plot: a fixed base layer and both drivers' trails,
/// advanced one sample per tick, on one shared vertical scale.
pub struct TelemetryPlot {
    pub d1: PlotTrail,
    pub d2: PlotTrail,
    pub base_buffer: Raster,
    pub max_speed: i32,
    pub current_frame: usize,
}

impl TelemetryPlot {
    pub open spec fn wf(&self) -> bool {
        &&& self.d1.wf_at(self.max_speed as int, self.current_frame as nat)
        &&& self.d2.wf_at(self.max_speed as int, self.current_frame as nat)
        &&& self.base_buffer.wf()
        &&& self.base_buffer.width == TELEMETRY_PLOT_WIDTH
        &&& self.base_buffer.height == TELEMETRY_PLOT_HEIGHT
    }

    /// Both trails start empty; the base layer is drawn once, with `font`.
    pub fn new(d1_complete_data: &CompleteDriverData, d2_complete_data: &CompleteDriverData, d1_color: Color, d2_color: Color, font: &FontData) -> (r: TelemetryPlot)
        requires
            d1_complete_data.telemetry@.len() > 0,
            d2_complete_data.telemetry@.len() > 0,
        ensures
            r.wf(),
            r.current_frame == 0,
            r.max_speed == shared_max_speed(d1_complete_data.telemetry@, d2_complete_data.telemetry@),
            r.d1.telemetry@ == d1_complete_data.telemetry@,
            r.d2.telemetry@ == d2_complete_data.telemetry@,
            r.d1.color == d1_color,
            r.d2.color == d2_color,
            r.base_buffer.data@ == plot_base_pixels(font.bytes@),
    {
        let max_speed = Self::get_max_speed(d1_complete_data, d2_complete_data);
        assert(TRAIL_AREA_WIDTH == 706 && TRAIL_AREA_HEIGHT == 194);
        assert(4 * TRAIL_AREA_WIDTH * TRAIL_AREA_HEIGHT == 547856) by (nonlinear_arith)
            requires TRAIL_AREA_WIDTH == 706, TRAIL_AREA_HEIGHT == 194;
        let d1 = PlotTrail {
            telemetry: copy_samples(&d1_complete_data.telemetry),
            buffer: Raster::filled(TRAIL_AREA_WIDTH, TRAIL_AREA_HEIGHT, transparent()),
            color: d1_color,
            current_point: None,
        };
        let d2 = PlotTrail {
            telemetry: copy_samples(&d2_complete_data.telemetry),
            buffer: Raster::filled(TRAIL_AREA_WIDTH, TRAIL_AREA_HEIGHT, transparent()),
            color: d2_color,
            current_point: None,
        };
        TelemetryPlot { d1, d2, base_buffer: Self::draw_base(font), max_speed, current_frame: 0 }
    }

    fn get_max_speed(d1: &CompleteDriverData, d2: &CompleteDriverData) -> (r: i32)
        requires
            d1.telemetry@.len() > 0,
            d2.telemetry@.len() > 0,
        ensures
            r == shared_max_speed(d1.telemetry@, d2.telemetry@),
            forall|i: int| 0 <= i < d1.telemetry@.len() ==> (#[trigger] d1.telemetry@[i]).speed <= r,
            forall|i: int| 0 <= i < d2.telemetry@.len() ==> (#[trigger] d2.telemetry@[i]).speed <= r,
    {
        let s1 = max_speed_of(&d1.telemetry);
        let s2 = max_speed_of(&d2.telemetry);
        proof {
            speeds_of(d1.telemetry@).max_ensures();
            speeds_of(d2.telemetry@).max_ensures();
            assert forall|i: int| 0 <= i < d1.telemetry@.len() implies (#[trigger] d1.telemetry@[i]).speed <= s1 by {
                assert(speeds_of(d1.telemetry@)[i] == d1.telemetry@[i].speed);
            }
            assert forall|i: int| 0 <= i < d2.telemetry@.len() implies (#[trigger] d2.telemetry@[i]).speed <= s2 by {
                assert(speeds_of(d2.telemetry@)[i] == d2.telemetry@[i].speed);
            }
        }
        if s1 >= s2 {
            s1
        } else {
            s2
        }
    }

    fn get_point(sample: &DriverTelemetryData, max_speed: i32, width: u32, height: u32) -> (r: (u32, u32))
        requires
            sample.speed <= max_speed,
            width <= TRAIL_AREA_WIDTH,
        ensures
            (r.0 as int, r.1 as int) == plot_point(*sample, max_speed as int, width as int, height as int),
            r.0 <= 0x80_0000,
            r.1 <= height,
    {
        let ppm = sample.relative_distance_ppm as u64;
        assert(width * ppm <= 1000 * 0xffff_ffff) by (nonlinear_arith)
            requires width <= 1000, ppm <= 0xffff_ffff;
        let x = (width as u64 * ppm) / 1_000_000;
        let y = if sample.speed <= 0 || max_speed <= 0 {
            height
        } else {
            assert(0 <= height * sample.speed <= 0xffff_ffff * 0x7fff_ffff) by (nonlinear_arith)
                requires 0 <= height <= 0xffff_ffff, 0 < sample.speed <= 0x7fff_ffff;
            let num = height as u64 * sample.speed as u64;
            assert(height * sample.speed <= height * max_speed) by (nonlinear_arith)
                requires 0 < sample.speed <= max_speed, height >= 0;
            assert(height * sample.speed / (max_speed as int) <= height) by (nonlinear_arith)
                requires height * sample.speed <= height * max_speed, max_speed > 0, height >= 0, sample.speed > 0;
            height - (num / max_speed as u64) as u32
        };
        (x as u32, y)
    }

    fn draw_telemetry(max_speed: i32, driver: &mut PlotTrail, current_frame: usize)
        requires
            old(driver).wf_at(max_speed as int, current_frame as nat),
        ensures
            final(driver).wf_at(max_speed as int, (current_frame + 1) as nat),
            final(driver).telemetry == old(driver).telemetry,
            final(driver).color == old(driver).color,
            current_frame >= old(driver).telemetry@.len() ==> final(driver).buffer.data@ == old(driver).buffer.data@,
    {
        if current_frame < driver.telemetry.len() {
            let new_point = Self::get_point(&driver.telemetry[current_frame], max_speed, driver.buffer.width, driver.buffer.height);
            match driver.current_point {
                Some(prev_point) => {
                    draw_segment(&mut driver.buffer, prev_point.0 as i32, prev_point.1 as i32, new_point.0 as i32, new_point.1 as i32, driver.color);
                },
                None => {},
            }
            driver.current_point = Some(new_point);
        }
    }

    /// Advances both trails by one tick: each joins its previous point to
    /// the current sample's point while its series lasts, and stays frozen
    /// afterwards.
    pub fn draw_next_frame(&mut self)
        requires
            old(self).wf(),
            old(self).current_frame < usize::MAX,
        ensures
            final(self).wf(),
            final(self).current_frame == old(self).current_frame + 1,
            final(self).max_speed == old(self).max_speed,
            final(self).base_buffer == old(self).base_buffer,
            final(self).d1.telemetry == old(self).d1.telemetry,
            final(self).d2.telemetry == old(self).d2.telemetry,
            final(self).d1.color == old(self).d1.color,
            final(self).d2.color == old(self).d2.color,
    {
        Self::draw_telemetry(self.max_speed, &mut self.d1, self.current_frame);
        Self::draw_telemetry(self.max_speed, &mut self.d2, self.current_frame);
        self.current_frame = self.current_frame + 1;
    }

    /// The plot as shown: the base layer, then the first driver's trail,
    /// then the second's, both right of the speed axis.
    pub fn get_telemetry_plot(&self) -> (r: Raster)
        requires
            self.wf(),
        ensures
            r.wf(),
            r.width == TELEMETRY_PLOT_WIDTH,
            r.height == TELEMETRY_PLOT_HEIGHT,
            r.data@ == overlaid(
                overlaid(
                    self.base_buffer.data@, TELEMETRY_PLOT_WIDTH as nat, TELEMETRY_PLOT_HEIGHT as nat,
                    self.d1.buffer.data@, TRAIL_AREA_WIDTH as nat, TRAIL_AREA_HEIGHT as nat,
                    TELEMETRY_PLOT_AXES_LABELS_MARGIN as int, 0,
                ),
                TELEMETRY_PLOT_WIDTH as nat, TELEMETRY_PLOT_HEIGHT as nat,
                self.d2.buffer.data@, TRAIL_AREA_WIDTH as nat, TRAIL_AREA_HEIGHT as nat,
                TELEMETRY_PLOT_AXES_LABELS_MARGIN as int, 0,
            ),
    {
        let mut buffer = Raster {
            width: self.base_buffer.width,
            height: self.base_buffer.height,
            data: self.base_buffer.data.clone(),
        };
        assert(buffer.data@ =~= self.base_buffer.data@);
        overlay_raster(&mut buffer, &self.d1.buffer, TELEMETRY_PLOT_AXES_LABELS_MARGIN as i64, 0);
        overlay_raster(&mut buffer, &self.d2.buffer, TELEMETRY_PLOT_AXES_LABELS_MARGIN as i64, 0);
        buffer
    }

    fn draw_axes(buffer: &mut Raster)
        requires
            old(buffer).wf(),
        ensures
            final(buffer).wf(),
            final(buffer).width == old(buffer).width,
            final(buffer).height == old(buffer).height,
            ({
                let w = old(buffer).width as nat;
                let h = old(buffer).height as nat;
                let m = TELEMETRY_PLOT_AXES_LABELS_MARGIN as int;
                let white = color_bytes(crate::layout::spec_white());
                final(buffer).data@ == segment_drawn(
                    segment_drawn(old(buffer).data@, w, h, m, TELEMETRY_PLOT_HEIGHT - m, TELEMETRY_PLOT_WIDTH as int, TELEMETRY_PLOT_HEIGHT - m, white),
                    w, h, m, 0, m, TELEMETRY_PLOT_HEIGHT - m, white,
                )
            }),
    {
        let m = TELEMETRY_PLOT_AXES_LABELS_MARGIN as i32;
        let bottom = (TELEMETRY_PLOT_HEIGHT - TELEMETRY_PLOT_AXES_LABELS_MARGIN) as i32;
        draw_segment(buffer, m, bottom, TELEMETRY_PLOT_WIDTH as i32, bottom, white());
        draw_segment(buffer, m, 0, m, bottom, white());
    }

    fn draw_distance_label(buffer: &mut Raster, font: &FontData)
        requires
            old(buffer).wf(),
        ensures
            final(buffer).wf(),
            final(buffer).width == old(buffer).width,
            final(buffer).height == old(buffer).height,
            ({
                let m = TELEMETRY_PLOT_AXES_LABELS_MARGIN as int;
                let dist_w = text_width_of_label(font.bytes@, "DISTANCE"@);
                final(buffer).data@ == if dist_w <= TELEMETRY_PLOT_WIDTH {
                    crate::text::text_drawn(
                        old(buffer).data@, old(buffer).width as nat, old(buffer).height as nat,
                        color_bytes(crate::layout::spec_white()),
                        (TELEMETRY_PLOT_WIDTH - m) / 2 + m - dist_w / 2,
                        TELEMETRY_PLOT_HEIGHT - m + TELEMETRY_LABEL_MARGIN,
                        TELEMETRY_LABEL_FONT_SIZE as nat, font.bytes@, "DISTANCE"@,
                    )
                } else {
                    old(buffer).data@
                }
            }),
    {
        let label = "DISTANCE";
        let label_width = text_width(TELEMETRY_LABEL_FONT_SIZE, font, label);
        if label_width <= TELEMETRY_PLOT_WIDTH {
            let x = ((TELEMETRY_PLOT_WIDTH - TELEMETRY_PLOT_AXES_LABELS_MARGIN) / 2 + TELEMETRY_PLOT_AXES_LABELS_MARGIN) as i64
                - (label_width / 2) as i64;
            let y = TELEMETRY_PLOT_HEIGHT - TELEMETRY_PLOT_AXES_LABELS_MARGIN + TELEMETRY_LABEL_MARGIN;
            draw_text(buffer, white(), x as i32, y as i32, TELEMETRY_LABEL_FONT_SIZE, font, label);
        }
    }

    fn draw_speed_label(buffer: &mut Raster, font: &FontData)
        requires
            old(buffer).wf(),
            old(buffer).width == TELEMETRY_PLOT_WIDTH,
            old(buffer).height == TELEMETRY_PLOT_HEIGHT,
        ensures
            final(buffer).wf(),
            final(buffer).width == old(buffer).width,
            final(buffer).height == old(buffer).height,
            ({
                let w = TELEMETRY_PLOT_WIDTH as nat;
                let h = TELEMETRY_PLOT_HEIGHT as nat;
                let m = TELEMETRY_PLOT_AXES_LABELS_MARGIN as int;
                let size = TELEMETRY_LABEL_FONT_SIZE as nat;
                let speed_w = text_width_of_label(font.bytes@, "SPEED"@);
                let lh = crate::text::line_height_of(font.bytes@, size);
                final(buffer).data@ == if speed_w <= w && lh <= h {
                    let label = crate::text::text_drawn(
                        filled_pixels(speed_w * lh, spec_transparent()), speed_w, lh, color_bytes(crate::layout::spec_white()),
                        0, 0, size, font.bytes@, "SPEED"@,
                    );
                    overlaid(
                        old(buffer).data@, w, h, crate::text::rotated_270(label, speed_w, lh), lh, speed_w,
                        m - TELEMETRY_LABEL_MARGIN - lh, (h - m) / 2 - speed_w / 2,
                    )
                } else {
                    old(buffer).data@
                }
            }),
    {
        let label = "SPEED";
        let label_width = text_width(TELEMETRY_LABEL_FONT_SIZE, font, label);
        let height = line_height(TELEMETRY_LABEL_FONT_SIZE, font);
        if label_width <= TELEMETRY_PLOT_WIDTH && height <= TELEMETRY_PLOT_HEIGHT {
            assert(4 * label_width * height <= 4 * 738 * 226) by (nonlinear_arith)
                requires label_width <= 738, height <= 226;
            let mut speed_label = Raster::filled(label_width, height, transparent());
            draw_text(&mut speed_label, white(), 0, 0, TELEMETRY_LABEL_FONT_SIZE, font, label);
            let rotated = rotate_270(&speed_label);
            let x = (TELEMETRY_PLOT_AXES_LABELS_MARGIN - TELEMETRY_LABEL_MARGIN) as i64 - height as i64;
            let y = ((TELEMETRY_PLOT_HEIGHT - TELEMETRY_PLOT_AXES_LABELS_MARGIN) / 2) as i64 - (label_width / 2) as i64;
            overlay_raster(buffer, &rotated, x, y);
        }
    }

    fn draw_base(font: &FontData) -> (r: Raster)
        ensures
            r.wf(),
            r.width == TELEMETRY_PLOT_WIDTH,
            r.height == TELEMETRY_PLOT_HEIGHT,
            r.data@ == plot_base_pixels(font.bytes@),
    {
        assert(TELEMETRY_PLOT_WIDTH == 738 && TELEMETRY_PLOT_HEIGHT == 226);
        assert(4 * TELEMETRY_PLOT_WIDTH * TELEMETRY_PLOT_HEIGHT == 667152) by (nonlinear_arith)
            requires TELEMETRY_PLOT_WIDTH == 738, TELEMETRY_PLOT_HEIGHT == 226;
        let mut buffer = Raster::filled(TELEMETRY_PLOT_WIDTH, TELEMETRY_PLOT_HEIGHT, transparent());
        Self::draw_distance_label(&mut buffer, font);
        Self::draw_speed_label(&mut buffer, font);
        Self::draw_axes(&mut buffer);
        buffer
    }
}

} // verus!
