use f1_fast::animation::{total_frames, Animation, RenderError};
use f1_fast::model::{parse_team_color, Color, CompleteDriverData, DriverData, DriverPosition, DriverTelemetryData, LapData};
use f1_fast::raster::{draw_thick_line_mut, Raster};
use f1_fast::telemetry_plot::TelemetryPlot;
use f1_fast::text::FontData;
use f1_fast::track_map::TrackMap;
use f1_fast::hud_overlay::HUD;

fn red() -> Color {
    Color { r: 255, g: 0, b: 0, a: 255 }
}

fn blue() -> Color {
    Color { r: 0, g: 0, b: 255, a: 255 }
}

fn no_font() -> FontData {
    FontData { bytes: Vec::new() }
}

fn pixel(r: &Raster, x: u32, y: u32) -> [u8; 4] {
    let i = 4 * (y * r.width + x) as usize;
    [r.data[i], r.data[i + 1], r.data[i + 2], r.data[i + 3]]
}

fn record(n: usize, lap_time: i32, color: Color) -> CompleteDriverData {
    CompleteDriverData {
        telemetry: (0..n)
            .map(|i| DriverTelemetryData {
                x: (i as i32) * 100 - 2000,
                y: (i as i32 * 37) % 900,
                session_time: 1000 + 50 * i as i64,
                speed: 100 + (i as i32 % 200),
                relative_distance_ppm: (i * 1_000_000 / n.max(1)) as u32,
            })
            .collect(),
        lap: LapData {
            lap_time,
            sector1_time: 20000,
            sector2_time: 20000,
            sector3_time: 20000,
            sector1_session_time: 1500,
            sector2_session_time: 2500,
            sector3_session_time: 3500,
        },
        driver: DriverData { broadcast_name: String::from("A DRIVER"), team_name: String::from("Team"), team_color: color },
    }
}

#[test]
fn frame_total_is_longer_series_plus_pad() {
    assert_eq!(total_frames(100, 140, 20), 160);
    assert_eq!(total_frames(140, 100, 20), 160);
    assert_eq!(total_frames(1, 1, 0), 1);
}

#[test]
fn team_color_from_hex() {
    assert_eq!(parse_team_color("FF8000"), Some(Color { r: 255, g: 128, b: 0, a: 255 }));
    assert_eq!(parse_team_color("00d2beXX"), Some(Color { r: 0, g: 210, b: 190, a: 255 }));
    assert_eq!(parse_team_color("12345"), None);
    assert_eq!(parse_team_color("12G456"), None);
}

#[test]
fn filled_raster_has_the_colour() {
    let r = Raster::filled(3, 2, red());
    assert_eq!(r.data.len(), 24);
    assert_eq!(pixel(&r, 2, 1), [255, 0, 0, 255]);
}

#[test]
fn thick_line_covers_the_segment() {
    let mut r = Raster::filled(20, 20, Color { r: 0, g: 0, b: 0, a: 0 });
    draw_thick_line_mut(&mut r, (2, 10), (17, 10), red(), 3);
    assert_eq!(pixel(&r, 2, 10), [255, 0, 0, 255]);
    assert_eq!(pixel(&r, 10, 10), [255, 0, 0, 255]);
    assert_eq!(pixel(&r, 10, 12), [255, 0, 0, 255]);
    assert_eq!(pixel(&r, 10, 14), [0, 0, 0, 0]);
    assert_eq!(pixel(&r, 0, 0), [0, 0, 0, 0]);
}

#[test]
fn track_trail_freezes_after_its_series_ends() {
    let mut map = TrackMap::new(
        vec![DriverPosition { x: 100, y: 100 }, DriverPosition { x: 100, y: 200 }, DriverPosition { x: 200, y: 200 }],
        vec![DriverPosition { x: 300, y: 300 }],
        red(),
        blue(),
    );
    let blank = map.d1.buffer.data.clone();
    map.draw_next_frame();
    assert_ne!(map.d1.buffer.data, blank);
    assert_eq!(map.d2.buffer.data, blank);
    map.draw_next_frame();
    let frozen = map.d1.buffer.data.clone();
    for _ in 0..5 {
        map.draw_next_frame();
        assert_eq!(map.d1.buffer.data, frozen);
        assert_eq!(map.d2.buffer.data, blank);
    }
    assert_eq!(map.current_frame, 7);
}

#[test]
fn track_map_composites_trails_over_background() {
    let mut map = TrackMap::new(
        vec![DriverPosition { x: 100, y: 100 }, DriverPosition { x: 100, y: 200 }],
        vec![DriverPosition { x: 300, y: 300 }],
        red(),
        blue(),
    );
    map.draw_next_frame();
    let shown = map.get_track_map();
    assert_eq!(shown.width, 512);
    assert_eq!(pixel(&shown, 0, 0), [15, 15, 15, 255]);
    assert_eq!(pixel(&shown, 150, 100), [255, 0, 0, 255]);
}

#[test]
fn plot_trail_freezes_after_its_series_ends() {
    let d1 = record(3, 60000, red());
    let d2 = record(6, 60000, blue());
    let mut plot = TelemetryPlot::new(&d1, &d2, red(), blue(), &no_font());
    assert_eq!(plot.max_speed, 105);
    let blank = plot.d1.buffer.data.clone();
    plot.draw_next_frame();
    assert_eq!(plot.d1.buffer.data, blank);
    plot.draw_next_frame();
    assert_ne!(plot.d1.buffer.data, blank);
    plot.draw_next_frame();
    let frozen = plot.d1.buffer.data.clone();
    for _ in 0..4 {
        plot.draw_next_frame();
        assert_eq!(plot.d1.buffer.data, frozen);
    }
    assert_ne!(plot.d2.buffer.data, blank);
    let shown = plot.get_telemetry_plot();
    assert_eq!((shown.width, shown.height), (738, 226));
}

#[test]
fn hud_has_the_sidebar_size() {
    let d1 = record(3, 60000, red());
    let d2 = record(4, 61000, blue());
    let font = no_font();
    let hud = HUD::new(&d1, &d2, &font, &font);
    let layer = hud.get_hud(2);
    assert_eq!((layer.width, layer.height), (256, 512));
    assert_eq!(layer.data.len(), 256 * 512 * 4);
}

#[test]
fn animation_rejects_empty_telemetry() {
    let r = Animation::new(record(0, 60000, red()), record(4, 60000, blue()), no_font(), no_font());
    assert_eq!(r.err(), Some(RenderError::EmptyTelemetry));
}

#[test]
fn animation_rejects_negative_lap_time() {
    let r = Animation::new(record(3, -1, red()), record(4, 60000, blue()), no_font(), no_font());
    assert_eq!(r.err(), Some(RenderError::NegativeLapTime));
}

#[test]
fn animation_rejects_too_wide_coordinates() {
    let mut d1 = record(3, 60000, red());
    d1.telemetry[0].x = i32::MIN;
    d1.telemetry[1].x = i32::MAX;
    let r = Animation::new(d1, record(4, 60000, blue()), no_font(), no_font());
    assert_eq!(r.err(), Some(RenderError::CoordinatesOutOfRange));
}

#[test]
fn animation_renders_frames_in_order() {
    let mut a = match Animation::new(record(5, 60000, red()), record(8, 61000, red()), no_font(), no_font()) {
        Ok(a) => a,
        Err(e) => panic!("{:?}", e),
    };
    assert_eq!(a.frame_count(), 28);
    assert_eq!(a.d2.driver.team_color, Color { r: 0, g: 255, b: 255, a: 255 });
    for i in 0..2 {
        assert!(a.has_next_frame());
        let frame = a.render_next_frame();
        assert_eq!((frame.width, frame.height), (768, 768));
        assert_eq!(a.current_frame, i + 1);
    }
    for p in a.track_map.d1.positions.iter().chain(a.track_map.d2.positions.iter()) {
        assert!(p.x >= 0 && p.x < 512 && p.y >= 0 && p.y < 512);
    }
}
