use f1_fast::color::{get_complementary_color, get_driver_colors, reverse_alpha_blend};
use f1_fast::model::{Color, DriverData};

fn rgba(r: u8, g: u8, b: u8, a: u8) -> Color {
    Color { r, g, b, a }
}

fn driver(color: Color) -> DriverData {
    DriverData { broadcast_name: String::from("A DRIVER"), team_name: String::from("Team"), team_color: color }
}

fn background() -> Color {
    rgba(15, 15, 15, 255)
}

#[test]
fn complementary_of_red_is_cyan() {
    assert_eq!(get_complementary_color(rgba(255, 0, 0, 255)), rgba(0, 255, 255, 255));
}

#[test]
fn complementary_keeps_alpha() {
    assert_eq!(get_complementary_color(rgba(10, 100, 200, 7)), rgba(200, 110, 10, 7));
}

#[test]
fn shared_team_color_is_disambiguated() {
    let d1 = driver(rgba(255, 0, 0, 255));
    let mut d2 = driver(rgba(255, 0, 0, 255));
    let (c1, c2) = get_driver_colors(&d1, &mut d2, background());
    assert_eq!(d2.team_color, rgba(0, 255, 255, 255));
    assert_ne!(c1, c2);
    assert_eq!(c1, rgba(255, 0, 0, 255));
    assert_eq!(c2, rgba(0, 255, 255, 255));
}

#[test]
fn shared_white_becomes_blue() {
    let d1 = driver(rgba(255, 255, 255, 255));
    let mut d2 = driver(rgba(255, 255, 255, 255));
    let (c1, c2) = get_driver_colors(&d1, &mut d2, background());
    assert_eq!(d2.team_color, rgba(102, 153, 255, 255));
    assert_eq!(c1, rgba(255, 255, 255, 255));
    assert_eq!(c2, rgba(102, 153, 255, 255));
}

#[test]
fn different_team_colors_are_kept() {
    let d1 = driver(rgba(255, 0, 0, 255));
    let mut d2 = driver(rgba(0, 0, 255, 255));
    get_driver_colors(&d1, &mut d2, background());
    assert_eq!(d2.team_color, rgba(0, 0, 255, 255));
}

#[test]
fn reverse_blend_of_translucent_colour() {
    assert_eq!(reverse_alpha_blend(rgba(100, 100, 200, 255), background()), rgba(125, 125, 255, 197));
}

#[test]
fn reverse_blend_round_trips_within_one() {
    let t = rgba(100, 100, 200, 255);
    let bg = background();
    let f = reverse_alpha_blend(t, bg);
    // exact alpha: 185 / 240
    let alpha = 185.0f64 / 240.0;
    for (fc, bc, tc) in [(f.r, bg.r, t.r), (f.g, bg.g, t.g), (f.b, bg.b, t.b)] {
        let back = fc as f64 * alpha + bc as f64 * (1.0 - alpha);
        assert!((back - tc as f64).abs() <= 1.0);
    }
}

#[test]
fn shared_colour_strokes_differ() {
    let d1 = driver(rgba(200, 120, 40, 255));
    let mut d2 = driver(rgba(200, 120, 40, 255));
    let (c1, c2) = get_driver_colors(&d1, &mut d2, background());
    assert_eq!(d2.team_color, rgba(40, 120, 200, 255));
    assert_ne!(c1, c2);
}

#[test]
fn reverse_blend_degenerate_keeps_target() {
    assert_eq!(reverse_alpha_blend(rgba(15, 15, 15, 255), background()), rgba(15, 15, 15, 255));
    assert_eq!(reverse_alpha_blend(rgba(10, 10, 10, 255), background()), rgba(10, 10, 10, 255));
}

#[test]
fn reverse_blend_alpha_is_at_least_one() {
    let c = reverse_alpha_blend(rgba(16, 15, 15, 255), background());
    assert!(c.a >= 1);
    assert_eq!(c.r, 255);
}
