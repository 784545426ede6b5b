use f1_fast::model::DriverPosition;
use f1_fast::normalize::{center_data_to_dims, find_extrema, normalize, resize_data_to_dims};

fn pos(x: i32, y: i32) -> DriverPosition {
    DriverPosition { x, y }
}

#[test]
fn extrema_cover_both_series() {
    let d1 = vec![pos(-10, 0), pos(10, 20)];
    let d2 = vec![pos(0, 40), pos(30, -5)];
    assert_eq!(find_extrema(&d1, &d2), ((-10, 30), (-5, 40)));
}

#[test]
fn resize_shifts_negative_coordinates() {
    let mut d1 = vec![pos(-10, 0), pos(10, 20)];
    let mut d2 = vec![pos(0, 40)];
    resize_data_to_dims(&mut d1, &mut d2, 100, 100);
    assert_eq!(d1, vec![pos(0, 0), pos(20, 20)]);
    assert_eq!(d2, vec![pos(10, 40)]);
}

#[test]
fn resize_scales_both_axes_by_one_ratio() {
    let mut d1 = vec![pos(0, 0), pos(1000, 500)];
    let mut d2 = vec![pos(200, 100)];
    resize_data_to_dims(&mut d1, &mut d2, 100, 100);
    assert_eq!(d1, vec![pos(0, 0), pos(100, 50)]);
    assert_eq!(d2, vec![pos(20, 10)]);
}

#[test]
fn resize_rounds_to_nearest() {
    let mut d1 = vec![pos(0, 0), pos(300, 15)];
    let mut d2 = vec![pos(25, 35)];
    resize_data_to_dims(&mut d1, &mut d2, 100, 100);
    assert_eq!(d1, vec![pos(0, 0), pos(100, 5)]);
    assert_eq!(d2, vec![pos(8, 12)]);
}

#[test]
fn resize_leaves_a_single_point() {
    let mut d1 = vec![pos(5, 5)];
    let mut d2 = vec![pos(5, 5)];
    resize_data_to_dims(&mut d1, &mut d2, 100, 100);
    assert_eq!(d1, vec![pos(5, 5)]);
    assert_eq!(d2, vec![pos(5, 5)]);
}

#[test]
fn center_translates_both_series() {
    let mut d1 = vec![pos(0, 0), pos(20, 20)];
    let mut d2 = vec![pos(10, 40)];
    center_data_to_dims(&mut d1, &mut d2, 100, 100);
    assert_eq!(d1, vec![pos(40, 30), pos(60, 50)]);
    assert_eq!(d2, vec![pos(50, 70)]);
}

#[test]
fn normalized_series_fit_the_canvas() {
    let mut d1 = vec![pos(-5000, 300), pos(12000, -800), pos(4000, 9000)];
    let mut d2 = vec![pos(-3000, 0), pos(7000, 7000)];
    normalize(&mut d1, &mut d2, 512, 512, 15);
    for p in d1.iter().chain(d2.iter()) {
        assert!(p.x >= 0 && p.x < 512);
        assert!(p.y >= 0 && p.y < 512);
    }
}
