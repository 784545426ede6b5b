use f1_fast::hud_text::{get_headline_str, get_sector_time_str, get_speed_str, get_str_time, has_finished, time_to_sector_time_str};
use f1_fast::model::{Color, CompleteDriverData, DriverData, DriverTelemetryData, LapData};

fn sample(session_time: i64, speed: i32) -> DriverTelemetryData {
    DriverTelemetryData { x: 0, y: 0, session_time, speed, relative_distance_ppm: 0 }
}

fn lap() -> LapData {
    LapData {
        lap_time: 83456,
        sector1_time: 28123,
        sector2_time: 30005,
        sector3_time: 25328,
        sector1_session_time: 1200,
        sector2_session_time: 1400,
        sector3_session_time: 1600,
    }
}

fn driver_data(times: &[i64]) -> CompleteDriverData {
    CompleteDriverData {
        telemetry: times.iter().map(|t| sample(*t, 250)).collect(),
        lap: lap(),
        driver: DriverData { broadcast_name: String::from("A DRIVER"), team_name: String::from("Team"), team_color: Color { r: 1, g: 2, b: 3, a: 255 } },
    }
}

#[test]
fn lap_time_format() {
    assert_eq!(get_str_time(83456), "1:23.456");
    assert_eq!(get_str_time(5007), "0:05.007");
    assert_eq!(get_str_time(0), "0:00.000");
    assert_eq!(get_str_time(600000), "10:00.000");
}

#[test]
fn sector_time_format() {
    assert_eq!(time_to_sector_time_str(28123), "28.123");
    assert_eq!(time_to_sector_time_str(5007), "05.007");
    assert_eq!(time_to_sector_time_str(61050), "01.050");
}

#[test]
fn speed_format() {
    assert_eq!(get_speed_str(287), "287 km/h");
    assert_eq!(get_speed_str(0), "0 km/h");
}

#[test]
fn headline_switches_at_series_length() {
    let d = driver_data(&[1000, 1100, 1200]);
    assert!(!has_finished(&d, 2));
    assert!(has_finished(&d, 3));
    assert_eq!(get_headline_str(&d, 0), "250 km/h");
    assert_eq!(get_headline_str(&d, 2), "250 km/h");
    assert_eq!(get_headline_str(&d, 3), "1:23.456");
    assert_eq!(get_headline_str(&d, 50), "1:23.456");
}

#[test]
fn sector_label_reveals_at_completion_time() {
    let d = driver_data(&[1000, 1100, 1200, 1300, 1500, 1700]);
    assert_eq!(get_sector_time_str(&d, 1, 1), "");
    assert_eq!(get_sector_time_str(&d, 1, 2), "Sector 1: 28.123");
    assert_eq!(get_sector_time_str(&d, 1, 5), "Sector 1: 28.123");
    assert_eq!(get_sector_time_str(&d, 2, 3), "");
    assert_eq!(get_sector_time_str(&d, 2, 4), "Sector 2: 30.005");
    assert_eq!(get_sector_time_str(&d, 3, 4), "");
    assert_eq!(get_sector_time_str(&d, 3, 5), "Sector 3: 25.328");
}

#[test]
fn sector_labels_show_after_finish() {
    let d = driver_data(&[1000]);
    assert_eq!(get_sector_time_str(&d, 3, 0), "");
    assert_eq!(get_sector_time_str(&d, 3, 1), "Sector 3: 25.328");
}
