use ruin::battery::{Battery, BatteryStatus};
use ruin::colors::Colors;
use ruin::raster::{load_base_image, BaseImage, LoadError, CANVAS_HEIGHT, CANVAS_WIDTH};
use ruin::render::{create, fill_row, recolor};

const ACCENT: [u8; 4] = [143, 188, 187, 255];

fn column(pixels: &[[u8; 4]]) -> BaseImage {
    let rgba: Vec<u8> = pixels.iter().flat_map(|p| p.iter().copied()).collect();
    BaseImage::new(1, pixels.len() as u32, rgba).expect("length matches")
}

fn pixel(rgb: &[u8], i: usize) -> [u8; 3] {
    [rgb[3 * i], rgb[3 * i + 1], rgb[3 * i + 2]]
}

fn reading(capacity: u8, status: BatteryStatus) -> Battery {
    Battery { capacity, status }
}

#[test]
fn default_scheme_values() {
    let c = Colors::default();
    assert_eq!(c.charging, [255, 255, 0]);
    assert_eq!(c.default, [91, 194, 54]);
    assert_eq!(c.low_battery, [191, 19, 28]);
    assert_eq!(c.background, [40, 40, 40]);
}

#[test]
fn charging_always_picks_charging_color() {
    let c = Colors::default();
    for cap in 0..=100u8 {
        assert_eq!(c.gauge_color(&reading(cap, BatteryStatus::Charging)), c.charging);
    }
}

#[test]
fn discharging_picks_default_or_low() {
    let c = Colors::default();
    for cap in 0..=100u8 {
        let expected = if cap >= 30 { c.default } else { c.low_battery };
        assert_eq!(c.gauge_color(&reading(cap, BatteryStatus::NotCharging)), expected);
    }
    assert_eq!(c.gauge_color(&reading(30, BatteryStatus::NotCharging)), [91, 194, 54]);
    assert_eq!(c.gauge_color(&reading(29, BatteryStatus::NotCharging)), [191, 19, 28]);
}

#[test]
fn fill_row_thresholds() {
    // height 4, capacity 50: rows strictly below row 2 are filled
    assert!(!fill_row(2, 4, 50));
    assert!(fill_row(3, 4, 50));
    // full charge: every row but the first
    assert!(!fill_row(0, 10, 100));
    assert!(fill_row(1, 10, 100));
    // empty battery: no row of the image
    assert!(!fill_row(9, 10, 0));
    // capacities above 100 fill the first row too
    assert!(fill_row(0, 10, 101));
}

#[test]
fn half_charge_recolors_lower_half() {
    let base = column(&[ACCENT, ACCENT, ACCENT, ACCENT]);
    let out = recolor(&base, &reading(50, BatteryStatus::NotCharging), &Colors::default());
    assert_eq!(out.len(), 12);
    assert_eq!(pixel(&out, 0), [143, 188, 187]);
    assert_eq!(pixel(&out, 1), [143, 188, 187]);
    assert_eq!(pixel(&out, 2), [143, 188, 187]);
    assert_eq!(pixel(&out, 3), [91, 194, 54]);
}

#[test]
fn full_charge_while_charging_recolors_all_but_top_row() {
    let base = column(&[ACCENT, ACCENT, ACCENT]);
    let out = recolor(&base, &reading(100, BatteryStatus::Charging), &Colors::default());
    assert_eq!(pixel(&out, 0), [143, 188, 187]);
    assert_eq!(pixel(&out, 1), [255, 255, 0]);
    assert_eq!(pixel(&out, 2), [255, 255, 0]);
}

#[test]
fn low_battery_uses_low_color() {
    // ten rows at 20%: rows 9 and up (100 * y > 10 * 80) are filled
    let base = column(&[ACCENT; 10]);
    let out = recolor(&base, &reading(20, BatteryStatus::NotCharging), &Colors::default());
    assert_eq!(pixel(&out, 8), [143, 188, 187]);
    assert_eq!(pixel(&out, 9), [191, 19, 28]);
}

#[test]
fn transparent_pixels_become_background() {
    let base = column(&[[10, 20, 30, 100], [143, 188, 187, 254], [255, 255, 255, 0]]);
    for cap in [0u8, 50, 100] {
        for status in [BatteryStatus::Charging, BatteryStatus::NotCharging] {
            let out = recolor(&base, &reading(cap, status), &Colors::default());
            for i in 0..3 {
                assert_eq!(pixel(&out, i), [40, 40, 40]);
            }
        }
    }
}

#[test]
fn opaque_pixels_pass_through() {
    let base = column(&[[1, 2, 3, 255], [143, 188, 186, 255], [0, 0, 0, 255]]);
    for cap in [0u8, 29, 30, 100] {
        for status in [BatteryStatus::Charging, BatteryStatus::NotCharging] {
            let out = recolor(&base, &reading(cap, status), &Colors::default());
            assert_eq!(pixel(&out, 0), [1, 2, 3]);
            assert_eq!(pixel(&out, 1), [143, 188, 186]);
            assert_eq!(pixel(&out, 2), [0, 0, 0]);
        }
    }
}

#[test]
fn recolored_rows_grow_with_capacity() {
    let base = column(&[ACCENT; 10]);
    let colors = Colors::default();
    let recolored = |cap: u8| -> Vec<usize> {
        let out = recolor(&base, &reading(cap, BatteryStatus::NotCharging), &colors);
        (0..10).filter(|&i| pixel(&out, i) != [143, 188, 187]).collect()
    };
    assert_eq!(recolored(50), vec![6, 7, 8, 9]);
    assert_eq!(recolored(40), vec![7, 8, 9]);
    let mut previous: Vec<usize> = Vec::new();
    for cap in 0..=100u8 {
        let now = recolored(cap);
        assert!(previous.iter().all(|r| now.contains(r)));
        previous = now;
    }
}

#[test]
fn base_image_length_is_checked() {
    assert!(BaseImage::new(2, 2, vec![0; 16]).is_some());
    assert!(BaseImage::new(2, 2, vec![0; 15]).is_none());
    assert!(BaseImage::new(2, 2, vec![0; 12]).is_none());
    assert!(BaseImage::new(0, 5, Vec::new()).is_some());
}

#[test]
fn canvas_centers_base_image() {
    let base = BaseImage::new(
        3,
        2,
        vec![
            1, 1, 1, 255, 2, 2, 2, 255, 3, 3, 3, 255, //
            4, 4, 4, 255, 5, 5, 5, 100, 143, 188, 187, 255,
        ],
    )
    .unwrap();
    let colors = Colors::default();
    let canvas = create(&reading(100, BatteryStatus::NotCharging), &colors, &base);
    assert_eq!(canvas.width, CANVAS_WIDTH);
    assert_eq!(canvas.height, CANVAS_HEIGHT);
    assert_eq!(canvas.rgb.len(), 3 * 3840 * 2160);
    let at = |x: usize, y: usize| pixel(&canvas.rgb, y * 3840 + x);
    let (ox, oy) = ((3840 - 3) / 2, (2160 - 2) / 2);
    assert_eq!((ox, oy), (1918, 1079));
    assert_eq!(at(ox, oy), [1, 1, 1]);
    assert_eq!(at(ox + 1, oy), [2, 2, 2]);
    assert_eq!(at(ox + 2, oy), [3, 3, 3]);
    assert_eq!(at(ox, oy + 1), [4, 4, 4]);
    assert_eq!(at(ox + 1, oy + 1), [40, 40, 40]);
    assert_eq!(at(ox + 2, oy + 1), [91, 194, 54]);
    assert_eq!(at(ox - 1, oy), [40, 40, 40]);
    assert_eq!(at(ox + 3, oy), [40, 40, 40]);
    assert_eq!(at(ox, oy - 1), [40, 40, 40]);
    assert_eq!(at(ox, oy + 2), [40, 40, 40]);
    assert_eq!(at(0, 0), [40, 40, 40]);
    assert_eq!(at(3839, 2159), [40, 40, 40]);
}

#[test]
fn canvas_with_empty_base_is_background() {
    let base = BaseImage::new(0, 0, Vec::new()).unwrap();
    let colors = Colors {
        charging: [1, 1, 1],
        default: [2, 2, 2],
        low_battery: [3, 3, 3],
        background: [7, 8, 9],
    };
    let canvas = create(&reading(50, BatteryStatus::Charging), &colors, &base);
    assert!(canvas.rgb.chunks(3).all(|p| p == [7, 8, 9]));
}

#[test]
fn full_size_base_fills_canvas() {
    let mut rgba = vec![0u8; 4 * 3840 * 2160];
    for p in rgba.chunks_mut(4) {
        p.copy_from_slice(&[5, 6, 7, 255]);
    }
    let base = BaseImage::new(3840, 2160, rgba).unwrap();
    let canvas = create(&reading(10, BatteryStatus::NotCharging), &Colors::default(), &base);
    assert!(canvas.rgb.chunks(3).all(|p| p == [5, 6, 7]));
}

#[test]
fn rendering_twice_gives_same_bytes() {
    let base = column(&[ACCENT, [9, 9, 9, 255], [0, 0, 0, 0], ACCENT]);
    let b = reading(60, BatteryStatus::NotCharging);
    let colors = Colors::default();
    let first = create(&b, &colors, &base);
    let second = create(&b, &colors, &base);
    assert!(first.rgb == second.rgb);
}

fn png_bytes(width: u32, height: u32, rgba: Vec<u8>) -> Vec<u8> {
    let img = image::RgbaImage::from_raw(width, height, rgba).unwrap();
    let mut out = std::io::Cursor::new(Vec::new());
    img.write_to(&mut out, image::ImageOutputFormat::Png).unwrap();
    out.into_inner()
}

#[test]
fn loads_png_artwork() {
    let rgba = vec![1, 2, 3, 255, 143, 188, 187, 255, 9, 9, 9, 0, 4, 5, 6, 7];
    let base = load_base_image(&png_bytes(2, 2, rgba.clone())).unwrap();
    assert_eq!(base.width, 2);
    assert_eq!(base.height, 2);
    assert_eq!(base.rgba, rgba);
}

#[test]
fn rejects_undecodable_bytes() {
    let r = load_base_image(&b"not an image".to_vec());
    assert!(matches!(r, Err(LoadError::Decode(_))));
}

#[test]
fn rejects_artwork_wider_than_canvas() {
    let r = load_base_image(&png_bytes(3841, 1, vec![0; 4 * 3841]));
    assert!(matches!(r, Err(LoadError::TooLarge { width: 3841, height: 1 })));
    let r = load_base_image(&png_bytes(1, 2161, vec![0; 4 * 2161]));
    assert!(matches!(r, Err(LoadError::TooLarge { width: 1, height: 2161 })));
    assert!(load_base_image(&png_bytes(3840, 1, vec![0; 4 * 3840])).is_ok());
}

#[test]
fn loaded_pixels_match_the_encoded_image() {
    let rgba = vec![10, 20, 30, 40, 50, 60, 70, 80, 90, 100, 110, 120];
    let base = load_base_image(&png_bytes(3, 1, rgba.clone())).unwrap();
    assert_eq!((base.width, base.height), (3, 1));
    assert_eq!(base.rgba, rgba);
}
