use atm_refraction::air::us76_atmosphere;
use atm_refraction::{EarthShape, Environment};
use panorama_reader::data::{
    AllData, Altitude, Color, Coloring, Frame, Output, Params, PixelColor, Position, ResultPixel,
    Scene, Vector3, View,
};
use panorama_reader::fixed::{channel_from, magnitude_of, product_channel};
use panorama_reader::rendering::{
    color_from_elev_dist, create_surface, hsv, pixel_color, resolve_sample,
};

const M: i64 = 1_000_000;

fn params(width: u16, height: u16, water_level: i64, max_distance: i64) -> Params {
    Params {
        scene: Scene { terrain_folder: String::from("terrain"), objects: vec![] },
        view: View {
            position: Position {
                latitude: 50 * M,
                longitude: 20 * M,
                altitude: Altitude::Relative(2 * M),
            },
            frame: Frame { direction: 0, tilt: 0, fov: 60 * M, max_distance },
            coloring: Coloring::Simple { water_level, max_distance },
            fog_distance: None,
        },
        env: Environment {
            shape: EarthShape::Flat,
            atmosphere: us76_atmosphere(),
            wavelength: 530e-9,
        },
        straight_rays: false,
        simulation_step: 50 * M,
        output: Output {
            file: String::from("out.png"),
            file_metadata: None,
            width,
            height,
            ticks: vec![],
            show_eye_level: false,
        },
    }
}

fn sample(elevation: i64, distance: i64, color: PixelColor) -> ResultPixel {
    ResultPixel {
        lat: 50 * M,
        lon: 20 * M,
        distance,
        elevation,
        path_length: distance,
        normal: Vector3 { x: 0, y: 0, z: M },
        color,
    }
}

#[test]
fn channel_is_cut_to_byte_range() {
    assert_eq!(channel_from(-1), 0);
    assert_eq!(channel_from(0), 0);
    assert_eq!(channel_from(89), 89);
    assert_eq!(channel_from(255), 255);
    assert_eq!(channel_from(256), 255);
    assert_eq!(channel_from(i128::MAX), 255);
    assert_eq!(channel_from(i128::MIN), 0);
}

#[test]
fn magnitude_of_extremes() {
    assert_eq!(magnitude_of(0), 0);
    assert_eq!(magnitude_of(-5), 5);
    assert_eq!(magnitude_of(5), 5);
    assert_eq!(magnitude_of(i128::MIN), 1u128 << 127);
    assert_eq!(magnitude_of(i128::MAX), (1u128 << 127) - 1);
}

#[test]
fn product_channel_exact_values() {
    // 255 * (2 * 3) / 12 = 127.5
    assert_eq!(product_channel(2, 3, 12), 127);
    assert_eq!(product_channel(-2, -3, 12), 127);
    assert_eq!(product_channel(-2, 3, 12), 0);
    assert_eq!(product_channel(0, 3, 12), 0);
    assert_eq!(product_channel(2, 6, 12), 255);
    assert_eq!(product_channel(2, 7, 12), 255);
}

#[test]
fn product_channel_survives_huge_factors() {
    assert_eq!(product_channel(i128::MAX, i128::MAX, 1), 255);
    assert_eq!(product_channel(i128::MIN, i128::MIN, 1 << 120), 255);
    assert_eq!(product_channel(i128::MIN, i128::MAX, 1 << 120), 0);
    // 2^64 * 2^63 overflows nothing yet: 255 * 2^127 / 2^120 is far above 255
    assert_eq!(product_channel(1 << 64, 1 << 63, 1 << 120), 255);
    // 255 * 2^119 / 2^120 = 127.5
    assert_eq!(product_channel(1 << 60, 1 << 59, 1 << 120), 127);
}

#[test]
fn hsv_pure_green() {
    assert_eq!(hsv(120_000_000, 1_000_000, 1_000_000), (0, 255, 0));
}

#[test]
fn hsv_primary_and_secondary_hues() {
    let one: i128 = 1_000_000;
    assert_eq!(hsv(0, one, one), (255, 0, 0));
    assert_eq!(hsv(60_000_000, one, one), (255, 255, 0));
    assert_eq!(hsv(180_000_000, one, one), (0, 255, 255));
    assert_eq!(hsv(240_000_000, one, one), (0, 0, 255));
    assert_eq!(hsv(300_000_000, one, one), (255, 0, 255));
}

#[test]
fn hsv_every_sector() {
    // s = 0.5, v = 0.8: chroma 0.4, lift 0.4; half way into a sector the second component is 0.2
    let s: i128 = 500_000;
    let v: i128 = 800_000;
    assert_eq!(hsv(30_000_000, s, v), (204, 153, 102));
    assert_eq!(hsv(90_000_000, s, v), (153, 204, 102));
    assert_eq!(hsv(150_000_000, s, v), (102, 204, 153));
    assert_eq!(hsv(210_000_000, s, v), (102, 153, 204));
    assert_eq!(hsv(270_000_000, s, v), (153, 102, 204));
    assert_eq!(hsv(330_000_000, s, v), (204, 102, 153));
}

#[test]
fn hsv_wraps_the_hue() {
    let s: i128 = 500_000;
    let v: i128 = 800_000;
    assert_eq!(hsv(-60_000_000, s, v), hsv(300_000_000, s, v));
    assert_eq!(hsv(-60_000_000, s, v), (204, 102, 204));
    assert_eq!(hsv(360_000_000, s, v), hsv(0, s, v));
    assert_eq!(hsv(750_000_000, s, v), hsv(30_000_000, s, v));
    assert_eq!(hsv(-690_000_000, s, v), hsv(30_000_000, s, v));
}

#[test]
fn hsv_grey_without_saturation() {
    assert_eq!(hsv(77_000_000, 0, 500_000), (127, 127, 127));
    assert_eq!(hsv(200_000_000, 0, 0), (0, 0, 0));
}

#[test]
fn hsv_saturates_out_of_range_values() {
    assert_eq!(hsv(0, 1_000_000, 2_000_000), (255, 0, 0));
    assert_eq!(hsv(0, 1_000_000, -1_000_000), (0, 0, 0));
    assert_eq!(hsv(0, 0, i128::MAX), (255, 255, 255));
    assert_eq!(hsv(0, 0, i128::MIN), (0, 0, 0));
    // a negative value times a weight made negative by a large saturation
    assert_eq!(hsv(0, 3_000_000, -1_000_000), (0, 255, 255));
}

#[test]
fn water_at_the_viewer() {
    let p = params(4, 4, 0, 1000 * M);
    assert_eq!(color_from_elev_dist(&p, -10 * M, 0), (0, 128, 255));
}

#[test]
fn water_half_way_out() {
    let p = params(4, 4, 0, 1000 * M);
    assert_eq!(color_from_elev_dist(&p, -10 * M, 500 * M), (0, 89, 178));
}

#[test]
fn water_at_the_level_itself() {
    let p = params(4, 4, 250 * M, 1000 * M);
    assert_eq!(color_from_elev_dist(&p, 250 * M, 0), (0, 128, 255));
    assert_ne!(color_from_elev_dist(&p, 250 * M + 1, 0), (0, 128, 255));
}

#[test]
fn water_far_beyond_the_frame_goes_black() {
    let p = params(4, 4, 0, 1000 * M);
    // 1 - 0.6 * 2 is negative
    assert_eq!(color_from_elev_dist(&p, -1, 2000 * M), (0, 0, 0));
    // exactly at 1 - 0.6 * d / D = 0
    assert_eq!(color_from_elev_dist(&p, -1, 1_666_666_667), (0, 0, 0));
    assert_eq!(color_from_elev_dist(&p, -1, i64::MAX), (0, 0, 0));
    // a negative distance brightens, and the channels stop at 255
    assert_eq!(color_from_elev_dist(&p, -1, i64::MIN), (0, 255, 255));
}

#[test]
fn water_reads_the_frame_distance_not_the_coloring_one() {
    let mut p = params(4, 4, 0, 1000 * M);
    p.view.coloring = Coloring::Simple { water_level: 0, max_distance: 1 };
    assert_eq!(color_from_elev_dist(&p, -10 * M, 500 * M), (0, 89, 178));
    p.view.coloring = Coloring::Shading {
        water_level: 0,
        ambient_light: 300_000,
        light_dir: Vector3 { x: 0, y: 0, z: M },
    };
    assert_eq!(color_from_elev_dist(&p, -10 * M, 500 * M), (0, 89, 178));
}

#[test]
fn land_at_sea_level_is_green() {
    let p = params(4, 4, -1, 1000 * M);
    // r = 0: hue 120, value 0.9, saturation 1
    assert_eq!(color_from_elev_dist(&p, 0, 0), (0, 229, 0));
}

#[test]
fn land_at_the_reference_elevation() {
    let p = params(4, 4, 0, 1000 * M);
    // r = 1, power 1: hue -120 = 240, value 2.1 - 2 = 0.1, saturation 1
    assert_eq!(color_from_elev_dist(&p, 4500 * M, 0), (0, 0, 25));
}

#[test]
fn land_half_way_up() {
    let p = params(4, 4, 0, 1000 * M);
    // r = 0.5, power 0.637280: hue 120 - 152.9472 = -32.9472 = 327.0528
    // value 0.9 - 0.5 / 0.7 * 0.2 = 0.757142 (cut), saturation 1
    // sector 5: (c, 0, x) with ramp (327.0528 mod 120 = 87.0528 -> 32.9472) / 60
    // red 0.757142 * 255 = 193.07; green 0; blue 0.757142 * (32.9472 / 60) * 255 = 106.02
    assert_eq!(color_from_elev_dist(&p, 2250 * M, 0), (193, 0, 106));
}

#[test]
fn land_value_switches_above_seven_tenths() {
    let p = params(4, 4, 0, 1000 * M);
    // exactly r = 0.7: still the lower formula, 0.9 - 0.2 = 0.7
    // hue 120 - 240 * 0.793074 = -70.33776 = 289.66224: sector 4, (x, 0, c)
    assert_eq!(color_from_elev_dist(&p, 3150 * M, 0), (147, 0, 178));
    // just above: 2.1 - 2 * 0.7000002 = 0.6999996 -> 0.699999 (cut)
    assert_eq!(color_from_elev_dist(&p, 3150 * M + 1000, 0), (147, 0, 178));
    // r = 0.8: 2.1 - 1.6 = 0.5
    assert_eq!(color_from_elev_dist(&p, 3600 * M, 0), (68, 0, 127));
}

#[test]
fn land_fades_with_distance() {
    let p = params(4, 4, -1, 1000 * M);
    // d / D = 0.5: value 0.9 * 0.7 = 0.63, saturation 0.55, hue 120
    // green 0.63 * 255 = 160.65; red and blue 0.63 * 0.45 * 255 = 72.29
    assert_eq!(color_from_elev_dist(&p, 0, 500 * M), (72, 160, 72));
    let q = params(4, 4, 0, 1000 * M);
    assert_eq!(color_from_elev_dist(&q, 1000 * M, 250 * M), (181, 110, 40));
}

#[test]
fn land_low_down_is_between_green_and_yellow() {
    let p = params(4, 4, 0, 1000 * M);
    assert_eq!(color_from_elev_dist(&p, 100 * M, 0), (76, 227, 0));
}

#[test]
fn land_below_zero_bends_the_hue_the_other_way() {
    let p = params(4, 4, -5000 * M, 1000 * M);
    // r = -1, power 1: hue 120 + 240 = 360 = 0; value 0.9 + 2/7 = 1.185714; saturation 1
    assert_eq!(color_from_elev_dist(&p, -4500 * M, 0), (255, 0, 0));
    // r = -0.5: hue 120 + 152.9472 = 272.9472, value 0.9 + 1/7 = 1.042857
    assert_eq!(color_from_elev_dist(&p, -2250 * M, 0), (146, 0, 255));
    let q = params(4, 4, -500 * M, 1000 * M);
    assert_eq!(color_from_elev_dist(&q, -100 * M, 10 * M), (2, 229, 78));
}

#[test]
fn land_far_beyond_the_frame_saturates() {
    let p = params(4, 4, 0, 1000 * M);
    // saturation 1 - 90 and value (2.1 - 3.93) * (1 - 60) are far out of range
    assert_eq!(color_from_elev_dist(&p, 8848 * M, 100_000 * M), (255, 255, 255));
}

#[test]
fn land_survives_extreme_inputs() {
    let p = params(4, 4, i64::MIN, 1);
    let _ = color_from_elev_dist(&p, i64::MAX, i64::MAX);
    let _ = color_from_elev_dist(&p, i64::MAX, i64::MIN);
    let _ = color_from_elev_dist(&p, i64::MIN + 1, i64::MAX);
    let _ = color_from_elev_dist(&p, i64::MIN + 1, i64::MIN);
    let q = params(4, 4, i64::MIN, i64::MAX);
    let _ = color_from_elev_dist(&q, i64::MAX, i64::MAX);
    let _ = color_from_elev_dist(&q, i64::MIN + 1, i64::MIN);
}

#[test]
fn sample_resolution_takes_the_first() {
    let near = sample(10 * M, 100 * M, PixelColor::Terrain);
    let far = sample(20 * M, 200 * M, PixelColor::Terrain);
    assert!(resolve_sample(&vec![]).is_none());
    let got = resolve_sample(&vec![near, far]).unwrap();
    assert_eq!(got.distance, 100 * M);
    assert_eq!(got.elevation, 10 * M);
    let only = resolve_sample(&vec![far]).unwrap();
    assert_eq!(only.distance, 200 * M);
}

#[test]
fn empty_pixel_is_background() {
    let p = params(4, 4, 0, 1000 * M);
    assert_eq!(pixel_color(&p, &vec![]), (28, 28, 28));
    let q = params(1, 1, i64::MAX, 1);
    assert_eq!(pixel_color(&q, &vec![]), (28, 28, 28));
}

#[test]
fn explicit_color_is_passed_through() {
    let p = params(4, 4, 0, 1000 * M);
    let c = Color { r: M, g: 500_000, b: 0, a: 250_000 };
    let s = sample(-10 * M, 500 * M, PixelColor::Rgb(c));
    assert_eq!(pixel_color(&p, &vec![s]), (255, 127, 0));
}

#[test]
fn explicit_color_ignores_elevation_distance_and_water() {
    let c = Color { r: 200_000, g: 400_000, b: 600_000, a: M };
    let expected = (51, 102, 153);
    let p = params(4, 4, 0, 1000 * M);
    let q = params(4, 4, 9000 * M, 1);
    for (elev, dist) in [(-10 * M, 0), (10 * M, 500 * M), (8000 * M, 5000 * M), (i64::MIN, i64::MAX)] {
        let s = sample(elev, dist, PixelColor::Rgb(c));
        assert_eq!(pixel_color(&p, &vec![s]), expected);
        assert_eq!(pixel_color(&q, &vec![s]), expected);
    }
}

#[test]
fn explicit_color_out_of_range_is_cut() {
    let p = params(4, 4, 0, 1000 * M);
    let c = Color { r: 2 * M, g: -M, b: M + 1, a: M };
    let s = sample(0, 0, PixelColor::Rgb(c));
    assert_eq!(pixel_color(&p, &vec![s]), (255, 0, 255));
}

#[test]
fn only_the_first_sample_is_shown() {
    let p = params(4, 4, 0, 1000 * M);
    let front = sample(0, 10 * M, PixelColor::Rgb(Color { r: M, g: 0, b: 0, a: 500_000 }));
    let back = sample(-10 * M, 500 * M, PixelColor::Terrain);
    assert_eq!(pixel_color(&p, &vec![front, back]), (255, 0, 0));
    assert_eq!(pixel_color(&p, &vec![back, front]), (0, 89, 178));
}

#[test]
fn terrain_pixel_uses_the_tint() {
    let p = params(4, 4, 0, 1000 * M);
    let s = sample(2250 * M, 0, PixelColor::Terrain);
    assert_eq!(pixel_color(&p, &vec![s]), (193, 0, 106));
}

fn small_panorama() -> AllData {
    let water = sample(-10 * M, 500 * M, PixelColor::Terrain);
    let land = sample(0, 0, PixelColor::Terrain);
    let red = sample(0, 10 * M, PixelColor::Rgb(Color { r: M, g: 0, b: 0, a: M }));
    AllData {
        params: params(3, 2, -1, 1000 * M),
        result: vec![vec![vec![water], vec![], vec![red, water]], vec![vec![land], vec![], vec![]]],
    }
}

#[test]
fn surface_is_row_major_blue_green_red_zero() {
    let data = small_panorama();
    let raster = create_surface(&data);
    assert_eq!(
        raster,
        vec![
            178, 89, 0, 0, /**/ 28, 28, 28, 0, /**/ 0, 0, 255, 0, //
            0, 229, 0, 0, /**/ 28, 28, 28, 0, /**/ 28, 28, 28, 0,
        ]
    );
}

#[test]
fn surface_of_empty_pixels_is_all_background() {
    let data = AllData {
        params: params(2, 3, 0, 1000 * M),
        result: vec![vec![vec![], vec![]], vec![vec![], vec![]], vec![vec![], vec![]]],
    };
    let raster = create_surface(&data);
    assert_eq!(raster.len(), 2 * 3 * 4);
    for pixel in raster.chunks(4) {
        assert_eq!(pixel, &[28, 28, 28, 0]);
    }
}

#[test]
fn surface_tints_each_terrain_pixel() {
    let high = sample(2250 * M, 0, PixelColor::Terrain);
    let low = sample(100 * M, 0, PixelColor::Terrain);
    let data = AllData {
        params: params(2, 1, 0, 1000 * M),
        result: vec![vec![vec![high], vec![low, high]]],
    };
    assert_eq!(create_surface(&data), vec![106, 0, 193, 0, 0, 227, 76, 0]);
}

#[test]
fn surface_of_no_pixels_is_empty() {
    let data = AllData { params: params(0, 0, 0, 1000 * M), result: vec![] };
    assert_eq!(create_surface(&data), Vec::<u8>::new());
    let flat = AllData { params: params(0, 2, 0, 1000 * M), result: vec![vec![], vec![]] };
    assert_eq!(create_surface(&flat), Vec::<u8>::new());
}

#[test]
fn fog_light_and_normal_have_no_part_in_the_color() {
    let plain = params(4, 4, 0, 1000 * M);
    let mut lit = params(4, 4, 0, 1000 * M);
    lit.view.fog_distance = Some(10 * M);
    lit.view.coloring = Coloring::Shading {
        water_level: 0,
        ambient_light: 100_000,
        light_dir: Vector3 { x: M, y: -M, z: 0 },
    };
    let mut tilted = sample(1234 * M, 321 * M, PixelColor::Terrain);
    let level = tilted;
    tilted.normal = Vector3 { x: 700_000, y: 0, z: 700_000 };
    tilted.path_length = 5 * M;
    assert_eq!(pixel_color(&plain, &vec![level]), pixel_color(&lit, &vec![tilted]));
}
