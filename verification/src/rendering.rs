//! Colours: the hypsometric tint of terrain, the colour of a pixel, and the
//! raster of a whole panorama.

use crate::data::{AllData, Params, PixelColor, ResultPixel, FULL_TURN};
use crate::fixed::{
    channel_from, lemma_trunc_div_bounds, magnitude, magnitude_of, product_channel, to_channel,
    trunc_div, MICRO,
};
use crate::fractional::{power_065, spec_power_065};
use vstd::prelude::*;

verus! {

/// One sixth of the hue circle: 60 degrees.
pub const SECTOR: i64 = 60_000_000;

/// The common denominator of the channels of `hsv`: `MICRO * MICRO * SECTOR`.
pub const HSV_SCALE: u128 = 60_000_000_000_000_000_000;

/// The largest magnitude of a saturation that `hsv` accepts: two to the power 100.
pub const SATURATION_LIMIT: i128 = 0x10_0000_0000_0000_0000_0000_0000;

/// The elevation at which the tint has run through its whole range: 4500 m.
pub const REFERENCE_ELEVATION: i64 = 4_500_000_000;

/// Every channel of a pixel that sees nothing.
pub const BACKGROUND_LEVEL: u8 = 28;

/// A hue brought into `[0, 360)`.
pub open spec fn wrap_hue(h: int) -> int {
    h % (FULL_TURN as int)
}

/// How far the hue stands into its pair of sectors, rising over the first and
/// falling over the second: `1 - |(h / 60) mod 2 - 1|`, as a count of `SECTOR`ths.
pub open spec fn hue_ramp(h: int) -> int {
    SECTOR - magnitude(wrap_hue(h) % (2 * SECTOR) - SECTOR)
}

/// The chroma `v * s`, over `HSV_SCALE`.
pub open spec fn chroma(s: int, v: int) -> int {
    v * s * SECTOR
}

/// The second-largest component `chroma * (1 - |(h / 60) mod 2 - 1|)`, over `HSV_SCALE`.
pub open spec fn second(h: int, s: int, v: int) -> int {
    v * s * hue_ramp(h)
}

/// The amount `v - chroma` added to every component, over `HSV_SCALE`.
pub open spec fn lift(s: int, v: int) -> int {
    v * MICRO * SECTOR - v * s * SECTOR
}

/// A component over `HSV_SCALE` as a channel: times 255, rounded toward zero,
/// cut to 0..=255.
pub open spec fn hsv_channel(component: int) -> u8 {
    to_channel(trunc_div(255 * component, HSV_SCALE as int))
}

/// The colour of hue `h` (degrees, any turn), saturation `s` and value `v`, by
/// the usual chroma, second component and lift over the six sectors of the hue.
pub open spec fn spec_hsv(h: int, s: int, v: int) -> (u8, u8, u8) {
    let c = chroma(s, v);
    let x = second(h, s, v);
    let m = lift(s, v);
    let sector = wrap_hue(h) / (SECTOR as int);
    let (rp, gp, bp) = if sector == 0 {
        (c, x, 0int)
    } else if sector == 1 {
        (x, c, 0int)
    } else if sector == 2 {
        (0int, c, x)
    } else if sector == 3 {
        (0int, x, c)
    } else if sector == 4 {
        (x, 0int, c)
    } else {
        (c, 0int, x)
    };
    (hsv_channel(rp + m), hsv_channel(gp + m), hsv_channel(bp + m))
}

/// The three components plus lift are each `v` times a weight.
proof fn lemma_components(h: int, s: int, v: int)
    ensures
        chroma(s, v) + lift(s, v) == v * (MICRO * SECTOR - s * 0),
        second(h, s, v) + lift(s, v) == v * (MICRO * SECTOR - s * (SECTOR - hue_ramp(h))),
        0 + lift(s, v) == v * (MICRO * SECTOR - s * SECTOR),
{
    let k = SECTOR as int;
    let ms = MICRO * SECTOR;
    let r = hue_ramp(h);
    assert(v * s * k + (v * ms - v * s * k) == v * (ms - s * 0)) by (nonlinear_arith);
    assert(v * s * r + (v * ms - v * s * k) == v * (ms - s * (k - r))) by (nonlinear_arith);
    assert(v * ms - v * s * k == v * (ms - s * k)) by (nonlinear_arith);
    assert(v * MICRO * SECTOR == v * ms) by (nonlinear_arith)
        requires
            ms == MICRO * SECTOR,
    ;
}

/// The sector that a hue falls in, 0 to 5, and how far it stands into its
/// pair of sectors.
fn hue_parts(h: i128) -> (parts: (i128, i128))
    ensures
        parts.0 == wrap_hue(h as int) / (SECTOR as int),
        parts.1 == hue_ramp(h as int),
        0 <= parts.0 < 6,
        0 <= parts.1 <= SECTOR,
{
    let turn: i128 = FULL_TURN as i128;
    let sixth: i128 = SECTOR as i128;
    let rest: i128 = h % turn;
    let hue: i128 = if rest < 0 {
        rest + turn
    } else {
        rest
    };
    assert(hue == wrap_hue(h as int));
    let within: i128 = hue % (2 * sixth);
    let ramp: i128 = if within < sixth {
        within
    } else {
        2 * sixth - within
    };
    (hue / sixth, ramp)
}

/// Converts hue, saturation and value to red, green and blue.
#[verifier::rlimit(30)]
pub fn hsv(h: i128, s: i128, v: i128) -> (rgb: (u8, u8, u8))
    requires
        -SATURATION_LIMIT <= s <= SATURATION_LIMIT,
    ensures
        rgb == spec_hsv(h as int, s as int, v as int),
{
    let (sector, ramp) = hue_parts(h);
    let sixth: i128 = SECTOR as i128;
    let full: i128 = (MICRO as i128) * sixth;
    proof {
        lemma_components(h as int, s as int, v as int);
        assert(-SATURATION_LIMIT * SECTOR <= s * (sixth - ramp) <= SATURATION_LIMIT * SECTOR)
            by (nonlinear_arith)
            requires
                -SATURATION_LIMIT <= s <= SATURATION_LIMIT,
                0 <= sixth - ramp <= SECTOR,
        ;
        assert(-SATURATION_LIMIT * SECTOR <= s * sixth <= SATURATION_LIMIT * SECTOR)
            by (nonlinear_arith)
            requires
                -SATURATION_LIMIT <= s <= SATURATION_LIMIT,
                sixth == SECTOR,
        ;
    }
    let top: u8 = product_channel(v, full, HSV_SCALE);
    let mid: u8 = product_channel(v, full - s * (sixth - ramp), HSV_SCALE);
    let low: u8 = product_channel(v, full - s * sixth, HSV_SCALE);
    if sector == 0 {
        (top, mid, low)
    } else if sector == 1 {
        (mid, top, low)
    } else if sector == 2 {
        (low, top, mid)
    } else if sector == 3 {
        (low, mid, top)
    } else if sector == 4 {
        (mid, low, top)
    } else {
        (top, low, mid)
    }
}

/// What distance leaves of a quantity that loses `tenths` tenths of itself over
/// the whole of `max_dist`: `1 - (tenths / 10) * (dist / max_dist)`, as a count
/// of `10 * max_dist`ths.
pub open spec fn fade(tenths: int, dist: int, max_dist: int) -> int {
    10 * max_dist - tenths * dist
}

/// A channel of water: `base * (1 - 0.6 * dist / max_dist)`, rounded toward
/// zero and cut to 0..=255.
pub open spec fn water_channel(base: int, dist: int, max_dist: int) -> u8 {
    to_channel(trunc_div(base * fade(6, dist, max_dist), 10 * max_dist))
}

/// How high the terrain stands against the reference elevation, sign aside:
/// `|elev / 4500|`, rounded down.
pub open spec fn elev_ratio(elev: int) -> nat {
    (magnitude(elev) * MICRO / (REFERENCE_ELEVATION as int)) as nat
}

/// The hue of land: `120 - 240 * sign(elev) * |elev / 4500|^0.65`, green at
/// zero and bending toward blue going up, toward red going down.
pub open spec fn land_hue(elev: int) -> int {
    let bend = spec_power_065(elev_ratio(elev)) as int;
    120 * MICRO - 240 * (if elev < 0 {
        -bend
    } else {
        bend
    })
}

/// The value of land before distance dims it: `2.1 - 2 * r` above `r = 0.7`,
/// `0.9 - r / 0.7 * 0.2` up to there, for `r = elev / 4500`.
pub open spec fn land_base_value(elev: int) -> int {
    if 10 * elev > 7 * REFERENCE_ELEVATION {
        trunc_div((21 * REFERENCE_ELEVATION - 20 * elev) * MICRO, 10 * REFERENCE_ELEVATION)
    } else {
        trunc_div((63 * REFERENCE_ELEVATION - 20 * elev) * MICRO, 70 * REFERENCE_ELEVATION)
    }
}

/// The value of land: its base value times `1 - 0.6 * dist / max_dist`.
pub open spec fn land_value(elev: int, dist: int, max_dist: int) -> int {
    trunc_div(land_base_value(elev) * fade(6, dist, max_dist), 10 * max_dist)
}

/// The saturation of land: `1 - 0.9 * dist / max_dist`.
pub open spec fn land_saturation(dist: int, max_dist: int) -> int {
    trunc_div(fade(9, dist, max_dist) * MICRO, 10 * max_dist)
}

/// The tint of terrain at elevation `elev` seen from `dist` away: shades of
/// blue `(0, 128, 255)` at or below the water level, a hue that runs with the
/// elevation above it, both fading with distance. The hue, the value and the
/// saturation of land are each cut to a millionth before `spec_hsv` combines
/// them, so a channel of land can come out one step below what the same
/// formulas give unrounded.
pub open spec fn spec_color_from_elev_dist(
    water_level: int,
    max_dist: int,
    elev: int,
    dist: int,
) -> (u8, u8, u8) {
    if elev <= water_level {
        (0u8, water_channel(128, dist, max_dist), water_channel(255, dist, max_dist))
    } else {
        spec_hsv(
            land_hue(elev),
            land_saturation(dist, max_dist),
            land_value(elev, dist, max_dist),
        )
    }
}

/// The tint of terrain at elevation `elev`, `dist` away.
#[verifier::rlimit(30)]
pub fn color_from_elev_dist(params: &Params, elev: i64, dist: i64) -> (rgb: (u8, u8, u8))
    requires
        params.view.frame.max_distance > 0,
    ensures
        rgb == spec_color_from_elev_dist(
            params.view.coloring.water_level() as int,
            params.view.frame.max_distance as int,
            elev as int,
            dist as int,
        ),
{
    let whole: i128 = 10 * (params.view.frame.max_distance as i128);
    let fade6: i128 = whole - 6 * (dist as i128);
    if elev <= params.view.coloring.water_level() {
        let green: u8 = channel_from((128 * fade6) / whole);
        let blue: u8 = channel_from((255 * fade6) / whole);
        (0, green, blue)
    } else {
        let unit: i128 = MICRO as i128;
        let reference: i128 = REFERENCE_ELEVATION as i128;
        let height: i128 = elev as i128;
        let size: u128 = magnitude_of(height);
        assert(size * unit <= 0x8000_0000_0000_0000 * 1_000_000) by (nonlinear_arith)
            requires
                size <= 0x8000_0000_0000_0000,
                unit == 1_000_000,
        ;
        let ratio: u128 = (size * (unit as u128)) / (reference as u128);
        let bend: i128 = power_065(ratio as u64) as i128;
        let h: i128 = 120 * unit - 240 * (if elev < 0 {
            -bend
        } else {
            bend
        });
        let base: i128 = if 10 * height > 7 * reference {
            ((21 * reference - 20 * height) * unit) / (10 * reference)
        } else {
            ((63 * reference - 20 * height) * unit) / (70 * reference)
        };
        proof {
            assert(-0x1000_0000_0000_0000_0000_0000_0000_0000 <= base * fade6
                <= 0x1000_0000_0000_0000_0000_0000_0000_0000) by (nonlinear_arith)
                requires
                    -0x10_0000_0000_0000 <= base <= 0x10_0000_0000_0000,
                    -0x10_0000_0000_0000_0000 <= fade6 <= 0x10_0000_0000_0000_0000,
            ;
            lemma_trunc_div_bounds((whole - 9 * dist) * MICRO, whole as int);
        }
        let v: i128 = (base * fade6) / whole;
        let s: i128 = ((whole - 9 * (dist as i128)) * unit) / whole;
        hsv(h, s, v)
    }
}

/// A channel of a colour given outright: the stored channel times 255,
/// rounded toward zero and cut to 0..=255.
pub open spec fn explicit_channel(c: int) -> u8 {
    to_channel(trunc_div(c * 255, MICRO as int))
}

/// The sample that a pixel shows: the first of its list, the nearest.
pub open spec fn shown(samples: Seq<ResultPixel>) -> Option<ResultPixel> {
    if samples.len() == 0 {
        None
    } else {
        Some(samples[0])
    }
}

/// The colour of a pixel: the background where it sees nothing, else the
/// colour of the sample it shows, stored or tinted.
pub open spec fn spec_pixel_color(params: Params, samples: Seq<ResultPixel>) -> (u8, u8, u8) {
    match shown(samples) {
        None => (BACKGROUND_LEVEL, BACKGROUND_LEVEL, BACKGROUND_LEVEL),
        Some(sample) => match sample.color {
            PixelColor::Terrain => spec_color_from_elev_dist(
                params.view.coloring.water_level() as int,
                params.view.frame.max_distance as int,
                sample.elevation as int,
                sample.distance as int,
            ),
            PixelColor::Rgb(color) => (
                explicit_channel(color.r as int),
                explicit_channel(color.g as int),
                explicit_channel(color.b as int),
            ),
        },
    }
}

/// Picks the sample that a pixel shows, if it sees any.
pub fn resolve_sample(samples: &Vec<ResultPixel>) -> (sample: Option<ResultPixel>)
    ensures
        sample == shown(samples@),
{
    if samples.len() == 0 {
        None
    } else {
        Some(samples[0])
    }
}

/// The colour of the pixel that sees `samples`.
pub fn pixel_color(params: &Params, samples: &Vec<ResultPixel>) -> (rgb: (u8, u8, u8))
    requires
        params.view.frame.max_distance > 0,
    ensures
        rgb == spec_pixel_color(*params, samples@),
{
    match resolve_sample(samples) {
        None => (BACKGROUND_LEVEL, BACKGROUND_LEVEL, BACKGROUND_LEVEL),
        Some(sample) => match sample.color {
            PixelColor::Terrain => color_from_elev_dist(params, sample.elevation, sample.distance),
            PixelColor::Rgb(color) => (
                channel_from(((color.r as i128) * 255) / (MICRO as i128)),
                channel_from(((color.g as i128) * 255) / (MICRO as i128)),
                channel_from(((color.b as i128) * 255) / (MICRO as i128)),
            ),
        },
    }
}

/// The colour of pixel `(x, y)` of a panorama.
pub open spec fn color_at(data: &AllData, x: int, y: int) -> (u8, u8, u8) {
    spec_pixel_color(data.params, data.samples_at(x, y))
}

/// Where pixel `(x, y)` starts in a raster of rows of `width` pixels of four bytes.
pub open spec fn pixel_offset(width: int, x: int, y: int) -> int {
    4 * (y * width + x)
}

/// The raster holds `rgb` at pixel `(x, y)`: blue, green, red, then a zero byte.
pub open spec fn pixel_stored(raster: Seq<u8>, width: int, x: int, y: int, rgb: (u8, u8, u8)) -> bool {
    let at = pixel_offset(width, x, y);
    &&& 0 <= at
    &&& at + 4 <= raster.len()
    &&& raster[at] == rgb.2
    &&& raster[at + 1] == rgb.1
    &&& raster[at + 2] == rgb.0
    &&& raster[at + 3] == 0
}

/// A pixel that comes earlier in reading order starts at least four bytes earlier.
proof fn lemma_reading_order(width: int, x1: int, y1: int, x2: int, y2: int)
    requires
        0 <= x1 < width,
        0 <= x2 <= width,
        0 <= y1,
        y1 < y2 || (y1 == y2 && x1 < x2),
    ensures
        0 <= pixel_offset(width, x1, y1),
        pixel_offset(width, x1, y1) + 4 <= pixel_offset(width, x2, y2),
{
    assert(0 <= y1 * width && y1 * width + x1 + 1 <= y2 * width + x2) by (nonlinear_arith)
        requires
            0 <= x1 < width,
            0 <= x2 <= width,
            0 <= y1,
            y1 < y2 || (y1 == y2 && x1 < x2),
    ;
}

/// Renders the panorama: a raster of `height` rows of `width` pixels, row by
/// row from the top, four bytes to a pixel.
#[verifier::rlimit(30)]
pub fn create_surface(data: &AllData) -> (raster: Vec<u8>)
    requires
        data.dims_ok(),
        data.params.view.frame.max_distance > 0,
    ensures
        raster@.len() == 4 * (data.params.output.height * data.params.output.width),
        forall|x: int, y: int|
            0 <= x < data.params.output.width && 0 <= y < data.params.output.height
                ==> pixel_stored(
                raster@,
                data.params.output.width as int,
                x,
                y,
                #[trigger] color_at(data, x, y),
            ),
{
    let width: usize = data.params.output.width as usize;
    let height: usize = data.params.output.height as usize;
    let mut raster: Vec<u8> = Vec::new();
    let mut y: usize = 0;
    while y < height
        invariant
            y <= height,
            width == data.params.output.width,
            height == data.params.output.height,
            data.dims_ok(),
            data.params.view.frame.max_distance > 0,
            raster@.len() == pixel_offset(width as int, 0, y as int),
            forall|xx: int, yy: int|
                0 <= xx < width && 0 <= yy < y ==> pixel_stored(
                    raster@,
                    width as int,
                    xx,
                    yy,
                    #[trigger] color_at(data, xx, yy),
                ),
        decreases height - y,
    {
        let row = &data.result[y];
        let mut x: usize = 0;
        while x < width
            invariant
                x <= width,
                y < height,
                width == data.params.output.width,
                height == data.params.output.height,
                data.dims_ok(),
                    data.params.view.frame.max_distance > 0,
                row == data.result@[y as int],
                raster@.len() == pixel_offset(width as int, x as int, y as int),
                forall|xx: int, yy: int|
                    0 <= xx < width && 0 <= yy < y ==> pixel_stored(
                        raster@,
                        width as int,
                        xx,
                        yy,
                        #[trigger] color_at(data, xx, yy),
                    ),
                forall|xx: int|
                    0 <= xx < x ==> pixel_stored(
                        raster@,
                        width as int,
                        xx,
                        y as int,
                        #[trigger] color_at(data, xx, y as int),
                    ),
            decreases width - x,
        {
            let rgb = pixel_color(&data.params, &row[x]);
            let ghost before = raster@;
            raster.push(rgb.2);
            raster.push(rgb.1);
            raster.push(rgb.0);
            raster.push(0);
            proof {
                assert forall|xx: int, yy: int| 0 <= xx < width && 0 <= yy < y implies pixel_stored(
                    raster@,
                    width as int,
                    xx,
                    yy,
                    #[trigger] color_at(data, xx, yy),
                ) by {
                    lemma_reading_order(width as int, xx, yy, x as int, y as int);
                    assert(pixel_stored(
                        before,
                        width as int,
                        xx,
                        yy,
                        color_at(data, xx, yy),
                    ));
                }
                assert forall|xx: int| 0 <= xx < x + 1 implies pixel_stored(
                    raster@,
                    width as int,
                    xx,
                    y as int,
                    #[trigger] color_at(data, xx, y as int),
                ) by {
                    if xx < x {
                        lemma_reading_order(width as int, xx, y as int, x as int, y as int);
                        assert(pixel_stored(
                            before,
                            width as int,
                            xx,
                            y as int,
                            color_at(data, xx, y as int),
                        ));
                    }
                }
            }
            x += 1;
        }
        proof {
            assert(pixel_offset(width as int, width as int, y as int) == pixel_offset(
                width as int,
                0,
                y + 1,
            )) by (nonlinear_arith);
        }
        y += 1;
    }
    raster
}

/// A pixel that sees nothing has the background colour, whatever the request;
/// a raster that holds the pixel's colour holds there the bytes 28, 28, 28, 0.
pub proof fn lemma_empty_pixel_is_background(data: &AllData, raster: Seq<u8>, x: int, y: int)
    requires
        data.samples_at(x, y).len() == 0,
        pixel_stored(raster, data.params.output.width as int, x, y, color_at(data, x, y)),
    ensures
        color_at(data, x, y) == (28u8, 28u8, 28u8),
        raster.subrange(
            pixel_offset(data.params.output.width as int, x, y),
            pixel_offset(data.params.output.width as int, x, y) + 4,
        ) == seq![28u8, 28u8, 28u8, 0u8],
{
    let at = pixel_offset(data.params.output.width as int, x, y);
    assert(raster.subrange(at, at + 4) =~= seq![28u8, 28u8, 28u8, 0u8]);
}

/// A sample with a colour of its own shows that colour, each channel scaled to
/// 0..=255: neither its elevation and distance, nor the water level and the
/// rest of the request have any part in it.
pub proof fn lemma_explicit_color_shown(
    params: Params,
    other_params: Params,
    samples: Seq<ResultPixel>,
    other_samples: Seq<ResultPixel>,
)
    requires
        samples.len() > 0,
        other_samples.len() > 0,
        samples[0].color is Rgb,
        other_samples[0].color == samples[0].color,
    ensures
        spec_pixel_color(params, samples) == spec_pixel_color(other_params, other_samples),
        samples[0].color matches PixelColor::Rgb(color) ==> {
            &&& spec_pixel_color(params, samples) == (
                explicit_channel(color.r as int),
                explicit_channel(color.g as int),
                explicit_channel(color.b as int),
            )
            &&& 0 <= color.r <= MICRO ==> explicit_channel(color.r as int) == color.r * 255
                / (MICRO as int)
            &&& 0 <= color.g <= MICRO ==> explicit_channel(color.g as int) == color.g * 255
                / (MICRO as int)
            &&& 0 <= color.b <= MICRO ==> explicit_channel(color.b as int) == color.b * 255
                / (MICRO as int)
        },
{
}

} // verus!
