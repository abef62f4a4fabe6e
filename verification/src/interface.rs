//! What the panel beside the panorama says of a picked pixel.

use crate::data::{AllData, ResultPixel, ANGLE_BOUND, ANGLE_UNIT};
use crate::fixed::{magnitude, magnitude_of, MICRO};
use crate::rendering::{resolve_sample, shown};
use crate::text::{decimal, push_decimal, push_quantity, quantity_text};
use vstd::prelude::*;

verus! {

/// The six lines of the panel: four on the sample that the pixel shows, two on
/// the direction of view through the pixel.
pub struct Labels {
    pub elevation_label: String,
    pub distance_label: String,
    pub latitude_label: String,
    pub longitude_label: String,
    pub dir_elev_label: String,
    pub dir_azim_label: String,
}

/// The whole degrees of an angle's magnitude.
pub open spec fn dms_degrees(ang: int) -> nat {
    (magnitude(ang) / (MICRO as int)) as nat
}

/// The whole minutes left after the degrees.
pub open spec fn dms_minutes(ang: int) -> nat {
    ((magnitude(ang) % (MICRO as int)) * 60 / (MICRO as int)) as nat
}

/// The whole seconds left after the degrees and minutes.
pub open spec fn dms_seconds(ang: int) -> nat {
    (((magnitude(ang) % (MICRO as int)) * 60 % (MICRO as int)) * 60 / (MICRO as int)) as nat
}

/// Splits the magnitude of an angle into degrees, minutes and seconds, each
/// cut down to a whole number.
pub fn as_dms(ang: i64) -> (dms: (u64, u64, u64))
    ensures
        dms.0 == dms_degrees(ang as int),
        dms.1 == dms_minutes(ang as int),
        dms.2 == dms_seconds(ang as int),
{
    let size: u128 = magnitude_of(ang as i128);
    let unit: u128 = MICRO as u128;
    let deg: u128 = size / unit;
    let part: u128 = (size % unit) * 60;
    let min: u128 = part / unit;
    let sec: u128 = ((part % unit) * 60) / unit;
    (deg as u64, min as u64, sec as u64)
}

/// Degrees, minutes and seconds never round up: minutes and seconds stay
/// below 60, and together the three count the whole seconds of the angle.
pub proof fn lemma_dms_counts_whole_seconds(ang: int)
    ensures
        dms_minutes(ang) < 60,
        dms_seconds(ang) < 60,
        dms_degrees(ang) * 3600 + dms_minutes(ang) * 60 + dms_seconds(ang) == magnitude(ang)
            * 3600 / (MICRO as int),
{
    let a = magnitude(ang);
    let unit = MICRO as int;
    let deg = a / unit;
    let rest = a % unit;
    let min = rest * 60 / unit;
    let part = rest * 60 % unit;
    let sec = part * 60 / unit;
    assert(a * 3600 == (deg * 3600 + min * 60 + sec) * unit + (part * 60 % unit));
}

/// `Elevation: 123.4 m (406 ft)`, a foot being 0.304 m.
pub open spec fn elevation_text(elev: int) -> Seq<char> {
    "Elevation: "@ + quantity_text(elev, MICRO as int, 1) + " m ("@ + quantity_text(
        elev * 1000,
        304 * MICRO,
        0,
    ) + " ft)"@
}

/// A distance in kilometres where it is over 1000 m, else in metres.
pub open spec fn si_distance_text(dist: int) -> Seq<char> {
    if dist > 1000 * MICRO {
        quantity_text(dist, 1000 * MICRO, 1) + " km"@
    } else {
        quantity_text(dist, MICRO as int, 1) + " m"@
    }
}

/// A distance in miles of 1609 m where it is over 805 m, else in yards of 0.912 m.
pub open spec fn imperial_distance_text(dist: int) -> Seq<char> {
    if dist > 805 * MICRO {
        quantity_text(dist, 1609 * MICRO, 1) + " mi"@
    } else {
        quantity_text(dist * 1000, 912 * MICRO, 1) + " yds"@
    }
}

/// `Distance: 1.5 km (0.9 mi)`.
pub open spec fn distance_text(dist: int) -> Seq<char> {
    "Distance: "@ + si_distance_text(dist) + " ("@ + imperial_distance_text(dist) + ")"@
}

/// The magnitude of an angle as degrees, minutes and seconds: `12°30'0"`.
pub open spec fn dms_text(ang: int) -> Seq<char> {
    decimal(dms_degrees(ang)) + "°"@ + decimal(dms_minutes(ang)) + "'"@ + decimal(
        dms_seconds(ang),
    ) + "\""@
}

/// An angle as degrees, minutes, seconds and hemisphere, then in degrees to
/// six places: `12°30'0"N (12.500000)`. `plus` names the hemisphere of angles
/// from zero up, `minus` that of the others.
pub open spec fn coordinate_text(ang: int, plus: Seq<char>, minus: Seq<char>) -> Seq<char> {
    dms_text(ang) + (if ang >= 0 {
        plus
    } else {
        minus
    }) + " ("@ + quantity_text(ang, MICRO as int, 6) + ")"@
}

/// `Latitude: ` and the coordinate, north or south.
pub open spec fn latitude_text(lat: int) -> Seq<char> {
    "Latitude: "@ + coordinate_text(lat, "N"@, "S"@)
}

/// `Longitude: ` and the coordinate, east or west.
pub open spec fn longitude_text(lon: int) -> Seq<char> {
    "Longitude: "@ + coordinate_text(lon, "E"@, "W"@)
}

/// `Elevation: 1.250 deg`, of the direction of view, from a viewing angle.
pub open spec fn dir_elevation_text(elev: int) -> Seq<char> {
    "Elevation: "@ + quantity_text(elev, ANGLE_UNIT as int, 3) + " deg"@
}

/// `Azimuth: 359.800 deg`, from a viewing angle.
pub open spec fn dir_azimuth_text(azim: int) -> Seq<char> {
    "Azimuth: "@ + quantity_text(azim, ANGLE_UNIT as int, 3) + " deg"@
}

/// The line on the elevation of a sample.
#[verifier::rlimit(30)]
pub fn elevation_line(elev: i64) -> (line: String)
    ensures
        line@ == elevation_text(elev as int),
{
    let mut line: String = String::from_str("Elevation: ");
    push_quantity(&mut line, elev as i128, MICRO as u128, 1);
    line.append(" m (");
    push_quantity(&mut line, (elev as i128) * 1000, 304 * (MICRO as u128), 0);
    line.append(" ft)");
    assert(line@ =~= elevation_text(elev as int));
    line
}

/// A distance in metres or kilometres.
pub fn si_distance(dist: i64) -> (text: String)
    ensures
        text@ == si_distance_text(dist as int),
{
    let mut text: String = String::new();
    if dist > 1000 * MICRO {
        push_quantity(&mut text, dist as i128, 1000 * (MICRO as u128), 1);
        text.append(" km");
    } else {
        push_quantity(&mut text, dist as i128, MICRO as u128, 1);
        text.append(" m");
    }
    assert(text@ =~= si_distance_text(dist as int));
    text
}

/// A distance in yards or miles.
pub fn imperial_distance(dist: i64) -> (text: String)
    ensures
        text@ == imperial_distance_text(dist as int),
{
    let mut text: String = String::new();
    if dist > 805 * MICRO {
        push_quantity(&mut text, dist as i128, 1609 * (MICRO as u128), 1);
        text.append(" mi");
    } else {
        push_quantity(&mut text, (dist as i128) * 1000, 912 * (MICRO as u128), 1);
        text.append(" yds");
    }
    assert(text@ =~= imperial_distance_text(dist as int));
    text
}

/// The line on the distance of a sample, in both systems of units.
#[verifier::rlimit(30)]
pub fn distance_line(dist: i64) -> (line: String)
    ensures
        line@ == distance_text(dist as int),
{
    let mut line: String = String::from_str("Distance: ");
    let si: String = si_distance(dist);
    let imperial: String = imperial_distance(dist);
    line.append(si.as_str());
    line.append(" (");
    line.append(imperial.as_str());
    line.append(")");
    assert(line@ =~= distance_text(dist as int));
    line
}

/// Appends the magnitude of an angle as degrees, minutes and seconds.
#[verifier::rlimit(30)]
fn push_dms(out: &mut String, ang: i64)
    ensures
        final(out)@ == old(out)@ + dms_text(ang as int),
{
    let ghost before = out@;
    let dms = as_dms(ang);
    push_decimal(out, dms.0 as u128);
    out.append("°");
    let ghost degrees = out@;
    assert(degrees =~= before + (decimal(dms_degrees(ang as int)) + "°"@));
    push_decimal(out, dms.1 as u128);
    out.append("'");
    let ghost minutes = out@;
    assert(minutes =~= degrees + (decimal(dms_minutes(ang as int)) + "'"@));
    push_decimal(out, dms.2 as u128);
    out.append("\"");
    assert(out@ =~= minutes + (decimal(dms_seconds(ang as int)) + "\""@));
    assert(out@ =~= before + dms_text(ang as int));
}

/// Appends a coordinate; `plus` and `minus` name the two hemispheres.
#[verifier::rlimit(30)]
fn push_coordinate(out: &mut String, ang: i64, plus: &str, minus: &str)
    ensures
        final(out)@ == old(out)@ + coordinate_text(ang as int, plus@, minus@),
{
    let ghost before = out@;
    push_dms(out, ang);
    if ang >= 0 {
        out.append(plus);
    } else {
        out.append(minus);
    }
    out.append(" (");
    let ghost opened = out@;
    push_quantity(out, ang as i128, MICRO as u128, 6);
    out.append(")");
    assert(out@ =~= opened + (quantity_text(ang as int, MICRO as int, 6) + ")"@));
    assert(out@ =~= before + coordinate_text(ang as int, plus@, minus@));
}

/// The line on the latitude of a sample.
pub fn latitude_line(lat: i64) -> (line: String)
    ensures
        line@ == latitude_text(lat as int),
{
    let mut line: String = String::from_str("Latitude: ");
    push_coordinate(&mut line, lat, "N", "S");
    line
}

/// The line on the longitude of a sample.
pub fn longitude_line(lon: i64) -> (line: String)
    ensures
        line@ == longitude_text(lon as int),
{
    let mut line: String = String::from_str("Longitude: ");
    push_coordinate(&mut line, lon, "E", "W");
    line
}

/// The line on the elevation of the direction of view, a viewing angle.
pub fn dir_elevation_line(elev: i128) -> (line: String)
    requires
        -ANGLE_BOUND <= elev <= ANGLE_BOUND,
    ensures
        line@ == dir_elevation_text(elev as int),
{
    let mut line: String = String::from_str("Elevation: ");
    push_quantity(&mut line, elev, ANGLE_UNIT as u128, 3);
    line.append(" deg");
    assert(line@ =~= dir_elevation_text(elev as int));
    line
}

/// The line on the azimuth of the direction of view, a viewing angle.
pub fn dir_azimuth_line(azim: i128) -> (line: String)
    requires
        -ANGLE_BOUND <= azim <= ANGLE_BOUND,
    ensures
        line@ == dir_azimuth_text(azim as int),
{
    let mut line: String = String::from_str("Azimuth: ");
    push_quantity(&mut line, azim, ANGLE_UNIT as u128, 3);
    line.append(" deg");
    assert(line@ =~= dir_azimuth_text(azim as int));
    line
}

impl Labels {
    /// The four lines on a sample: its own where there is one, else `none`
    /// after each heading.
    pub open spec fn describes(&self, sample: Option<ResultPixel>) -> bool {
        match sample {
            Some(pixel) => {
                &&& self.elevation_label@ == elevation_text(pixel.elevation as int)
                &&& self.distance_label@ == distance_text(pixel.distance as int)
                &&& self.latitude_label@ == latitude_text(pixel.lat as int)
                &&& self.longitude_label@ == longitude_text(pixel.lon as int)
            },
            None => {
                &&& self.elevation_label@ == "Elevation: none"@
                &&& self.distance_label@ == "Distance: none"@
                &&& self.latitude_label@ == "Latitude: none"@
                &&& self.longitude_label@ == "Longitude: none"@
            },
        }
    }

    /// The panel before any pixel is picked: `none` after every heading.
    pub fn new() -> (labels: Labels)
        ensures
            labels.describes(None),
            labels.dir_elev_label@ == "Elevation: none"@,
            labels.dir_azim_label@ == "Azimuth: none"@,
    {
        Labels {
            elevation_label: String::from_str("Elevation: none"),
            distance_label: String::from_str("Distance: none"),
            latitude_label: String::from_str("Latitude: none"),
            longitude_label: String::from_str("Longitude: none"),
            dir_elev_label: String::from_str("Elevation: none"),
            dir_azim_label: String::from_str("Azimuth: none"),
        }
    }
}

/// Describes pixel `(x, y)`: the direction of view through it, and the sample
/// that it shows, if any.
#[verifier::rlimit(30)]
pub fn describe_pixel(data: &AllData, x: usize, y: usize) -> (labels: Labels)
    requires
        data.dims_ok(),
        x < data.params.output.width,
        y < data.params.output.height,
    ensures
        labels.dir_azim_label@ == dir_azimuth_text(data.params.azimuth_at(x as int)),
        labels.dir_elev_label@ == dir_elevation_text(data.params.elevation_at(y as int)),
        labels.describes(shown(data.samples_at(x as int, y as int))),
{
    let angles = data.params.get_azim_and_elev(x, y);
    let dir_elev_label: String = dir_elevation_line(angles.1);
    let dir_azim_label: String = dir_azimuth_line(angles.0);
    match resolve_sample(&data.result[y][x]) {
        Some(pixel) => Labels {
            elevation_label: elevation_line(pixel.elevation),
            distance_label: distance_line(pixel.distance),
            latitude_label: latitude_line(pixel.lat),
            longitude_label: longitude_line(pixel.lon),
            dir_elev_label,
            dir_azim_label,
        },
        None => Labels {
            elevation_label: String::from_str("Elevation: none"),
            distance_label: String::from_str("Distance: none"),
            latitude_label: String::from_str("Latitude: none"),
            longitude_label: String::from_str("Longitude: none"),
            dir_elev_label,
            dir_azim_label,
        },
    }
}

} // verus!
