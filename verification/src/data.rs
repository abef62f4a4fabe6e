//! The data of a computed panorama: what was asked for and what was seen
//! through every pixel.
//!
//! Angles are in degrees, lengths in metres, colour channels in the unit
//! interval; each is stored as an `i64` count of millionths.

use crate::fixed::{
    lemma_div_below, lemma_trunc_div_bounds, lemma_trunc_div_separates, magnitude, trunc_div,
    MICRO,
};
use vstd::prelude::*;
// the trait behind `@`, which the struct `View` below hides under its own name
use vstd::view::View as _;

verus! {

/// A full turn of 360 degrees.
pub const FULL_TURN: i64 = 360_000_000;

/// How many units of a viewing angle make one degree. The angles at which
/// pixels are seen are counted a million times finer than stored numbers, in
/// units of `10^-12` degree: the rows and columns of the widest image are then
/// still seen at different angles through the narrowest field of view that
/// can be stored.
pub const ANGLE_UNIT: i128 = 1_000_000_000_000;

/// A full turn as a viewing angle.
pub const ANGLE_TURN: i128 = 360_000_000_000_000;

/// No viewing angle is further from zero: two to the power 100 units.
pub const ANGLE_BOUND: i128 = 0x10_0000_0000_0000_0000_0000_0000;

/// A height, above sea level or above the terrain underneath.
#[derive(Clone, Copy)]
pub enum Altitude {
    Absolute(i64),
    Relative(i64),
}

/// Where the viewer stands.
#[derive(Clone, Copy)]
pub struct Position {
    pub latitude: i64,
    pub longitude: i64,
    pub altitude: Altitude,
}

/// A texture, known here by the path it is loaded from.
#[derive(Clone)]
pub struct Image {
    pub path: String,
}

/// The shape of an object placed in the scene.
#[derive(Clone)]
pub enum Shape {
    Cylinder { radius: i64, height: i64 },
    Billboard { width: i64, height: i64, texture: Image },
}

/// A place on the ground and its elevation.
#[derive(Clone, Copy, Debug)]
pub struct Coords {
    pub lat: i64,
    pub lon: i64,
    pub elev: i64,
}

/// An object placed in the scene.
#[derive(Clone)]
pub struct Object {
    pub position: Coords,
    pub shape: Shape,
    pub color: Color,
}

/// What is looked at: the terrain and the objects on it.
#[derive(Clone)]
pub struct Scene {
    pub terrain_folder: String,
    pub objects: Vec<Object>,
}

/// A three-component vector.
#[derive(Clone, Copy, Debug)]
pub struct Vector3 {
    pub x: i64,
    pub y: i64,
    pub z: i64,
}

/// Where the viewer looks: the azimuth of the image centre, its elevation, the
/// angle spanned by the image width, and the farthest distance rendered.
#[derive(Clone, Copy)]
pub struct Frame {
    pub direction: i64,
    pub tilt: i64,
    pub fov: i64,
    pub max_distance: i64,
}

/// How terrain is coloured. Both ways know the water level; the tint reads
/// nothing else of them.
#[derive(Clone, Copy)]
pub enum Coloring {
    Simple { water_level: i64, max_distance: i64 },
    Shading { water_level: i64, ambient_light: i64, light_dir: Vector3 },
}

/// The viewer: where from, which way, and how coloured.
#[derive(Clone, Copy)]
pub struct View {
    pub position: Position,
    pub frame: Frame,
    pub coloring: Coloring,
    pub fog_distance: Option<i64>,
}

/// A mark on the azimuth scale of the output: one, or a regular series.
#[derive(Clone)]
pub enum Tick {
    Single { azimuth: i64, size: u32, labelled: bool },
    Multiple { bias: i64, step: i64, size: u32, labelled: bool },
}

/// The image asked for: where it goes, its size in pixels, its decorations.
#[derive(Clone)]
pub struct Output {
    pub file: String,
    pub file_metadata: Option<String>,
    pub width: u16,
    pub height: u16,
    pub ticks: Vec<Tick>,
    pub show_eye_level: bool,
}

/// `atm_refraction::Environment`, the model of the planet and its atmosphere
/// that the simulation ran in: a value of it is carried through and never read.
#[verifier::external_type_specification]
#[verifier::external_body]
pub struct ExEnvironment(atm_refraction::Environment);

/// Everything that was asked of the simulation.
pub struct Params {
    pub scene: Scene,
    pub view: View,
    pub env: atm_refraction::Environment,
    pub straight_rays: bool,
    pub simulation_step: i64,
    pub output: Output,
}

/// A colour with opacity; every channel lies between 0 and 1.
#[derive(Debug, Clone, Copy)]
pub struct Color {
    pub r: i64,
    pub g: i64,
    pub b: i64,
    pub a: i64,
}

/// Where a sample takes its colour from: the terrain tint, or a colour of its own.
#[derive(Debug, Clone, Copy)]
pub enum PixelColor {
    Terrain,
    Rgb(Color),
}

/// One thing seen along the ray of a pixel.
#[derive(Debug, Clone, Copy)]
pub struct ResultPixel {
    pub lat: i64,
    pub lon: i64,
    pub distance: i64,
    pub elevation: i64,
    pub path_length: i64,
    pub normal: Vector3,
    pub color: PixelColor,
}

/// The request and its result: `result[y][x]` lists what pixel `(x, y)` sees,
/// nearest first.
pub struct AllData {
    pub params: Params,
    pub result: Vec<Vec<Vec<ResultPixel>>>,
}

impl Coloring {
    /// The water level, whichever way of colouring is chosen.
    pub open spec fn spec_water_level(&self) -> i64 {
        match *self {
            Coloring::Simple { water_level, .. } => water_level,
            Coloring::Shading { water_level, .. } => water_level,
        }
    }

    #[verifier::when_used_as_spec(spec_water_level)]
    pub fn water_level(&self) -> (level: i64)
        ensures
            level == self.spec_water_level(),
    {
        match *self {
            Coloring::Simple { water_level, .. } | Coloring::Shading { water_level, .. } => {
                water_level
            },
        }
    }
}

/// A stored angle as a viewing angle: the same angle in the finer unit.
pub open spec fn fine(stored: int) -> int {
    stored * MICRO
}

/// A viewing angle raised by a full turn where it is below zero, then lowered
/// by one where it has reached 360 degrees: no more than that is ever needed
/// for a direction in `[0, 360)` and a field of view of at most a full turn.
pub open spec fn wrap_once(angle: int) -> int {
    let raised = if angle < 0 {
        angle + ANGLE_TURN
    } else {
        angle
    };
    if raised >= ANGLE_TURN {
        raised - ANGLE_TURN
    } else {
        raised
    }
}

/// The viewing angle spanned by `halves` half-pixels, where `width` pixels
/// span the stored angle `fov`; cut toward zero to a whole unit.
pub open spec fn angle_of(halves: int, fov: int, width: int) -> int {
    trunc_div(halves * fov * MICRO, 2 * width)
}

impl Frame {
    /// The direction is an azimuth in `[0, 360)`.
    pub open spec fn direction_normalized(&self) -> bool {
        0 <= self.direction < FULL_TURN
    }
}

impl AllData {
    /// The result has one row for each line of the output and one list for each
    /// of its columns.
    pub open spec fn dims_ok(&self) -> bool {
        &&& self.result@.len() == self.params.output.height
        &&& forall|y: int|
            0 <= y < self.result@.len() ==> (#[trigger] self.result@[y])@.len()
                == self.params.output.width
    }

    /// What pixel `(x, y)` sees, nearest first.
    pub open spec fn samples_at(&self, x: int, y: int) -> Seq<ResultPixel> {
        self.result@[y]@[x]@
    }

    /// Tells whether the result has the dimensions of the output.
    pub fn check_dims(&self) -> (ok: bool)
        ensures
            ok == self.dims_ok(),
    {
        if self.result.len() != self.params.output.height as usize {
            return false;
        }
        let mut y: usize = 0;
        while y < self.result.len()
            invariant
                y <= self.result@.len(),
                self.result@.len() == self.params.output.height,
                forall|k: int|
                    0 <= k < y ==> (#[trigger] self.result@[k])@.len()
                        == self.params.output.width,
            decreases self.result@.len() - y,
        {
            if self.result[y].len() != self.params.output.width as usize {
                return false;
            }
            y += 1;
        }
        true
    }
}

impl Params {
    /// The azimuth seen through column `x`, as a viewing angle: the frame's
    /// direction plus the column's distance from the image centre, at
    /// `fov / width` per pixel, wrapped once into `[0, 360)`.
    pub open spec fn azimuth_at(&self, x: int) -> int {
        wrap_once(
            fine(self.view.frame.direction as int) + angle_of(
                2 * x - self.output.width,
                self.view.frame.fov as int,
                self.output.width as int,
            ),
        )
    }

    /// The elevation seen through row `y`, as a viewing angle: the frame's
    /// tilt plus the row's height above the image centre, at the same
    /// `fov / width` per pixel.
    pub open spec fn elevation_at(&self, y: int) -> int {
        fine(self.view.frame.tilt as int) + angle_of(
            self.output.height - 2 * y,
            self.view.frame.fov as int,
            self.output.width as int,
        )
    }

    /// The viewing angles of pixel `(x, y)`, azimuth and elevation, in units
    /// of `10^-12` degree. The azimuth is that of the column whatever the row.
    /// Through any field of view that is more than nothing, every row further
    /// down is seen strictly lower; where the direction is an azimuth and the
    /// field of view at most a full turn, the azimuth is one too, and no
    /// other column of the image shares it.
    #[verifier::rlimit(30)]
    pub fn get_azim_and_elev(&self, x: usize, y: usize) -> (angles: (i128, i128))
        requires
            x < self.output.width,
            y < self.output.height,
        ensures
            angles.0 == self.azimuth_at(x as int),
            angles.1 == self.elevation_at(y as int),
            self.view.frame.fov >= 1 ==> forall|lower: int|
                y < lower ==> #[trigger] self.elevation_at(lower) < angles.1,
            self.view.frame.direction_normalized() && 0 <= self.view.frame.fov <= FULL_TURN ==> 0
                <= angles.0 < ANGLE_TURN,
            self.view.frame.direction_normalized() && 1 <= self.view.frame.fov <= FULL_TURN
                ==> forall|other: int|
                0 <= other < self.output.width && other != x ==> #[trigger] self.azimuth_at(other)
                    != angles.0,
            -ANGLE_BOUND <= angles.0 <= ANGLE_BOUND,
            -ANGLE_BOUND <= angles.1 <= ANGLE_BOUND,
    {
        proof {
            lemma_viewing_angles_are_bounded(*self, x as int, y as int);
            if self.view.frame.direction_normalized() && 0 <= self.view.frame.fov <= FULL_TURN {
                lemma_azimuth_normalized(*self, x as int);
            }
            if self.view.frame.direction_normalized() && 1 <= self.view.frame.fov <= FULL_TURN {
                assert forall|other: int|
                    0 <= other < self.output.width && other != x implies #[trigger] self.azimuth_at(
                    other,
                ) != self.azimuth_at(x as int) by {
                    if other < x {
                        lemma_columns_are_seen_apart(*self, other, x as int);
                    } else {
                        lemma_columns_are_seen_apart(*self, x as int, other);
                    }
                }
            }
            if self.view.frame.fov >= 1 {
                assert forall|lower: int| y < lower implies #[trigger] self.elevation_at(lower)
                    < self.elevation_at(y as int) by {
                    lemma_higher_rows_are_seen_higher(*self, y as int, lower);
                }
            }
        }
        let unit: i128 = MICRO as i128;
        let width: i128 = self.output.width as i128;
        let height: i128 = self.output.height as i128;
        let fov: i128 = self.view.frame.fov as i128;
        let across: i128 = 2 * (x as i128) - width;
        let up: i128 = height - 2 * (y as i128);
        proof {
            lemma_span_bounds(across as int, self.view.frame.fov as int, width as int);
            lemma_span_bounds(up as int, self.view.frame.fov as int, width as int);
        }
        let mut azim: i128 = (self.view.frame.direction as i128) * unit + (across * fov * unit)
            / (2 * width);
        if azim < 0 {
            azim += ANGLE_TURN;
        }
        if azim >= ANGLE_TURN {
            azim -= ANGLE_TURN;
        }
        let elev: i128 = (self.view.frame.tilt as i128) * unit + (up * fov * unit) / (2 * width);
        (azim, elev)
    }
}

/// The angle spanned by at most 65535 half-pixels is far from overflowing.
proof fn lemma_span_bounds(halves: int, fov: int, width: int)
    requires
        -65535 <= halves <= 65535,
        i64::MIN <= fov <= i64::MAX,
        width > 0,
    ensures
        -0x8000_0000_0000_0000_0000 <= halves * fov <= 0x8000_0000_0000_0000_0000,
        -0x8_0000_0000_0000_0000_0000_0000 <= angle_of(halves, fov, width)
            <= 0x8_0000_0000_0000_0000_0000_0000,
{
    assert(-0x8000_0000_0000_0000_0000 <= halves * fov <= 0x8000_0000_0000_0000_0000)
        by (nonlinear_arith)
        requires
            -65535 <= halves <= 65535,
            -0x8000_0000_0000_0000 <= fov <= 0x8000_0000_0000_0000,
    ;
    lemma_trunc_div_bounds(halves * fov * MICRO, 2 * width);
}

/// The viewing angles of every pixel are within `ANGLE_BOUND` of zero.
proof fn lemma_viewing_angles_are_bounded(params: Params, x: int, y: int)
    requires
        0 <= x < params.output.width,
        0 <= y < params.output.height,
    ensures
        -ANGLE_BOUND <= params.azimuth_at(x) <= ANGLE_BOUND,
        -ANGLE_BOUND <= params.elevation_at(y) <= ANGLE_BOUND,
{
    let w = params.output.width as int;
    lemma_span_bounds(2 * x - w, params.view.frame.fov as int, w);
    lemma_span_bounds(params.output.height - 2 * y, params.view.frame.fov as int, w);
}

/// Through the exact centre of an image of even width and height the viewer
/// sees the frame's own direction and tilt.
pub proof fn lemma_center_pixel_sees_frame(params: Params)
    requires
        params.view.frame.direction_normalized(),
        params.output.width > 0,
        params.output.width % 2 == 0,
        params.output.height % 2 == 0,
    ensures
        params.azimuth_at(params.output.width as int / 2) == fine(
            params.view.frame.direction as int,
        ),
        params.elevation_at(params.output.height as int / 2) == fine(
            params.view.frame.tilt as int,
        ),
{
    let w = params.output.width as int;
    let h = params.output.height as int;
    let f = params.view.frame.fov as int;
    assert((2 * (w / 2) - w) * f == 0) by (nonlinear_arith)
        requires
            w % 2 == 0,
    ;
    assert((h - 2 * (h / 2)) * f == 0) by (nonlinear_arith)
        requires
            h % 2 == 0,
    ;
    assert(0int / (2 * w) == 0) by (nonlinear_arith)
        requires
            w > 0,
    ;
}

/// Within half the field of view of the centre: the angle spanned by the
/// half-pixels from the centre to a column of the image is at most half the
/// field of view either way, and less to the right.
proof fn lemma_within_half_fov(halves: int, fov: int, width: int)
    requires
        -width <= halves <= width - 2,
        0 <= fov,
    ensures
        -(fine(fov) / 2) <= angle_of(halves, fov, width),
        angle_of(halves, fov, width) <= fine(fov) / 2,
        fov >= 1 ==> angle_of(halves, fov, width) < fine(fov) / 2,
{
    let f = fine(fov);
    let half = f / 2;
    assert(f == 2 * half);
    assert(halves * fov * MICRO == halves * f) by (nonlinear_arith)
        requires
            f == fov * MICRO,
    ;
    let span = magnitude(halves * f);
    assert(0 <= span <= width * f) by (nonlinear_arith)
        requires
            span == magnitude(halves * f),
            -width <= halves <= width,
            0 <= f,
    ;
    assert(width * f < (half + 1) * (2 * width)) by (nonlinear_arith)
        requires
            width > 0,
            f == 2 * half,
    ;
    lemma_div_below(span, 2 * width, half + 1);
    if fov >= 1 && halves * f >= 0 {
        assert(halves * f < half * (2 * width)) by (nonlinear_arith)
            requires
                halves <= width - 2,
                f == 2 * half,
                half >= 1,
                width > 0,
        ;
        lemma_div_below(halves * f, 2 * width, half);
    }
}

/// Every column of the image is seen at an azimuth in `[0, 360)`, when the
/// frame's direction is one and the field of view is at most a full turn.
pub proof fn lemma_azimuth_normalized(params: Params, x: int)
    requires
        params.view.frame.direction_normalized(),
        0 <= params.view.frame.fov <= FULL_TURN,
        0 <= x < params.output.width,
    ensures
        0 <= params.azimuth_at(x) < ANGLE_TURN,
{
    let w = params.output.width as int;
    lemma_within_half_fov(2 * x - w, params.view.frame.fov as int, w);
}

/// A row further up is seen at a strictly higher elevation, through any field
/// of view that is more than nothing.
pub proof fn lemma_higher_rows_are_seen_higher(params: Params, upper: int, lower: int)
    requires
        params.view.frame.fov >= 1,
        params.output.width > 0,
        upper < lower,
    ensures
        params.elevation_at(upper) > params.elevation_at(lower),
{
    let w = params.output.width as int;
    let h = params.output.height as int;
    let f = params.view.frame.fov as int;
    assert((h - 2 * upper) * f * MICRO - (h - 2 * lower) * f * MICRO >= 2 * (2 * w))
        by (nonlinear_arith)
        requires
            upper < lower,
            f >= 1,
            w <= 65535,
            MICRO == 1_000_000,
    ;
    lemma_trunc_div_separates((h - 2 * upper) * f * MICRO, (h - 2 * lower) * f * MICRO, 2 * w);
}

/// Two columns of the image are seen at different azimuths, when the frame's
/// direction is an azimuth and the field of view is more than nothing and at
/// most a full turn.
pub proof fn lemma_columns_are_seen_apart(params: Params, left: int, right: int)
    requires
        params.view.frame.direction_normalized(),
        1 <= params.view.frame.fov <= FULL_TURN,
        0 <= left < right < params.output.width,
    ensures
        params.azimuth_at(left) != params.azimuth_at(right),
{
    let w = params.output.width as int;
    let fov = params.view.frame.fov as int;
    lemma_within_half_fov(2 * left - w, fov, w);
    lemma_within_half_fov(2 * right - w, fov, w);
    assert((2 * right - w) * fov * MICRO - (2 * left - w) * fov * MICRO >= 2 * (2 * w))
        by (nonlinear_arith)
        requires
            left < right,
            fov >= 1,
            w <= 65535,
            MICRO == 1_000_000,
    ;
    lemma_trunc_div_separates(
        (2 * right - w) * fov * MICRO,
        (2 * left - w) * fov * MICRO,
        2 * w,
    );
}

impl Color {
    /// Every channel, opacity included, lies between 0 and 1.
    pub open spec fn wf(&self) -> bool {
        &&& 0 <= self.r <= MICRO
        &&& 0 <= self.g <= MICRO
        &&& 0 <= self.b <= MICRO
        &&& 0 <= self.a <= MICRO
    }

    /// Tells whether every channel lies between 0 and 1.
    pub fn check(&self) -> (ok: bool)
        ensures
            ok == self.wf(),
    {
        0 <= self.r && self.r <= MICRO && 0 <= self.g && self.g <= MICRO && 0 <= self.b
            && self.b <= MICRO && 0 <= self.a && self.a <= MICRO
    }
}

impl ResultPixel {
    /// A colour of the sample's own is a well-formed colour.
    pub open spec fn wf(&self) -> bool {
        match self.color {
            PixelColor::Terrain => true,
            PixelColor::Rgb(color) => color.wf(),
        }
    }

    /// Tells whether a colour of the sample's own is well-formed.
    pub fn check(&self) -> (ok: bool)
        ensures
            ok == self.wf(),
    {
        match self.color {
            PixelColor::Terrain => true,
            PixelColor::Rgb(color) => color.check(),
        }
    }
}

/// No sample of the list is nearer than one before it.
pub open spec fn nearest_first(samples: Seq<ResultPixel>) -> bool {
    forall|i: int, j: int|
        0 <= i < j < samples.len() ==> samples[i].distance <= samples[j].distance
}

/// The list of one pixel is well-formed: nearest first, every sample well-formed.
pub open spec fn samples_wf(samples: Seq<ResultPixel>) -> bool {
    &&& nearest_first(samples)
    &&& forall|i: int| 0 <= i < samples.len() ==> (#[trigger] samples[i]).wf()
}

/// Tells whether the list of one pixel is well-formed.
pub fn check_samples(samples: &Vec<ResultPixel>) -> (ok: bool)
    ensures
        ok == samples_wf(samples@),
{
    let mut i: usize = 0;
    while i < samples.len()
        invariant
            i <= samples@.len(),
            forall|a: int, b: int| 0 <= a < b < i ==> samples@[a].distance <= samples@[b].distance,
            forall|k: int| 0 <= k < i ==> (#[trigger] samples@[k]).wf(),
        decreases samples@.len() - i,
    {
        if !samples[i].check() {
            return false;
        }
        if i > 0 && samples[i - 1].distance > samples[i].distance {
            return false;
        }
        i += 1;
    }
    true
}

impl Frame {
    /// The frame is well-formed: its direction is an azimuth in `[0, 360)`
    /// and its greatest distance is more than nothing.
    pub open spec fn wf(&self) -> bool {
        &&& self.direction_normalized()
        &&& self.max_distance > 0
    }

    /// Tells whether the frame is well-formed.
    pub fn check(&self) -> (ok: bool)
        ensures
            ok == self.wf(),
    {
        0 <= self.direction && self.direction < FULL_TURN && self.max_distance > 0
    }
}

impl AllData {
    /// The result fits the request: it has the dimensions of the output, the
    /// frame is well-formed, and so is the list of every pixel.
    pub open spec fn wf(&self) -> bool {
        &&& self.dims_ok()
        &&& self.params.view.frame.wf()
        &&& forall|x: int, y: int|
            0 <= x < self.params.output.width && 0 <= y < self.params.output.height
                ==> samples_wf(#[trigger] self.samples_at(x, y))
    }

    /// Tells whether the result fits the request.
    pub fn validate(&self) -> (ok: bool)
        ensures
            ok == self.wf(),
    {
        if !self.check_dims() || !self.params.view.frame.check() {
            return false;
        }
        let width: usize = self.params.output.width as usize;
        let height: usize = self.params.output.height as usize;
        let mut y: usize = 0;
        while y < height
            invariant
                y <= height,
                width == self.params.output.width,
                height == self.params.output.height,
                self.dims_ok(),
                self.params.view.frame.wf(),
                forall|xx: int, yy: int|
                    0 <= xx < width && 0 <= yy < y ==> samples_wf(
                        #[trigger] self.samples_at(xx, yy),
                    ),
            decreases height - y,
        {
            let row = &self.result[y];
            let mut x: usize = 0;
            while x < width
                invariant
                    x <= width,
                    y < height,
                    width == self.params.output.width,
                    height == self.params.output.height,
                    self.dims_ok(),
                    row == self.result@[y as int],
                    forall|xx: int, yy: int|
                        0 <= xx < width && 0 <= yy < y ==> samples_wf(
                            #[trigger] self.samples_at(xx, yy),
                        ),
                    forall|xx: int|
                        0 <= xx < x ==> samples_wf(#[trigger] self.samples_at(xx, y as int)),
                decreases width - x,
            {
                if !check_samples(&row[x]) {
                    assert(!samples_wf(self.samples_at(x as int, y as int)));
                    return false;
                }
                x += 1;
            }
            y += 1;
        }
        true
    }
}

/// In a well-formed list the sample shown, the first, is a nearest one.
pub proof fn lemma_first_is_nearest(samples: Seq<ResultPixel>, i: int)
    requires
        samples_wf(samples),
        0 <= i < samples.len(),
    ensures
        samples[0].distance <= samples[i].distance,
{
}

} // verus!
