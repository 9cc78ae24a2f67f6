//! The projector: from the projected particles of one snapshot to the
//! pixels of one frame.
//!
//! Perspective division is floating-point arithmetic and is done by the
//! caller with the camera constants given here. Everything decided on its
//! results is decided in this module: which particles the near plane culls,
//! which fall on the screen, which pixel each one hits and what colour it
//! leaves there.

use vstd::prelude::*;
use vstd::arithmetic::power2::{lemma2_to64, lemma_pow2_pos, pow2};
use vstd::seq_lib::{to_multiset_contains, to_multiset_len, to_multiset_remove};
use crate::frame::{Color, Frame, HEIGHT, WIDTH};
use crate::particle::{lemma_reference_values, zero, Category, Mode, Particle, ZERO_BITS};
use crate::scalar::{
    lemma_negated_pattern,
    lemma_truncation_in_range,
    lemma_truncation_of_whole,
    lemma_whole_pattern,
    whole,
    Scalar,
};

verus! {

/// Bit pattern of -1000.0, the camera's position on the z axis.
pub const CAMERA_Z_BITS: u32 = 0xc47a_0000;

/// Bit pattern of 800.0, the field-of-view factor.
pub const FOV_BITS: u32 = 0x4448_0000;

/// Bit pattern of 512.0, the screen centre on both axes.
pub const CENTRE_BITS: u32 = 0x4400_0000;

/// Bit pattern of 10.0, the near plane: a particle is drawn only if its
/// depth is greater.
pub const NEAR_PLANE_BITS: u32 = 0x4120_0000;

/// Bit pattern of 1024.0, the first screen coordinate past the frame.
pub const SCREEN_LIMIT_BITS: u32 = 0x4480_0000;

/// Red left by a particle of category `A`.
pub const CATEGORY_A_RED: u8 = 200;

/// Blue left by a particle of category `B`.
pub const CATEGORY_B_BLUE: u8 = 255;

/// Green left by an active particle.
pub const ACTIVE_GREEN: u8 = 150;

/// Red an active particle leaves on top in a dilated pass.
pub const DILATED_ACTIVE_RED: u8 = 50;

/// The scalar 10.0.
pub open spec fn near_plane() -> Scalar {
    Scalar { bits: NEAR_PLANE_BITS }
}

/// The scalar 1024.0.
pub open spec fn screen_limit() -> Scalar {
    Scalar { bits: SCREEN_LIMIT_BITS }
}

/// Where perspective projection puts a particle: its depth before the
/// camera, `z - camera_z`, and its screen coordinates,
/// `x * (fov / depth) + centre` and `y * (fov / depth) + centre`.
#[derive(Clone, Copy, Debug, PartialEq, Eq, Structural)]
pub struct Projection {
    pub depth: Scalar,
    pub screen_x: Scalar,
    pub screen_y: Scalar,
}

/// What the rasterizer reads of one particle.
#[derive(Clone, Copy, Debug, PartialEq, Eq, Structural)]
pub struct Sample {
    pub projection: Projection,
    pub category: Category,
    pub active: bool,
}

impl Projection {
    /// The particle lies beyond the near plane: its depth is greater than 10.
    pub open spec fn visible(self) -> bool {
        near_plane().lt(self.depth)
    }

    /// Both screen coordinates lie in `[0, 1024)`.
    pub open spec fn on_screen(self) -> bool {
        &&& zero().le(self.screen_x)
        &&& self.screen_x.lt(screen_limit())
        &&& zero().le(self.screen_y)
        &&& self.screen_y.lt(screen_limit())
    }

    /// The pixel the particle is drawn to: its screen coordinates with the
    /// fractions dropped, if it is visible and on the screen.
    pub open spec fn target(self) -> Option<(int, int)> {
        if self.visible() && self.on_screen() {
            Some((self.screen_x.truncated() as int, self.screen_y.truncated() as int))
        } else {
            None
        }
    }

    /// The projection with the given depth and screen coordinates.
    pub fn new(depth: Scalar, screen_x: Scalar, screen_y: Scalar) -> (p: Projection)
        ensures
            p == (Projection { depth, screen_x, screen_y }),
    {
        Projection { depth, screen_x, screen_y }
    }

    /// The pixel the particle is drawn to, or `None` if the near plane culls
    /// it or it falls outside the frame.
    pub fn pixel(&self) -> (p: Option<(u32, u32)>)
        ensures
            match p {
                Some((x, y)) => self.target() == Some((x as int, y as int)) && x < WIDTH && y
                    < HEIGHT,
                None => self.target().is_none(),
            },
    {
        let origin = Scalar { bits: ZERO_BITS };
        let limit = Scalar { bits: SCREEN_LIMIT_BITS };
        if !(Scalar { bits: NEAR_PLANE_BITS }).less_than(self.depth) {
            return None;
        }
        if origin.at_most(self.screen_x) && self.screen_x.less_than(limit) && origin.at_most(
            self.screen_y,
        ) && self.screen_y.less_than(limit) {
            proof {
                lemma_camera_values();
                lemma_reference_values();
                lemma_truncation_in_range(self.screen_x, origin, limit, 1024);
                lemma_truncation_in_range(self.screen_y, origin, limit, 1024);
            }
            Some((self.screen_x.truncate(), self.screen_y.truncate()))
        } else {
            None
        }
    }
}

/// The colour one particle leaves on the pixel it hits.
pub open spec fn contribution(category: Category, active: bool, mode: Mode) -> Color {
    Color {
        red: if category == Category::A {
            if active && mode == Mode::Dilated {
                (CATEGORY_A_RED + DILATED_ACTIVE_RED) as u8
            } else {
                CATEGORY_A_RED
            }
        } else {
            if active && mode == Mode::Dilated {
                DILATED_ACTIVE_RED
            } else {
                0
            }
        },
        green: if active {
            ACTIVE_GREEN
        } else {
            0
        },
        blue: if category == Category::B {
            CATEGORY_B_BLUE
        } else {
            0
        },
    }
}

impl Sample {
    /// The colour the sample leaves on the pixel it hits.
    pub open spec fn tint(self, mode: Mode) -> Color {
        contribution(self.category, self.active, mode)
    }

    /// The colour the sample leaves on the pixel it hits.
    pub fn contribution(&self, mode: Mode) -> (color: Color)
        ensures
            color == self.tint(mode),
    {
        let bonus: u8 = match mode {
            Mode::Dilated => if self.active {
                DILATED_ACTIVE_RED
            } else {
                0
            },
            Mode::Baseline => 0,
        };
        let (base_red, blue): (u8, u8) = match self.category {
            Category::A => (CATEGORY_A_RED, 0),
            Category::B => (0, CATEGORY_B_BLUE),
        };
        let green: u8 = if self.active {
            ACTIVE_GREEN
        } else {
            0
        };
        Color { red: base_red + bonus, green, blue }
    }
}

impl Particle {
    /// What the rasterizer reads of this particle, given where projection
    /// puts it.
    pub fn sample(&self, projection: Projection) -> (s: Sample)
        ensures
            s.projection == projection,
            s.category == self.kind(),
            s.active == self.active(),
    {
        Sample { projection, category: self.category(), active: self.is_active() }
    }
}

/// Light gathered on one pixel, channel by channel, before it is held at the
/// largest channel value.
pub struct Exposure {
    pub red: int,
    pub green: int,
    pub blue: int,
}

/// A channel total as a pixel shows it: held at 255.
pub open spec fn shown(total: int) -> u8 {
    if total > 255 {
        255u8
    } else {
        total as u8
    }
}

impl Exposure {
    /// No light.
    pub open spec fn dark() -> Exposure {
        Exposure { red: 0, green: 0, blue: 0 }
    }

    /// This exposure and one more contribution.
    pub open spec fn plus(self, color: Color) -> Exposure {
        Exposure {
            red: self.red + color.red,
            green: self.green + color.green,
            blue: self.blue + color.blue,
        }
    }

    /// The colour the pixel shows.
    pub open spec fn color(self) -> Color {
        Color { red: shown(self.red), green: shown(self.green), blue: shown(self.blue) }
    }

    /// No channel is below zero.
    pub open spec fn natural(self) -> bool {
        self.red >= 0 && self.green >= 0 && self.blue >= 0
    }
}

/// The light that `samples` leave on the pixel `(x, y)` in a pass of the
/// given mode: the contributions of the samples that hit it, added up.
pub open spec fn exposure(samples: Seq<Sample>, mode: Mode, x: int, y: int) -> Exposure
    decreases samples.len(),
{
    if samples.len() == 0 {
        Exposure::dark()
    } else {
        let before = exposure(samples.drop_last(), mode, x, y);
        if samples.last().projection.target() == Some((x, y)) {
            before.plus(samples.last().tint(mode))
        } else {
            before
        }
    }
}

/// Renders one snapshot: every sample that is visible and on the screen
/// adds its colour to the pixel it hits, and each channel saturates at 255.
pub fn render(samples: &Vec<Sample>, mode: Mode) -> (frame: Frame)
    ensures
        forall|x: int, y: int|
            0 <= x < WIDTH && 0 <= y < HEIGHT ==> #[trigger] frame.at(x, y) == exposure(
                samples@,
                mode,
                x,
                y,
            ).color(),
{
    let mut frame = Frame::new();
    let mut i: usize = 0;
    while i < samples.len()
        invariant
            i <= samples.len(),
            forall|x: int, y: int|
                0 <= x < WIDTH && 0 <= y < HEIGHT ==> #[trigger] frame.at(x, y) == exposure(
                    samples@.take(i as int),
                    mode,
                    x,
                    y,
                ).color(),
        decreases samples.len() - i,
    {
        let sample = samples[i];
        proof {
            assert(samples@.take(i + 1).drop_last() == samples@.take(i as int));
        }
        match sample.projection.pixel() {
            Some((px, py)) => {
                proof {
                    lemma_exposure_natural(samples@.take(i as int), mode, px as int, py as int);
                }
                frame.deposit(px, py, sample.contribution(mode));
            },
            None => {},
        }
        i += 1;
    }
    proof {
        assert(samples@.take(samples.len() as int) == samples@);
    }
    frame
}

/// A particle whose depth is 10 or less, or no number at all, has no target
/// pixel, wherever its screen coordinates lie.
pub proof fn lemma_near_plane_culls(projection: Projection)
    requires
        projection.depth.nan() || projection.depth.units() <= whole(10),
    ensures
        !projection.visible(),
        projection.target().is_none(),
{
    lemma_camera_values();
}

/// A visible particle whose screen coordinates are the whole numbers
/// `column` and `row`, both inside the frame, is drawn to the pixel
/// `(column, row)`.
pub proof fn lemma_whole_coordinates_hit_their_pixel(projection: Projection, column: int, row: int)
    requires
        projection.visible(),
        projection.screen_x.is_whole(column),
        projection.screen_y.is_whole(row),
        0 <= column < WIDTH,
        0 <= row < HEIGHT,
    ensures
        projection.target() == Some((column, row)),
{
    lemma_camera_values();
    lemma_reference_values();
    lemma_truncation_of_whole(projection.screen_x, column);
    lemma_truncation_of_whole(projection.screen_y, row);
    lemma_pow2_pos(149);
    let unit = pow2(149) as int;
    assert(0 * unit <= column * unit < 1024 * unit && 0 * unit <= row * unit < 1024 * unit)
        by (nonlinear_arith)
        requires
            unit > 0,
            0 <= column < 1024,
            0 <= row < 1024,
    ;
}

/// Taking one sample out of a snapshot takes its colour off the pixel it
/// hits and changes no other pixel.
pub proof fn lemma_exposure_without(samples: Seq<Sample>, i: int, mode: Mode, x: int, y: int)
    requires
        0 <= i < samples.len(),
    ensures
        exposure(samples, mode, x, y) == if samples[i].projection.target() == Some((x, y)) {
            exposure(samples.remove(i), mode, x, y).plus(samples[i].tint(mode))
        } else {
            exposure(samples.remove(i), mode, x, y)
        },
    decreases samples.len(),
{
    if i == samples.len() - 1 {
        assert(samples.remove(i) == samples.drop_last());
    } else {
        assert(samples.remove(i).drop_last() == samples.drop_last().remove(i));
        assert(samples.remove(i).last() == samples.last());
        lemma_exposure_without(samples.drop_last(), i, mode, x, y);
    }
}

/// Draw order does not matter: two snapshots that hold the same samples,
/// in whatever order, expose every pixel alike.
pub proof fn lemma_draw_order_is_irrelevant(
    first: Seq<Sample>,
    second: Seq<Sample>,
    mode: Mode,
    x: int,
    y: int,
)
    requires
        first.to_multiset() == second.to_multiset(),
    ensures
        exposure(first, mode, x, y) == exposure(second, mode, x, y),
    decreases first.len(),
{
    to_multiset_len(first);
    to_multiset_len(second);
    if first.len() > 0 {
        let last = first.last();
        let end = first.len() - 1;
        to_multiset_contains(first, last);
        to_multiset_contains(second, last);
        assert(first.contains(last)) by {
            assert(first[end] == last);
        }
        let j = choose|j: int| 0 <= j < second.len() && second[j] == last;
        to_multiset_remove(first, end);
        to_multiset_remove(second, j);
        assert(first.remove(end) == first.drop_last());
        lemma_draw_order_is_irrelevant(first.drop_last(), second.remove(j), mode, x, y);
        lemma_exposure_without(second, j, mode, x, y);
    }
}

/// A sample without a target pixel leaves no light anywhere: the exposure
/// of every pixel is what it would be without that sample.
pub proof fn lemma_untargeted_sample_leaves_no_light(
    samples: Seq<Sample>,
    i: int,
    mode: Mode,
    x: int,
    y: int,
)
    requires
        0 <= i < samples.len(),
        samples[i].projection.target().is_none(),
    ensures
        exposure(samples, mode, x, y) == exposure(samples.remove(i), mode, x, y),
{
    lemma_exposure_without(samples, i, mode, x, y);
}

/// Near-plane culling: a particle whose depth is 10 or less contributes to
/// no pixel.
pub proof fn lemma_culled_particle_leaves_no_light(
    samples: Seq<Sample>,
    i: int,
    mode: Mode,
    x: int,
    y: int,
)
    requires
        0 <= i < samples.len(),
        samples[i].projection.depth.nan() || samples[i].projection.depth.units() <= whole(10),
    ensures
        exposure(samples, mode, x, y) == exposure(samples.remove(i), mode, x, y),
{
    lemma_near_plane_culls(samples[i].projection);
    lemma_untargeted_sample_leaves_no_light(samples, i, mode, x, y);
}

/// What tells the two modes apart: an active particle leaves 150 green in
/// either mode and 50 more red in a dilated pass than in a baseline pass;
/// an idle particle leaves the same colour in both; and in a baseline pass
/// activity never changes the red a particle leaves.
pub proof fn lemma_mode_distinction(category: Category)
    ensures
        contribution(category, true, Mode::Dilated).red == contribution(
            category,
            true,
            Mode::Baseline,
        ).red + DILATED_ACTIVE_RED,
        contribution(category, true, Mode::Dilated).green == ACTIVE_GREEN,
        contribution(category, true, Mode::Baseline).green == ACTIVE_GREEN,
        contribution(category, true, Mode::Dilated).blue == contribution(
            category,
            true,
            Mode::Baseline,
        ).blue,
        contribution(category, false, Mode::Dilated) == contribution(
            category,
            false,
            Mode::Baseline,
        ),
        contribution(category, true, Mode::Baseline).red == contribution(
            category,
            false,
            Mode::Baseline,
        ).red,
{
}

/// Saturation: however many samples hit a pixel, each channel it shows is
/// the channel's exposure held at 255, and one more sample never lowers it.
pub proof fn lemma_channels_saturate(samples: Seq<Sample>, extra: Sample, mode: Mode, x: int, y: int)
    ensures
        ({
            let before = exposure(samples, mode, x, y);
            let after = exposure(samples.push(extra), mode, x, y);
            &&& before.color().red == if before.red > 255 { 255 } else { before.red }
            &&& before.color().green == if before.green > 255 { 255 } else { before.green }
            &&& before.color().blue == if before.blue > 255 { 255 } else { before.blue }
            &&& before.color().red <= after.color().red
            &&& before.color().green <= after.color().green
            &&& before.color().blue <= after.color().blue
        }),
{
    lemma_exposure_natural(samples, mode, x, y);
    assert(samples.push(extra).drop_last() == samples);
    assert(samples.push(extra).last() == extra);
}

/// Exposure never falls below zero.
pub proof fn lemma_exposure_natural(samples: Seq<Sample>, mode: Mode, x: int, y: int)
    ensures
        exposure(samples, mode, x, y).natural(),
    decreases samples.len(),
{
    if samples.len() > 0 {
        lemma_exposure_natural(samples.drop_last(), mode, x, y);
    }
}

/// The camera constants hold the values they are named after.
pub proof fn lemma_camera_values()
    ensures
        near_plane().is_whole(10),
        screen_limit().is_whole(1024),
        (Scalar { bits: CENTRE_BITS }).is_whole(512),
        (Scalar { bits: FOV_BITS }).is_whole(800),
        (Scalar { bits: CAMERA_Z_BITS }).is_whole(-1000),
{
    lemma2_to64();
    lemma_whole_pattern(near_plane(), 10, 20);
    lemma_whole_pattern(screen_limit(), 1024, 13);
    lemma_whole_pattern(Scalar { bits: CENTRE_BITS }, 512, 14);
    lemma_whole_pattern(Scalar { bits: FOV_BITS }, 800, 14);
    let behind = Scalar { bits: 0x447a_0000 };
    lemma_whole_pattern(behind, 1000, 14);
    lemma_negated_pattern(Scalar { bits: CAMERA_Z_BITS }, behind);
    assert(whole(-1000) == -whole(1000)) by (nonlinear_arith);
}

} // verus!
