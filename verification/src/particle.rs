//! The record kept for every simulated body, and the parameters shared by
//! all bodies of one pass.

use vstd::prelude::*;
use vstd::arithmetic::power2::{lemma2_to64, lemma_pow2_adds, lemma_pow2_pos, pow2};
use crate::scalar::{lemma_units_of_pattern, lemma_whole_pattern, lemma_zero_pattern, Scalar};

verus! {

/// Bit pattern of 0.0.
pub const ZERO_BITS: u32 = 0;

/// Bit pattern of 0.5, the threshold that splits the two categories and
/// tells an active particle from an idle one.
pub const HALF_BITS: u32 = 0x3f00_0000;

/// Bit pattern of 1.0.
pub const ONE_BITS: u32 = 0x3f80_0000;

/// Bit pattern of 300.0, the radius of the sphere that initial positions
/// are drawn from.
pub const SPHERE_RADIUS_BITS: u32 = 0x4396_0000;

/// The two kinds of particle. A particle keeps its kind for a whole pass.
#[derive(Clone, Copy, Debug, PartialEq, Eq, Structural)]
pub enum Category {
    A,
    B,
}

/// The dynamics model of a pass.
#[derive(Clone, Copy, Debug, PartialEq, Eq, Structural)]
pub enum Mode {
    Baseline,
    Dilated,
}

/// One simulated body, as a storage buffer holds it.
#[derive(Clone, Copy, Debug, PartialEq, Eq, Structural)]
pub struct Particle {
    pub x: Scalar,
    pub y: Scalar,
    pub z: Scalar,
    pub vx: Scalar,
    pub vy: Scalar,
    pub vz: Scalar,
    pub mass: Scalar,
    pub category_code: Scalar,
    pub accumulated_delay: Scalar,
    pub active_flag: Scalar,
}

/// The record shared by every particle of a pass.
#[derive(Clone, Copy, Debug, PartialEq, Eq, Structural)]
pub struct SimulationParameters {
    pub time_seed: Scalar,
    pub mode_code: Scalar,
}

/// What chance decides for one particle: where it starts, and how its
/// coin fell.
#[derive(Clone, Copy, Debug, PartialEq, Eq, Structural)]
pub struct Draw {
    pub x: Scalar,
    pub y: Scalar,
    pub z: Scalar,
    pub heads: bool,
}

/// The scalar 0.0.
pub open spec fn zero() -> Scalar {
    Scalar { bits: ZERO_BITS }
}

/// The scalar 0.5.
pub open spec fn half() -> Scalar {
    Scalar { bits: HALF_BITS }
}

/// The scalar 1.0.
pub open spec fn one() -> Scalar {
    Scalar { bits: ONE_BITS }
}

impl Category {
    /// The scalar that stands for the category in a record: 0.0 for `A`,
    /// 1.0 for `B`.
    pub open spec fn code(self) -> Scalar {
        match self {
            Category::A => zero(),
            Category::B => one(),
        }
    }

    /// The category a record's code stands for: `A` below one half, `B`
    /// otherwise.
    pub open spec fn of_code(code: Scalar) -> Category {
        if code.lt(half()) {
            Category::A
        } else {
            Category::B
        }
    }

    /// The category for one fair coin toss: `A` on heads, `B` on tails.
    pub fn from_coin(heads: bool) -> (category: Category)
        ensures
            category == if heads {
                Category::A
            } else {
                Category::B
            },
    {
        if heads {
            Category::A
        } else {
            Category::B
        }
    }

    /// The scalar that stands for the category in a record.
    pub fn to_code(self) -> (code: Scalar)
        ensures
            code == self.code(),
    {
        match self {
            Category::A => Scalar { bits: ZERO_BITS },
            Category::B => Scalar { bits: ONE_BITS },
        }
    }
}

impl Mode {
    /// The scalar that stands for the mode in the parameter record: 0.0 for
    /// `Baseline`, 1.0 for `Dilated`.
    pub open spec fn code(self) -> Scalar {
        match self {
            Mode::Baseline => zero(),
            Mode::Dilated => one(),
        }
    }

    /// The scalar that stands for the mode in the parameter record.
    pub fn to_code(self) -> (code: Scalar)
        ensures
            code == self.code(),
    {
        match self {
            Mode::Baseline => Scalar { bits: ZERO_BITS },
            Mode::Dilated => Scalar { bits: ONE_BITS },
        }
    }
}

impl SimulationParameters {
    /// The parameters a pass starts with: time seed zero and the code of its
    /// mode.
    pub fn new(mode: Mode) -> (parameters: SimulationParameters)
        ensures
            parameters.time_seed == zero(),
            parameters.mode_code == mode.code(),
    {
        SimulationParameters { time_seed: Scalar { bits: ZERO_BITS }, mode_code: mode.to_code() }
    }
}

impl Particle {
    /// The particle a draw gives: at rest at the drawn position, with mass
    /// one, no accumulated delay, not active, of category `A` on heads and
    /// `B` on tails.
    pub open spec fn seeded(draw: Draw) -> Particle {
        Particle {
            x: draw.x,
            y: draw.y,
            z: draw.z,
            vx: zero(),
            vy: zero(),
            vz: zero(),
            mass: one(),
            category_code: if draw.heads {
                zero()
            } else {
                one()
            },
            accumulated_delay: zero(),
            active_flag: zero(),
        }
    }

    /// The particle's category.
    pub open spec fn kind(self) -> Category {
        Category::of_code(self.category_code)
    }

    /// The particle was updated during the most recent step: its flag is
    /// above one half.
    pub open spec fn active(self) -> bool {
        half().lt(self.active_flag)
    }

    /// A particle at rest at the given position: zero velocity, mass one, no
    /// accumulated delay, not active.
    pub fn initial(x: Scalar, y: Scalar, z: Scalar, category: Category) -> (p: Particle)
        ensures
            p == Particle::seeded(Draw { x, y, z, heads: category == Category::A }),
            p.x == x && p.y == y && p.z == z,
            p.vx == zero() && p.vy == zero() && p.vz == zero(),
            p.mass == one(),
            p.category_code == category.code(),
            p.accumulated_delay == zero(),
            p.active_flag == zero(),
            p.kind() == category,
            !p.active(),
    {
        proof {
            lemma_reference_values();
        }
        let rest = Scalar { bits: ZERO_BITS };
        Particle {
            x,
            y,
            z,
            vx: rest,
            vy: rest,
            vz: rest,
            mass: Scalar { bits: ONE_BITS },
            category_code: category.to_code(),
            accumulated_delay: rest,
            active_flag: rest,
        }
    }

    /// The particle's category.
    pub fn category(&self) -> (category: Category)
        ensures
            category == self.kind(),
    {
        if self.category_code.less_than(Scalar { bits: HALF_BITS }) {
            Category::A
        } else {
            Category::B
        }
    }

    /// Whether the particle was updated during the most recent step.
    pub fn is_active(&self) -> (active: bool)
        ensures
            active == self.active(),
    {
        Scalar { bits: HALF_BITS }.less_than(self.active_flag)
    }
}

/// The reference scalars hold the values they are named after.
pub proof fn lemma_reference_values()
    ensures
        zero().is_whole(0),
        one().is_whole(1),
        half().is_half(),
        (Scalar { bits: SPHERE_RADIUS_BITS }).is_whole(300),
        zero().lt(half()),
        half().lt(one()),
{
    lemma2_to64();
    lemma_zero_pattern();
    lemma_whole_pattern(one(), 1, 23);
    lemma_whole_pattern(Scalar { bits: SPHERE_RADIUS_BITS }, 300, 15);
    lemma_units_of_pattern(half(), 126, 0);
    assert(pow2(149) == pow2(24) * pow2(125)) by {
        lemma_pow2_adds(24, 125);
    }
    assert(2 * (0x80_0000 * pow2(125)) == pow2(24) * pow2(125)) by (nonlinear_arith)
        requires
            pow2(24) == 2 * 0x80_0000,
    ;
    assert(1 * pow2(149) == pow2(149)) by (nonlinear_arith);
    lemma_pow2_pos(149);
}

/// A category survives the trip through its code.
pub proof fn lemma_category_code_round_trip(category: Category)
    ensures
        Category::of_code(category.code()) == category,
{
    lemma_reference_values();
}

} // verus!
