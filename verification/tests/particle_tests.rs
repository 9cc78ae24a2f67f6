use chronoturin::particle::{
    Category, Mode, Particle, SimulationParameters, HALF_BITS, ONE_BITS, SPHERE_RADIUS_BITS,
    ZERO_BITS,
};
use chronoturin::scalar::Scalar;

fn scalar_of(value: f32) -> Scalar {
    Scalar::from_bits(value.to_bits())
}

fn particle_with(category_code: f32, active_flag: f32) -> Particle {
    Particle {
        x: scalar_of(1.0),
        y: scalar_of(2.0),
        z: scalar_of(3.0),
        vx: scalar_of(0.0),
        vy: scalar_of(0.0),
        vz: scalar_of(0.0),
        mass: scalar_of(1.0),
        category_code: scalar_of(category_code),
        accumulated_delay: scalar_of(0.0),
        active_flag: scalar_of(active_flag),
    }
}

#[test]
fn reference_patterns_hold_their_values() {
    assert_eq!(ZERO_BITS, 0.0f32.to_bits());
    assert_eq!(HALF_BITS, 0.5f32.to_bits());
    assert_eq!(ONE_BITS, 1.0f32.to_bits());
    assert_eq!(SPHERE_RADIUS_BITS, 300.0f32.to_bits());
}

#[test]
fn initial_particle_is_at_rest() {
    let p = Particle::initial(scalar_of(12.5), scalar_of(-7.0), scalar_of(299.0), Category::B);
    assert_eq!(f32::from_bits(p.x.bits), 12.5);
    assert_eq!(f32::from_bits(p.y.bits), -7.0);
    assert_eq!(f32::from_bits(p.z.bits), 299.0);
    assert_eq!(f32::from_bits(p.vx.bits), 0.0);
    assert_eq!(f32::from_bits(p.vy.bits), 0.0);
    assert_eq!(f32::from_bits(p.vz.bits), 0.0);
    assert_eq!(f32::from_bits(p.mass.bits), 1.0);
    assert_eq!(f32::from_bits(p.category_code.bits), 1.0);
    assert_eq!(f32::from_bits(p.accumulated_delay.bits), 0.0);
    assert_eq!(f32::from_bits(p.active_flag.bits), 0.0);
    assert_eq!(p.category(), Category::B);
    assert!(!p.is_active());
}

#[test]
fn initial_particle_keeps_its_category() {
    let a = Particle::initial(scalar_of(0.0), scalar_of(0.0), scalar_of(0.0), Category::A);
    let b = Particle::initial(scalar_of(0.0), scalar_of(0.0), scalar_of(0.0), Category::B);
    assert_eq!(a.category(), Category::A);
    assert_eq!(b.category(), Category::B);
    assert_eq!(f32::from_bits(a.category_code.bits), 0.0);
}

#[test]
fn category_splits_at_one_half() {
    assert_eq!(particle_with(0.0, 0.0).category(), Category::A);
    assert_eq!(particle_with(0.49, 0.0).category(), Category::A);
    assert_eq!(particle_with(-3.0, 0.0).category(), Category::A);
    assert_eq!(particle_with(0.5, 0.0).category(), Category::B);
    assert_eq!(particle_with(1.0, 0.0).category(), Category::B);
    assert_eq!(particle_with(f32::NAN, 0.0).category(), Category::B);
}

#[test]
fn activity_needs_more_than_one_half() {
    assert!(!particle_with(0.0, 0.0).is_active());
    assert!(!particle_with(0.0, 0.5).is_active());
    assert!(particle_with(0.0, 0.500_000_1).is_active());
    assert!(particle_with(0.0, 1.0).is_active());
    assert!(!particle_with(0.0, -1.0).is_active());
    assert!(!particle_with(0.0, f32::NAN).is_active());
}

#[test]
fn category_codes() {
    assert_eq!(f32::from_bits(Category::A.to_code().bits), 0.0);
    assert_eq!(f32::from_bits(Category::B.to_code().bits), 1.0);
}

#[test]
fn coin_picks_the_category() {
    assert_eq!(Category::from_coin(true), Category::A);
    assert_eq!(Category::from_coin(false), Category::B);
}

#[test]
fn mode_codes() {
    assert_eq!(f32::from_bits(Mode::Baseline.to_code().bits), 0.0);
    assert_eq!(f32::from_bits(Mode::Dilated.to_code().bits), 1.0);
}

#[test]
fn parameters_of_a_new_pass() {
    let baseline = SimulationParameters::new(Mode::Baseline);
    assert_eq!(f32::from_bits(baseline.time_seed.bits), 0.0);
    assert_eq!(f32::from_bits(baseline.mode_code.bits), 0.0);
    let dilated = SimulationParameters::new(Mode::Dilated);
    assert_eq!(f32::from_bits(dilated.time_seed.bits), 0.0);
    assert_eq!(f32::from_bits(dilated.mode_code.bits), 1.0);
}
