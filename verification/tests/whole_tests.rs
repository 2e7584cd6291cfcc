use rotation_curves::chart::{
    ProfileKind, DENSITY_BOUND, MASS_BAR_BOUND, MASS_BOUND, PROFILE_HALVINGS, PROFILE_SAMPLES,
    VELOCITY_BOUND, VELOCITY_HALVINGS, VELOCITY_SAMPLES,
};
use rotation_curves::whole::{from_scaled, from_whole, HIDDEN_BIT, MAX_HALVINGS};

#[test]
fn whole_numbers_have_the_native_pattern() {
    for n in 0u32..5000 {
        assert_eq!(from_whole(n), (n as f64).to_bits(), "{}", n);
    }
    for &n in [65535u32, 65536, 16777215, 16777216, 16777217, u32::MAX - 1, u32::MAX].iter() {
        assert_eq!(from_whole(n), (n as f64).to_bits(), "{}", n);
    }
}

#[test]
fn zero_is_the_zero_pattern() {
    assert_eq!(from_whole(0), 0);
    assert_eq!(from_scaled(0, 2), 0);
    assert_eq!(from_scaled(0, MAX_HALVINGS), 0);
}

#[test]
fn one_has_the_bias_as_exponent() {
    assert_eq!(from_whole(1), 1023 * HIDDEN_BIT);
    assert_eq!(from_whole(1), 1.0f64.to_bits());
}

#[test]
fn quarters_have_the_native_pattern() {
    for i in 0u32..1000 {
        assert_eq!(from_scaled(i, 2), (i as f64 * 0.25).to_bits(), "{}", i);
    }
    assert_eq!(from_scaled(1, 2), 0.25f64.to_bits());
    assert_eq!(from_scaled(181, 2), 45.25f64.to_bits());
}

#[test]
fn halvings_divide_by_powers_of_two() {
    for halvings in 0u32..=MAX_HALVINGS {
        let expected = 3.0f64 * 2.0f64.powi(-(halvings as i32));
        assert_eq!(from_scaled(3, halvings), expected.to_bits(), "{}", halvings);
    }
    assert_eq!(from_scaled(1, MAX_HALVINGS), f64::MIN_POSITIVE.to_bits());
}

#[test]
fn density_and_mass_are_sampled_in_quarters() {
    assert_eq!(PROFILE_SAMPLES, 182);
    assert_eq!(PROFILE_HALVINGS, 2);
    assert_eq!(from_scaled(1, PROFILE_HALVINGS), 0.25f64.to_bits());
    for kind in [ProfileKind::Density, ProfileKind::Mass] {
        assert_eq!(kind.samples(), 182);
        assert_eq!(kind.halvings(), 2);
    }
}

#[test]
fn velocity_is_sampled_in_whole_steps() {
    assert_eq!(VELOCITY_SAMPLES, 45);
    assert_eq!(VELOCITY_HALVINGS, 0);
    assert_eq!(from_scaled(1, VELOCITY_HALVINGS), 1.0f64.to_bits());
    assert_eq!(ProfileKind::Velocity.samples(), 45);
    assert_eq!(ProfileKind::Velocity.halvings(), 0);
}

#[test]
fn bounds_are_the_numbers_they_name() {
    assert_eq!(DENSITY_BOUND, 4.0f64.to_bits());
    assert_eq!(MASS_BOUND, 30.0f64.to_bits());
    assert_eq!(MASS_BAR_BOUND, 100.0f64.to_bits());
    assert_eq!(VELOCITY_BOUND, 300.0f64.to_bits());
    assert_eq!(from_whole(4), DENSITY_BOUND);
    assert_eq!(from_whole(30), MASS_BOUND);
    assert_eq!(from_whole(100), MASS_BAR_BOUND);
    assert_eq!(from_whole(300), VELOCITY_BOUND);
}

#[test]
fn each_kind_has_its_bound() {
    assert_eq!(ProfileKind::Density.bound(), 4.0f64.to_bits());
    assert_eq!(ProfileKind::Mass.bound(), 30.0f64.to_bits());
    assert_eq!(ProfileKind::Velocity.bound(), 300.0f64.to_bits());
}

#[test]
fn kinds_stand_in_selector_order() {
    assert_eq!(ProfileKind::from_index(0), Some(ProfileKind::Velocity));
    assert_eq!(ProfileKind::from_index(1), Some(ProfileKind::Mass));
    assert_eq!(ProfileKind::from_index(2), Some(ProfileKind::Density));
    assert_eq!(ProfileKind::from_index(3), None);
    assert_eq!(ProfileKind::from_index(usize::MAX), None);
    for kind in [ProfileKind::Velocity, ProfileKind::Mass, ProfileKind::Density] {
        assert_eq!(ProfileKind::from_index(kind.index()), Some(kind));
    }
}
