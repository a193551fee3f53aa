use deeper_physics::{KinematicState, Scalar, Vec2};

fn scalar(x: f32) -> Scalar {
    Scalar::from_bits(x.to_bits())
}

#[test]
fn finite_numbers_are_finite() {
    for x in [0.0f32, -0.0, 1.0, -1.5, 3.4028235e38, -3.4028235e38, 1.0e-45, 1.1754944e-38] {
        assert!(x.is_finite());
        assert!(scalar(x).is_finite());
    }
}

#[test]
fn infinities_and_nans_are_not_finite() {
    for x in [f32::INFINITY, f32::NEG_INFINITY, f32::NAN, -f32::NAN] {
        assert!(!x.is_finite());
        assert!(!scalar(x).is_finite());
    }
    assert!(!Scalar::from_bits(0x7f80_0001).is_finite());
    assert!(!Scalar::from_bits(0xffff_ffff).is_finite());
    assert!(Scalar::from_bits(0x7f7f_ffff).is_finite());
    assert!(Scalar::from_bits(0x807f_ffff).is_finite());
}

#[test]
fn is_finite_agrees_with_the_machine_on_every_exponent() {
    let mut exponent: u32 = 0;
    while exponent < 256 {
        for mantissa in [0u32, 1, 0x40_0000, 0x7f_ffff] {
            for sign in [0u32, 0x8000_0000] {
                let bits = sign | (exponent << 23) | mantissa;
                assert_eq!(Scalar::from_bits(bits).is_finite(), f32::from_bits(bits).is_finite());
            }
        }
        exponent += 1;
    }
}

#[test]
fn bits_round_trip() {
    assert_eq!(Scalar::from_bits(0x3f80_0000).to_bits(), 0x3f80_0000);
    assert_eq!(f32::from_bits(scalar(2.5).to_bits()), 2.5);
}

#[test]
fn zero_is_positive_zero() {
    assert_eq!(Scalar::zero().to_bits(), 0);
    assert_eq!(f32::from_bits(Scalar::zero().to_bits()), 0.0);
    assert_eq!(Vec2::zero(), Vec2::new(scalar(0.0), scalar(0.0)));
    assert!(Vec2::zero().is_finite());
}

#[test]
fn vector_is_finite_when_both_coordinates_are() {
    assert!(Vec2::new(scalar(1.0), scalar(2.0)).is_finite());
    assert!(!Vec2::new(scalar(f32::NAN), scalar(2.0)).is_finite());
    assert!(!Vec2::new(scalar(1.0), scalar(f32::INFINITY)).is_finite());
}

#[test]
fn state_is_finite_when_all_its_numbers_are() {
    let good = KinematicState {
        position: Vec2::new(scalar(1.0), scalar(2.0)),
        velocity: Vec2::new(scalar(0.0), scalar(-1.0)),
        orientation: scalar(45.0),
    };
    assert!(good.is_finite());
    assert!(!KinematicState { orientation: scalar(f32::NAN), ..good }.is_finite());
    assert!(!KinematicState { position: Vec2::new(scalar(f32::INFINITY), scalar(0.0)), ..good }
        .is_finite());
    assert!(!KinematicState { velocity: Vec2::new(scalar(0.0), scalar(f32::NAN)), ..good }
        .is_finite());
}
