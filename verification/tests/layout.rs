use qlafoutea::c6::C6Coeff;
use qlafoutea::device::Device;
use qlafoutea::layout::{simplex_shape, AttemptOutcome, Quality, SeedStream, QUALITY_SCALE};
use qlafoutea::qubo::Error;

#[test]
fn quality_scale_and_comparison() {
    let low = Quality::new(200_000);
    let high = Quality::new(950_000);
    assert_eq!(low.ppm(), 200_000);
    assert!(high.at_least(&low));
    assert!(!low.at_least(&high));
    assert!(low.at_least(&low));
    assert_eq!(Quality::worst().ppm(), 0);
    assert_eq!(Quality::best().ppm(), QUALITY_SCALE);
}

#[test]
fn simplex_needs_one_more_point_than_dimensions() {
    assert_eq!(simplex_shape(7), (14, 15));
    assert_eq!(simplex_shape(0), (0, 1));
}

#[test]
fn seeds_come_in_order() {
    let mut stream = SeedStream::new(42);
    assert_eq!(stream.next_seed(), Ok(42));
    assert_eq!(stream.next_seed(), Ok(43));
    assert_eq!(stream.next_seed(), Ok(44));
}

#[test]
fn seeds_wrap_around() {
    let mut stream = SeedStream::new(u64::MAX);
    assert_eq!(stream.next_seed(), Ok(u64::MAX));
    assert_eq!(stream.next_seed(), Ok(0));
    assert_eq!(stream.next_seed(), Ok(1));
}

#[test]
fn race_stops_only_on_acceptance() {
    assert!(!SeedStream::continues_after(AttemptOutcome::Accepted));
    assert!(SeedStream::continues_after(AttemptOutcome::InsufficientQuality));
    assert!(SeedStream::continues_after(AttemptOutcome::Failed));
}

#[test]
fn c6_covers_the_supported_levels() {
    assert!(C6Coeff::new(49).is_none());
    assert!(C6Coeff::new(101).is_none());
    assert_eq!(C6Coeff::new(50).unwrap().value_hundredths(), 9_612_072);
    assert_eq!(C6Coeff::new(60).unwrap().value_hundredths(), 86_572_302);
    assert_eq!(C6Coeff::new(100).unwrap().value_hundredths(), 35_293_111_911);
}

#[test]
fn analog_device_capabilities() {
    let device = Device::analog();
    assert_eq!(device.rydberg_level(), 60);
    assert_eq!(device.max_sq_distance_to_center(), 35 * 35);
    assert_eq!(device.min_atom_distance(), 5);
    assert_eq!(device.interaction_coeff().value_hundredths(), 86_572_302);
}

#[test]
fn devices_need_a_supported_level() {
    assert!(Device::try_new(10, 35, 5).is_none());
    let device = Device::try_new(70, 40, 4).unwrap();
    assert_eq!(device.max_sq_distance_to_center(), 1600);
    assert_eq!(device.interaction_coeff().value_hundredths(), 542_015_853);
}

#[test]
fn a_fresh_stream_is_not_exhausted() {
    let mut stream = SeedStream::new(7);
    for _ in 0..100 {
        assert!(stream.next_seed() != Err(Error::NoSolution));
    }
}
