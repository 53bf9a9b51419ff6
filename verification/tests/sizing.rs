//! Trace sizing utilities and the raw interaction builder.

use sp1_core::builder::InteractionBuilder;
use sp1_core::util::log2_ceil_usize;
use sp1_core::util::padded_height;

#[test]
fn padded_height_is_the_next_power_of_two_with_floor_four() {
    assert_eq!(padded_height(0), 4);
    assert_eq!(padded_height(1), 4);
    assert_eq!(padded_height(4), 4);
    assert_eq!(padded_height(5), 8);
    assert_eq!(padded_height(48), 64);
    assert_eq!(padded_height(64), 64);
    assert_eq!(padded_height(65), 128);
}

#[test]
fn log2_ceil_values() {
    assert_eq!(log2_ceil_usize(0), 0);
    assert_eq!(log2_ceil_usize(1), 0);
    assert_eq!(log2_ceil_usize(2), 1);
    assert_eq!(log2_ceil_usize(3), 2);
    assert_eq!(log2_ceil_usize(1024), 10);
}

#[test]
fn interaction_builder_starts_empty_and_reports_the_width() {
    let builder = InteractionBuilder::new(17);
    assert_eq!(builder.main_width(), 17);
    let (sends, receives) = builder.interactions();
    assert!(sends.is_empty());
    assert!(receives.is_empty());
}
