//! Names, labels and the fixed-point arithmetic helpers.

use concept_fluid::concept::Concept;
use concept_fluid::fixed::{fadd, fdiv, fmul, fsqrt, fsub, MAG, SCALE};
use concept_fluid::ore::OreType;
use concept_fluid::text::joined_counted;

#[test]
fn counters_render_in_decimal() {
    assert_eq!(joined_counted("bubble", "_", 0), "bubble_0");
    assert_eq!(joined_counted("bubble", "_", 7), "bubble_7");
    assert_eq!(joined_counted("grief", "_ore_", 12), "grief_ore_12");
    assert_eq!(joined_counted("x", "_", 305), "x_305");
}

#[test]
fn ore_type_labels() {
    assert_eq!(OreType::Art.as_str(), "art");
    assert_eq!(OreType::Code.as_str(), "code");
    assert_eq!(OreType::Insight.as_str(), "insight");
    assert_eq!(OreType::Writing.as_str(), "writing");
}

#[test]
fn concept_status_words() {
    let mut c = Concept::new(1, String::from("idea"), 500_000, 500_000);
    assert_eq!(c.status(), "floating");
    c.velocity = 50_000;
    assert_eq!(c.status(), "sinking");
    c.velocity = -50_000;
    assert_eq!(c.status(), "rising");
    c.is_frozen = true;
    assert_eq!(c.status(), "frozen");
    c.is_frozen = false;
    c.has_evaporated = true;
    assert_eq!(c.status(), "evaporated");
}

#[test]
fn fixed_point_arithmetic_is_scaled_and_saturating() {
    // 0.5 * 0.5 = 0.25, exactly on the millionth grid.
    assert_eq!(fmul(500_000, 500_000), 250_000);
    // 1.0 / 3.0 truncates toward zero.
    assert_eq!(fdiv(SCALE, 3 * SCALE), 333_333);
    assert_eq!(fdiv(-SCALE, 3 * SCALE), -333_333);
    // Addition saturates at the magnitude bound instead of overflowing.
    assert_eq!(fadd(MAG, MAG), MAG);
    assert_eq!(fsub(-MAG, MAG), -MAG);
    // The square root of 4.0 is exactly 2.0.
    assert_eq!(fsqrt(4 * SCALE), 2 * SCALE);
    assert_eq!(fsqrt(0), 0);
}

#[test]
fn volume_is_density_times_area() {
    let c = Concept::new(2, String::from("idea"), 300_000, 800_000);
    assert_eq!(c.volume(), 240_000);
}
