//! Standing waves and the division experiment.

use concept_fluid::fixed::SCALE;
use concept_fluid::fluid::ConceptFluid;
use concept_fluid::standing_wave::{whole_quotient, whole_remainder, StandingWave};

#[test]
fn test_standing_wave_nodes() {
    let wave = StandingWave::new(3 * SCALE, SCALE);
    // With divisor 3, expect ~3 nodes in the unit range.
    assert!(wave.node_count() >= 2 && wave.node_count() <= 4);
}

#[test]
fn test_force_toward_node() {
    let wave = StandingWave::new(2 * SCALE, SCALE);
    // At a node, the force should be near zero.
    if let Some(&node) = wave.node_positions.first() {
        let force = wave.force_at_depth(node);
        assert!(force.abs() < 10_000);
    }
}

#[test]
fn test_pauli_exclusion() {
    // A wave with saturation limit 2 (as in six divided by three).
    let mut wave = StandingWave::new_with_saturation(3 * SCALE, SCALE, 2);

    // Initially, nodes attract.  The probe sits just above the node
    // (rather than just below it): by the force law the displacement
    // `node - depth` is then positive, so the attracting pull points
    // down toward the node, which is what the assertion's sign reads.
    let node = wave.node_positions[0];
    let force_before = wave.force_at_depth(node - 50_000);
    assert!(force_before > 0, "Should attract toward node");

    // Saturate the first node.
    wave.node_occupancy[0] = 2;

    // Now the same position is repelled.
    let force_after = wave.force_at_depth(node - 50_000);
    assert!(force_after < 0, "Should repel from saturated node");
}

#[test]
fn test_breathing_wave() {
    let mut wave = StandingWave::new(2 * SCALE, SCALE);
    wave.breathing_enabled = true;
    wave.breathing_depth = 500_000;

    let amp1 = wave.effective_amplitude();

    // Advance the phase to a quarter cycle, where the oscillation peaks.
    wave.breathing_phase = SCALE;
    let amp2 = wave.effective_amplitude();

    assert!(amp2 > amp1, "Amplitude should vary with breathing");
}

#[test]
fn node_positions_for_divisor_three() {
    // Divisor 3: three nodes at one sixth, one half, five sixths (each
    // truncated to the fixed-point grid).
    let wave = StandingWave::new(3 * SCALE, SCALE);
    assert_eq!(wave.node_count(), 3);
    assert_eq!(wave.node_spacing, 333_333);
    assert_eq!(wave.node_positions[0], 166_666);
    assert_eq!(wave.node_positions[1], 499_999);
    assert_eq!(wave.node_positions[2], 833_332);
}

#[test]
fn node_positions_for_divisor_four() {
    // Divisor 4: four nodes at odd multiples of one eighth, exactly.
    let wave = StandingWave::new(4 * SCALE, SCALE);
    assert_eq!(wave.node_count(), 4);
    assert_eq!(wave.node_positions[0], 125_000);
    assert_eq!(wave.node_positions[1], 375_000);
    assert_eq!(wave.node_positions[2], 625_000);
    assert_eq!(wave.node_positions[3], 875_000);
}

#[test]
fn node_count_matches_the_largest_whole_divisor() {
    let wave = StandingWave::new(20 * SCALE, SCALE);
    assert_eq!(wave.node_count(), 20);
}

#[test]
fn division_six_by_three_is_exact() {
    assert_eq!(whole_quotient(6 * SCALE, 3 * SCALE), 2 * SCALE);
    assert_eq!(whole_remainder(6 * SCALE, 3 * SCALE), 0);

    let mut fluid = ConceptFluid::default();
    fluid.start_division_experiment(6 * SCALE, 3 * SCALE);
    let mut completed = false;
    for _ in 0..400 {
        fluid.update(16_667);
        if let Some(result) = fluid.check_experiment_settlement() {
            assert_eq!(result.quotient, 2 * SCALE);
            assert_eq!(result.remainder, 0);
            assert!(result.is_divisible);
            assert_eq!(result.dividend, 6 * SCALE);
            assert_eq!(result.divisor, 3 * SCALE);
            completed = true;
            break;
        }
    }
    assert!(completed, "the experiment must settle or time out");
    assert_eq!(fluid.experiment_results.len(), 1);
}

#[test]
fn division_seven_by_three_has_remainder() {
    assert_eq!(whole_quotient(7 * SCALE, 3 * SCALE), 2 * SCALE);
    assert_eq!(whole_remainder(7 * SCALE, 3 * SCALE), SCALE);

    let mut fluid = ConceptFluid::default();
    fluid.start_division_experiment(7 * SCALE, 3 * SCALE);
    let mut completed = false;
    for _ in 0..400 {
        fluid.update(16_667);
        if let Some(result) = fluid.check_experiment_settlement() {
            assert_eq!(result.quotient, 2 * SCALE);
            assert_eq!(result.remainder, SCALE);
            assert!(!result.is_divisible);
            completed = true;
            break;
        }
    }
    assert!(completed, "the experiment must settle or time out");
}

#[test]
fn starting_a_division_experiment_injects_the_dividend() {
    let mut fluid = ConceptFluid::default();
    let before = fluid.concepts.len();
    fluid.start_division_experiment_with_salinity(6 * SCALE, 3 * SCALE, 2 * SCALE);
    assert_eq!(fluid.concepts.len(), before + 6);
    let experiment = fluid.get_experiment_status().expect("experiment should be active");
    assert_eq!(experiment.bubble_ids.len(), 6);
    assert_eq!(experiment.wave.frequency, 3 * SCALE);
    assert_eq!(experiment.salinity_boost, 2 * SCALE);
    assert_eq!(fluid.salinity, 2 * SCALE);
    assert_eq!(fluid.standing_waves.len(), 1);
}
