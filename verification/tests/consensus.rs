//! The consensus reactor: certainty, classification, collision forces and
//! the phase-transition extraction.

use concept_fluid::consensus_reactor::{
    ConsensusExperiment, ConsensusOre, ConsensusOreType, ConsensusReactor,
};
use concept_fluid::fixed::SCALE;

#[test]
fn test_certainty_calculation() {
    let mut exp = ConsensusExperiment::new(
        String::from("Privacy is absolute"),
        SCALE,
        String::from("Transparency is mandatory"),
        SCALE,
    );

    // No jitter: certainty is exactly one.
    assert_eq!(exp.certainty(), SCALE);

    // Some jitter.
    exp.accumulated_jitter = SCALE;
    assert_eq!(exp.certainty(), 500_000);

    // Lots of jitter.
    exp.accumulated_jitter = 9 * SCALE;
    assert_eq!(exp.certainty(), 100_000);
}

fn make_ore(certainty: i64) -> ConsensusOre {
    ConsensusOre {
        id: 0,
        name: String::from("test"),
        ore_type: ConsensusOreType::Synthesis,
        vent_a: String::from("A"),
        vent_b: String::from("B"),
        certainty,
        accumulated_jitter: 0,
        crystallization_time: 0,
        insight: None,
        integration_value: 0,
        phase_structure: None,
    }
}

#[test]
fn test_ore_quality_classification() {
    assert_eq!(make_ore(950_000).quality(), "foundational_truth");
    assert_eq!(make_ore(750_000).quality(), "strong_insight");
    assert_eq!(make_ore(550_000).quality(), "tentative_insight");
    assert_eq!(make_ore(350_000).quality(), "weak_signal");
    assert_eq!(make_ore(150_000).quality(), "noise");
}

#[test]
fn test_thermal_collision() {
    let exp = ConsensusExperiment::new(String::from("A"), SCALE, String::from("B"), SCALE);

    // At the collision center both vents push equally hard.
    let (net, collision) = exp.thermal_collision_at(500_000);

    assert!(net.abs() < 100_000);
    assert!(collision > 0);
}

#[test]
fn ore_type_names() {
    assert_eq!(ConsensusOreType::Synthesis.as_str(), "synthesis");
    assert_eq!(ConsensusOreType::Transcendence.as_str(), "transcendence");
    assert_eq!(ConsensusOreType::Dissolution.as_str(), "dissolution");
    assert_eq!(ConsensusOreType::Paradox.as_str(), "paradox");
    assert_eq!(ConsensusOreType::Nullification.as_str(), "nullification");
}

#[test]
fn crystallization_names_the_positions() {
    let mut exp = ConsensusExperiment::new(
        String::from("Privacy First"),
        SCALE,
        String::from("Radical Openness"),
        SCALE,
    );
    exp.start_tick = 0;
    // Perfectly calm history: jitter is zero, so thirty consecutive
    // stable checks inside the open window settle it.
    let mut done = false;
    for tick in 60..200u64 {
        if exp.check_crystallization(tick) {
            done = true;
            break;
        }
    }
    assert!(done);
    let ore = exp.crystallize(100);
    // Zero accumulated jitter gives certainty one and a smooth synthesis.
    assert_eq!(ore.certainty, SCALE);
    assert!(matches!(ore.ore_type, ConsensusOreType::Synthesis));
    // Lowercased, underscored position names fold into the ore's name.
    assert_eq!(ore.name, "privacy_first_radical_openness_synthesis");
    assert!(ore.insight.is_some());
    assert!(ore.is_foundational());
    assert!(!ore.is_noise());
}

#[test]
fn phase_transition_extraction_partitions_the_depth_band() {
    let mut exp = ConsensusExperiment::new(String::from("A"), SCALE, String::from("B"), SCALE);
    exp.record_probe_snapshot(1, 450_000, 10_000);
    exp.record_probe_snapshot(2, 500_000, -5_000);
    exp.record_probe_snapshot(3, 550_000, 2_000);
    exp.extract_phase_structure(42);
    let ps = exp.phase_structure.as_ref().expect("structure must exist");

    assert_eq!(ps.voronoi_cells.len(), 3);
    // The cells chain across the whole band, so the widths telescope.
    assert_eq!(ps.voronoi_cells[0].left_bound, 0);
    assert_eq!(ps.voronoi_cells[0].right_bound, 475_000);
    assert_eq!(ps.voronoi_cells[1].left_bound, 475_000);
    assert_eq!(ps.voronoi_cells[1].right_bound, 525_000);
    assert_eq!(ps.voronoi_cells[2].left_bound, 525_000);
    assert_eq!(ps.voronoi_cells[2].right_bound, SCALE);
    let width_total: i64 = ps.voronoi_cells.iter().map(|c| c.width).sum();
    assert_eq!(width_total, SCALE);

    // Normalized territories sum to one within truncation loss.
    let territory_sum = ps.vent_a_territory + ps.vent_b_territory + ps.contested_territory;
    assert!(SCALE - 3 < territory_sum && territory_sum <= SCALE);

    // All three probes sit in the contested middle, and a wide contested
    // zone with no asymmetry synthesizes a graduated material.
    assert_eq!(ps.contested_territory, SCALE);
    assert_eq!(ps.material_name, "Graduated Synthesis");
    assert_eq!(ps.transition_tick, 42);
}

#[test]
fn escaped_probes_are_left_out_of_the_normalization() {
    let mut exp = ConsensusExperiment::new(String::from("A"), SCALE, String::from("B"), SCALE);
    // One probe escapes above vent A's margin; the others take a side.
    exp.record_probe_snapshot(1, 100_000, 0);
    exp.record_probe_snapshot(2, 420_000, 0);
    exp.record_probe_snapshot(3, 580_000, 0);
    exp.extract_phase_structure(7);
    let ps = exp.phase_structure.as_ref().expect("structure must exist");

    // Cells: [0, 0.26] escaped, [0.26, 0.5] for vent A, [0.5, 1] for
    // vent B; the escaped width is excluded before normalizing.
    assert_eq!(ps.vent_a_territory, 324_324);
    assert_eq!(ps.vent_b_territory, 675_675);
    assert_eq!(ps.contested_territory, 0);
    let territory_sum = ps.vent_a_territory + ps.vent_b_territory + ps.contested_territory;
    assert!(SCALE - 3 < territory_sum && territory_sum <= SCALE);
}

#[test]
fn reactor_keeps_at_most_one_experiment_and_counts_them() {
    let mut reactor = ConsensusReactor::new();
    assert!(reactor.get_experiment().is_none());
    reactor.start_experiment(String::from("A"), SCALE, String::from("B"), SCALE, 0);
    assert!(reactor.get_experiment().is_some());
    assert_eq!(reactor.total_experiments, 1);
    reactor.start_experiment(String::from("C"), SCALE, String::from("D"), SCALE, 5);
    assert!(reactor.get_experiment().is_some());
    assert_eq!(reactor.total_experiments, 2);
}

#[test]
fn reactor_update_crystallizes_and_archives() {
    let mut reactor = ConsensusReactor::new();
    reactor.start_experiment(String::from("A"), SCALE, String::from("B"), SCALE, 0);
    let mut ore = None;
    for tick in 0..700u64 {
        if let Some(o) = reactor.update(tick) {
            ore = Some(o);
            break;
        }
    }
    let ore = ore.expect("a calm experiment crystallizes within the window");
    assert_eq!(ore.certainty, SCALE);
    assert!(reactor.get_experiment().is_none());
    assert_eq!(reactor.ore_deposits.len(), 1);
    assert_eq!(reactor.experiment_history.len(), 1);
    assert_eq!(reactor.ore_deposits[0].name, ore.name);
    assert_eq!(reactor.foundational_truths().len(), 1);
    assert_eq!(reactor.average_certainty(), SCALE);
    // Nothing here is noise, so clearing removes nothing.
    assert_eq!(reactor.clear_noise(), 0);
    assert_eq!(reactor.ore_deposits.len(), 1);
}

#[test]
fn clearing_noise_removes_low_certainty_ores() {
    let mut reactor = ConsensusReactor::new();
    reactor.ore_deposits.push(make_ore(150_000));
    reactor.ore_deposits.push(make_ore(900_000));
    reactor.ore_deposits.push(make_ore(100_000));
    let removed = reactor.clear_noise();
    assert_eq!(removed, 2);
    assert_eq!(reactor.ore_deposits.len(), 1);
    assert_eq!(reactor.ore_deposits[0].certainty, 900_000);
}
