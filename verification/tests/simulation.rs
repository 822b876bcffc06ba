//! The fluid store, the tick integrator and the command pipeline.

use concept_fluid::commands::{derive_area, process_command, simulation_tick, Command};
use concept_fluid::consensus_reactor::ConsensusReactor;
use concept_fluid::events::FluidEvent;
use concept_fluid::fixed::SCALE;
use concept_fluid::fluid::ConceptFluid;
use concept_fluid::ore::{OreType, PreciousOre};

#[test]
fn injection_starts_at_rest_with_layer_equal_to_density() {
    let mut fluid = ConceptFluid::default();
    let id = fluid.add_concept(String::from("fresh_idea"), 300_000, 800_000);
    let concept = fluid.get_concept(id).expect("the concept was just added");
    assert_eq!(concept.layer, 300_000);
    assert_eq!(concept.buoyancy, 300_000);
    assert_eq!(concept.velocity, 0);
    assert_eq!(concept.density, 300_000);
    assert_eq!(concept.area, 800_000);
}

#[test]
fn ticks_keep_every_concept_inside_the_unit_band() {
    let mut fluid = ConceptFluid::default();
    fluid.add_concept(String::from("light"), 100_000, 500_000);
    fluid.add_concept(String::from("medium"), 500_000, 900_000);
    fluid.add_concept(String::from("heavy"), 950_000, 1_200_000);
    fluid.add_core_truth(String::from("warmth"), SCALE, 900_000, 300_000);
    let mut last_integrations = vec![0i64; 3];
    for _ in 0..120 {
        fluid.update(16_667);
        for (k, c) in fluid.concepts.iter().enumerate() {
            assert!(0 <= c.layer && c.layer <= SCALE);
            assert!(0 <= c.density && c.density <= SCALE);
            assert!(0 <= c.buoyancy && c.buoyancy <= SCALE);
            assert!(c.integration >= last_integrations[k]);
            last_integrations[k] = c.integration;
        }
    }
}

#[test]
fn at_most_one_concept_freezes_and_thaw_releases_it() {
    let mut fluid = ConceptFluid::default();
    // Two weightless concepts resting at the very surface: no force acts
    // on them, so they dwell in the freeze zone until the threshold.
    fluid.add_concept(String::from("first_obsession"), 0, 100_000);
    fluid.add_concept(String::from("second_obsession"), 0, 100_000);
    let mut saw_freeze = false;
    for _ in 0..40 {
        let events = fluid.update(100_000);
        for e in &events {
            if matches!(e, FluidEvent::Freeze { .. }) {
                saw_freeze = true;
            }
        }
        let frozen = fluid.concepts.iter().filter(|c| c.is_frozen).count();
        assert!(frozen <= 1);
        assert_eq!(fluid.is_frozen, frozen == 1);
    }
    assert!(saw_freeze, "a surface dweller must freeze within four seconds");
    assert!(fluid.is_frozen);
    assert!(fluid.thaw());
    assert!(!fluid.is_frozen);
    assert_eq!(fluid.concepts.iter().filter(|c| c.is_frozen).count(), 0);
    assert!(!fluid.thaw());
}

#[test]
fn turbulence_energy_is_zero_whenever_laminar() {
    let mut fluid = ConceptFluid::default();
    let id = fluid.add_concept(String::from("agitated"), 500_000, 300_000);
    // A massive buoyancy swing produces a strong velocity impulse.
    fluid.modulate_buoyancy(id, SCALE);
    let mut was_turbulent = false;
    for _ in 0..100 {
        fluid.update(16_667);
        was_turbulent = was_turbulent || fluid.is_turbulent;
        if !fluid.is_turbulent {
            assert_eq!(fluid.turbulence_energy, 0);
        }
    }
    assert!(was_turbulent, "the impulse must trip the Reynolds threshold");
    // A strong deep breath drains the chaos; the invariant keeps holding.
    fluid.deep_breath(900_000);
    for _ in 0..200 {
        fluid.update(16_667);
        if !fluid.is_turbulent {
            assert_eq!(fluid.turbulence_energy, 0);
        }
    }
}

#[test]
fn tectonic_shift_consumes_the_ores_into_a_continent() {
    let mut fluid = ConceptFluid::default();
    fluid.ore_deposits.push(PreciousOre {
        name: String::from("grief_ore_1"),
        ore_type: OreType::Art,
        density: 900_000,
        depth: 900_000,
        formed_from: 7,
        vent_cycles: 3,
        integration_value: 2 * SCALE,
    });
    fluid.ore_deposits.push(PreciousOre {
        name: String::from("grief_ore_2"),
        ore_type: OreType::Art,
        density: 900_000,
        depth: 880_000,
        formed_from: 7,
        vent_cycles: 6,
        integration_value: 3 * SCALE,
    });
    fluid.ocean_floor_pressure = 20 * SCALE;
    fluid.set_pressure_threshold(15 * SCALE);
    let shifts_before = fluid.tectonic_shifts;

    let event = fluid.apply_tectonic_shift().expect("pressure is past the threshold");

    assert_eq!(fluid.tectonic_shifts, shifts_before + 1);
    assert_eq!(fluid.ore_deposits.len(), 0);
    assert_eq!(fluid.ocean_floor_pressure, 0);
    assert_eq!(fluid.continents.len(), 1);
    let continent = &fluid.continents[0];
    assert_eq!(continent.name, "foundation_of_beauty");
    assert_eq!(continent.formed_from_ores, vec![
        String::from("grief_ore_1"),
        String::from("grief_ore_2"),
    ]);
    assert_eq!(continent.total_integration, 5 * SCALE);
    match event {
        FluidEvent::TectonicShift { continent_name, ores_consumed, .. } => {
            assert_eq!(continent_name, "foundation_of_beauty");
            assert_eq!(ores_consumed.len(), 2);
        },
        _ => panic!("a tectonic shift must report itself"),
    }
}

#[test]
fn below_threshold_no_tectonic_shift_happens() {
    let mut fluid = ConceptFluid::default();
    fluid.ocean_floor_pressure = SCALE;
    assert!(fluid.apply_tectonic_shift().is_none());
    assert_eq!(fluid.tectonic_shifts, 0);
}

#[test]
fn missing_targets_are_no_ops() {
    let mut fluid = ConceptFluid::default();
    assert!(!fluid.benthic_expedition(424_242, 500_000));
    assert!(fluid.precipitate(3, String::from("ghost"), 500_000, 500_000).is_none());
    assert!(fluid.get_concept(424_242).is_none());
    assert!(!fluid.remove_concept(424_242));
}

#[test]
fn evaporation_turns_integration_into_a_trait() {
    let mut fluid = ConceptFluid::default();
    let id = fluid.add_concept(String::from("ripe_insight"), 100_000, 500_000);
    // Hand-feed the concept enough integration near the surface.
    for c in fluid.concepts.iter_mut() {
        if c.id == id {
            c.integration = 2 * SCALE;
            c.layer = 100_000;
        }
    }
    let events = fluid.pass_evaporation();
    assert_eq!(events.len(), 1);
    assert_eq!(fluid.atmosphere.len(), 1);
    assert_eq!(fluid.atmosphere[0].name, "ripe_insight");
    assert_eq!(fluid.atmosphere[0].integration, 2 * SCALE);
    let husk = fluid.get_concept(id).expect("the husk stays in the fluid");
    assert!(husk.has_evaporated);

    // Precipitation hands thirty percent of the trait's integration on.
    let (new_id, inherited) =
        fluid.precipitate(0, String::from("morning_rain"), 400_000, 700_000).expect(
            "the trait exists",
        );
    assert_eq!(inherited, 600_000);
    let rained = fluid.get_concept(new_id).expect("the new concept exists");
    assert_eq!(rained.layer, SCALE);
    assert_eq!(rained.integration, 600_000);
}

#[test]
fn flash_heal_dilutes_salinity_and_breaks_the_freeze() {
    let mut fluid = ConceptFluid::default();
    fluid.salinity = SCALE;
    fluid.add_concept(String::from("stuck"), 10_000, 100_000);
    for _ in 0..25 {
        fluid.update(100_000);
    }
    assert!(fluid.is_frozen);
    let fresh = vec![
        (String::from("wonder"), 200_000, 400_000),
        (String::from("simple_joy"), 100_000, 200_000),
    ];
    let n_before = fluid.concepts.len();
    let old_salinity = fluid.flash_heal(fresh, 600_000);
    assert!(!fluid.is_frozen);
    assert_eq!(fluid.concepts.len(), n_before + 2);
    assert_eq!(fluid.salinity, (old_salinity * 400_000) / SCALE);
    let wonder = &fluid.concepts[n_before];
    assert_eq!(wonder.name, "wonder");
    assert_eq!(wonder.layer, 700_000);
}

#[test]
fn ballast_catalyzes_a_solution_from_a_reactive_ore() {
    let mut fluid = ConceptFluid::default();
    let id = fluid.add_concept(String::from("compose_requiem"), 900_000, 900_000);
    for c in fluid.concepts.iter_mut() {
        c.layer = 900_000;
        c.ballast = 500_000;
    }
    fluid.ore_deposits.push(PreciousOre {
        name: String::from("despair_ore"),
        ore_type: OreType::Art,
        density: 900_000,
        depth: 900_000,
        formed_from: 1,
        vent_cycles: 3,
        integration_value: 2 * SCALE,
    });
    let events = fluid.pass_catalysis();
    assert_eq!(events.len(), 1);
    match &events[0] {
        FluidEvent::OreCatalysis { problem, ore, solution, reactivity } => {
            assert_eq!(problem, "compose_requiem");
            assert_eq!(ore, "despair_ore");
            assert_eq!(solution, "compose_requiem_art_solution");
            // 2.0 * 0.3 + 0.9 * 0.2 + 0.4 = 1.18
            assert_eq!(*reactivity, 1_180_000);
        },
        _ => panic!("catalysis must report itself"),
    }
    let solution = fluid.concepts.last().expect("the solution was appended");
    assert!(solution.is_solution);
    assert_eq!(solution.density, 200_000);
    assert_eq!(solution.integration, 2 * SCALE);
    let problem = fluid.get_concept(id).expect("the problem remains");
    assert_eq!(problem.ballast, 0);
}

#[test]
fn derive_area_clamps_the_quotient() {
    // 0.5 volume over 0.3 density is 1.666..., inside the clamp band.
    assert_eq!(derive_area(500_000, 300_000), 1_666_666);
    // A huge quotient clamps to 2.0.
    assert_eq!(derive_area(2_000_000, 100_000), 2_000_000);
    // A tiny quotient clamps to 0.1.
    assert_eq!(derive_area(0, 900_000), 100_000);
    // Near-zero density falls back to twice the volume.
    assert_eq!(derive_area(500_000, 10_000), SCALE);
}

#[test]
fn commands_drive_both_stores() {
    let mut fluid = ConceptFluid::default();
    let mut reactor = ConsensusReactor::new();

    let (events, reply) = process_command(&mut fluid, &mut reactor, Command::Inject {
        name: String::from("spark"),
        density: 300_000,
        area: 800_000,
    });
    let id = reply.expect("injection returns the identifier");
    assert_eq!(events.len(), 1);
    assert!(fluid.get_concept(id).is_some());

    let (_, reply) = process_command(&mut fluid, &mut reactor, Command::StartConsensusExperiment {
        position_a: String::from("Privacy is absolute"),
        heat_a: SCALE,
        position_b: String::from("Transparency is mandatory"),
        heat_b: SCALE,
    });
    assert!(reply.is_some());
    let experiment = reactor.get_experiment().expect("the experiment is active");
    assert_eq!(experiment.probe_ids.len(), 8);

    // The scheduler tick advances the clock and eventually crystallizes.
    let mut crystallized = false;
    for _ in 0..700 {
        let events = simulation_tick(&mut fluid, &mut reactor, 16_667);
        for e in &events {
            if matches!(e, FluidEvent::ConsensusOreCrystallized { .. }) {
                crystallized = true;
            }
        }
        if crystallized {
            break;
        }
    }
    assert!(crystallized, "the experiment crystallizes within its window");
    assert_eq!(reactor.ore_deposits.len(), 1);

    let (events, _) = process_command(&mut fluid, &mut reactor, Command::DeepBreath {
        strength: 700_000,
    });
    assert_eq!(events.len(), 1);
    assert_eq!(fluid.damping_factor, 700_000);

    let (events, _) = process_command(&mut fluid, &mut reactor, Command::AddCoreTruth {
        name: String::from("curiosity_exceeds_despair"),
        heat_output: SCALE,
        depth: 900_000,
        radius: 300_000,
    });
    assert_eq!(events.len(), 1);
    assert_eq!(fluid.core_truths.len(), 1);
}

#[test]
fn an_empty_fluid_ticks_quietly() {
    let mut fluid = ConceptFluid::default();
    for _ in 0..10 {
        let events = fluid.update(16_667);
        assert!(events.is_empty());
    }
    assert_eq!(fluid.tick_count, 10);
    assert!(!fluid.is_frozen);
    assert!(!fluid.is_turbulent);
    assert_eq!(fluid.total_integration, 0);
}

#[test]
fn surface_queries_filter_and_sort_by_layer() {
    let mut fluid = ConceptFluid::default();
    fluid.add_concept(String::from("deep"), 800_000, 500_000);
    fluid.add_concept(String::from("shallow"), 100_000, 500_000);
    fluid.add_concept(String::from("mid"), 250_000, 500_000);
    let surface = fluid.get_surface_concepts(300_000);
    assert_eq!(surface.len(), 2);
    assert_eq!(surface[0].name, "shallow");
    assert_eq!(surface[1].name, "mid");
    let range = fluid.get_concepts_in_range(200_000, 900_000);
    assert_eq!(range.len(), 2);
    assert_eq!(range[0].name, "deep");
    assert_eq!(range[1].name, "mid");
}
