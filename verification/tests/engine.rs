use estajoj::estajo::Sex;
use estajoj::event::{EventType, Need, StateChange};
use estajoj::params::SimulationParams;
use estajoj::selection::{select_next, select_previous};
use estajoj::world::{TickError, World};

#[test]
fn test_world_creation() {
    let params = SimulationParams::default();
    let world = World::new(params);
    assert_eq!(world.estajoj.len(), 10);
}

#[test]
fn test_simulation_runs() {
    let params = SimulationParams {
        interaction_chance: 1000,
        reproduction_chance: 100,
        simulation_duration: 10,
        initial_population: 5,
        hunger_tick_chance: 500,
        ambition_tick_chance: 200,
    };
    let mut world = World::new(params);
    let events = world.run_simulation().unwrap();
    assert!(!events.is_empty());
    assert_eq!(world.current_tick, 10);
}

#[test]
fn test_random_interaction() {
    let params = SimulationParams::default();
    let mut world = World::new(params);
    let event = world.random_interaction();
    assert!(event.is_some());
}

#[test]
fn world_test_reproduction() {
    let params = SimulationParams {
        interaction_chance: 0,
        reproduction_chance: 1000,
        simulation_duration: 10,
        initial_population: 2,
        hunger_tick_chance: 500,
        ambition_tick_chance: 200,
    };
    let mut world = World::new(params);
    let events = world.run_simulation().unwrap();

    assert!(events
        .iter()
        .any(|e| matches!(e.event_type, EventType::StateChange(StateChange::Reproduction))));

    assert!(world.estajoj.len() > 2);
}

#[test]
fn test_reproduction_same_sex() {
    let params = SimulationParams {
        interaction_chance: 0,
        reproduction_chance: 1000,
        simulation_duration: 10,
        initial_population: 2,
        hunger_tick_chance: 500,
        ambition_tick_chance: 200,
    };
    let mut world = World::new(params);

    world.estajoj[0].sex = Sex::Male;
    world.estajoj[1].sex = Sex::Female;

    let events = world.run_simulation().unwrap();
    assert!(events
        .iter()
        .any(|e| matches!(e.event_type, EventType::StateChange(StateChange::Reproduction))));
    assert!(world.estajoj.len() > 2);
}

#[test]
fn test_feeding() {
    let params = SimulationParams { hunger_tick_chance: 1000, ..Default::default() };
    let mut world = World::new(params);

    world.estajoj[0].needs.hunger = 100;

    let event = world.try_feeding();
    assert!(event.is_some());
    assert!(matches!(event.unwrap().event_type, EventType::Need(Need::Food)));
}

#[test]
fn test_ambitions() {
    let params = SimulationParams { ambition_tick_chance: 1000, ..Default::default() };
    let mut world = World::new(params);

    world.estajoj[0].needs.ambition = 900;

    let event = world.process_ambitions();
    assert!(event.is_some());
    assert!(matches!(event.unwrap().event_type, EventType::Need(Need::Ambition)));
}

#[test]
fn feeding_restores_exactly_the_fixed_amount() {
    let params = SimulationParams { hunger_tick_chance: 1000, ..Default::default() };
    let mut world = World::new(params);

    world.estajoj[0].needs.hunger = 100;

    let event = world.try_feeding();
    assert!(matches!(event.unwrap().event_type, EventType::Need(Need::Food)));
    assert_eq!(world.estajoj[0].needs.hunger, 400);
}

#[test]
fn tick_with_zero_chances_is_eventless() {
    let params = SimulationParams {
        interaction_chance: 0,
        reproduction_chance: 0,
        hunger_tick_chance: 0,
        ambition_tick_chance: 0,
        simulation_duration: 100,
        initial_population: 4,
    };
    let mut world = World::new(params);
    let events = world.tick().unwrap();
    assert!(events.is_empty());
}

#[test]
fn tick_leaves_no_dead_agent_behind() {
    let params = SimulationParams {
        interaction_chance: 0,
        reproduction_chance: 0,
        hunger_tick_chance: 0,
        ambition_tick_chance: 0,
        simulation_duration: 100,
        initial_population: 10,
    };
    let mut world = World::new(params);
    world.estajoj[3].life = 1;

    let before = world.estajoj.len();
    world.tick().unwrap();
    assert_eq!(world.estajoj.len(), before - 1);
    assert!(world.estajoj.iter().all(|e| e.life > 0));
}

#[test]
fn extinction_ends_the_run() {
    let params = SimulationParams::default();
    let mut world = World::new(params);
    for e in world.estajoj.iter_mut() {
        e.life = 1;
    }

    let r = world.tick();
    assert!(matches!(r, Err(TickError::PopulationExtinct)));
    assert!(world.pending_save.is_some());
    assert!(world.estajoj.iter().all(|e| e.life == 0));
}

#[test]
fn run_issues_periodic_and_final_saves() {
    let params = SimulationParams {
        interaction_chance: 0,
        reproduction_chance: 0,
        hunger_tick_chance: 0,
        ambition_tick_chance: 0,
        simulation_duration: 20,
        initial_population: 3,
    };
    let mut world = World::new(params);
    world.run_simulation().unwrap();
    assert_eq!(world.current_tick, 20);
    assert_eq!(world.history.save_count, 3);
}

#[test]
fn display_counts_match_population() {
    let params = SimulationParams {
        interaction_chance: 0,
        reproduction_chance: 0,
        hunger_tick_chance: 0,
        ambition_tick_chance: 0,
        simulation_duration: 10,
        initial_population: 6,
    };
    let mut world = World::new(params);
    let (total, males, females) = world.population_counts();
    assert_eq!(total, 6);
    assert_eq!(males + females, 6);

    world.estajoj[0].needs.hunger = 100;
    world.estajoj[1].needs.ambition = 900;
    let (hungry, ambitious) = world.needs_pressure();
    assert_eq!(hungry, 1);
    assert_eq!(ambitious, 1);

    let ids = world.agent_ids();
    assert_eq!(ids, vec![0, 1, 2, 3, 4, 5]);
    assert_eq!(world.find_agent(4).unwrap().id, 4);
    assert!(world.find_agent(99).is_none());
}

#[test]
fn selection_cycles_through_ids() {
    let ids: Vec<u32> = vec![3, 5, 9];

    assert_eq!(select_next(&ids, None), Some(3));
    assert_eq!(select_next(&ids, Some(3)), Some(5));
    assert_eq!(select_next(&ids, Some(9)), Some(3));
    assert_eq!(select_next(&ids, Some(4)), Some(5));

    assert_eq!(select_previous(&ids, None), Some(9));
    assert_eq!(select_previous(&ids, Some(3)), Some(9));
    assert_eq!(select_previous(&ids, Some(9)), Some(5));

    let empty: Vec<u32> = Vec::new();
    assert_eq!(select_next(&empty, Some(3)), None);
    assert_eq!(select_previous(&empty, None), None);
}
