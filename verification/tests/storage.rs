use estajoj::event::{Event, EventType, Need};
use estajoj::history::HistoryStorage;
use estajoj::params::SimulationParams;
use estajoj::text::{compact_stamp, escape_json, u32_to_string};
use estajoj::world::World;

#[test]
fn test_create_storage() {
    let params = SimulationParams::default();
    let storage = HistoryStorage::new(params);
    assert!(storage.current_simulation.events.is_empty());
}

#[test]
fn test_record_event() {
    let params = SimulationParams::default();
    let mut storage = HistoryStorage::new(params);
    let event = Event::new(EventType::Need(Need::Food), "Test event".to_string());
    storage.record_event(event);
    assert_eq!(storage.current_simulation.events.len(), 1);
}

#[test]
fn run_identity_and_file_name() {
    let storage = HistoryStorage::new(SimulationParams::default());
    assert_eq!(storage.current_simulation.simulation_id.len(), 36);
    assert!(storage.file_name.starts_with("simulation_"));
    assert!(storage.file_name.ends_with(".json"));
}

#[test]
fn recent_events_come_most_recent_first() {
    let mut storage = HistoryStorage::new(SimulationParams::default());
    storage.record_event(Event::new(EventType::Need(Need::Food), "first".to_string()));
    storage.record_event(Event::new(EventType::Need(Need::Food), "second".to_string()));
    storage.record_event(Event::new(EventType::Need(Need::Food), "third".to_string()));

    let recent = storage.get_recent_events(2);
    assert_eq!(recent.len(), 2);
    assert_eq!(recent[0].details, "third");
    assert_eq!(recent[1].details, "second");

    let all = storage.get_recent_events(10);
    assert_eq!(all.len(), 3);
}

#[test]
fn decimal_writing() {
    assert_eq!(u32_to_string(0), "0");
    assert_eq!(u32_to_string(7), "7");
    assert_eq!(u32_to_string(12345), "12345");
    assert_eq!(u32_to_string(u32::MAX), "4294967295");
}

#[test]
fn json_escaping() {
    assert_eq!(escape_json("plain"), "plain");
    assert_eq!(escape_json("a\"b\\c"), "a\\\"b\\\\c");
    assert_eq!(escape_json("line\nbreak\tand\rmore"), "line\\nbreak\\tand\\rmore");
    assert_eq!(escape_json("bell\u{7}"), "bell\\u0007");
}

#[test]
fn stamp_compaction() {
    assert_eq!(compact_stamp("2024-01-02T03:04:05"), "20240102_030405");
}

#[test]
fn saved_document_round_trips_with_every_event() {
    let params = SimulationParams {
        interaction_chance: 1000,
        reproduction_chance: 200,
        hunger_tick_chance: 500,
        ambition_tick_chance: 500,
        simulation_duration: 12,
        initial_population: 5,
    };
    let mut world = World::new(params);
    let events = world.run_simulation().unwrap();
    let document = world.pending_save.clone().unwrap();

    assert!(document.starts_with("{\n  \"simulation_id\": \""));
    assert!(document.contains("\n  \"parameters\": {\n    \"interaction_chance\": 1000"));

    let parsed: serde_json::Value = serde_json::from_str(&document).unwrap();
    let recorded = parsed["events"].as_array().unwrap();
    assert_eq!(recorded.len(), events.len());
    assert_eq!(parsed["simulation_id"].as_str().unwrap().len(), 36);
    assert_eq!(parsed["parameters"]["simulation_duration"].as_u64().unwrap(), 12);
    assert_eq!(parsed["parameters"]["interaction_chance"].as_u64().unwrap(), 1000);

    for (i, e) in events.iter().enumerate() {
        assert_eq!(recorded[i]["details"].as_str().unwrap(), e.details);
    }
}
