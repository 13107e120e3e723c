use estajoj::estajo::{Estajo, Sex};
use estajoj::event::Action;
use estajoj::event::{Event, EventType, Need, StateChange};
use estajoj::needs::Needs;

#[test]
fn test_create_estajo() {
    let estajo = Estajo::new(1, "Test".to_string());
    assert_eq!(estajo.id, 1);
    assert_eq!(estajo.history.len(), 0);
}

#[test]
fn estajo_test_reproduction() {
    let mut e1 = Estajo::new(1, "Parent1".to_string());
    let mut e2 = Estajo::new(2, "Parent2".to_string());

    e1.sex = Sex::Male;
    e2.sex = Sex::Female;

    let child = e1.reproduce_with(&e2);
    assert!(child.is_some());

    let child = child.unwrap();
    assert!(child.name.contains("Child"));
}

#[test]
fn test_same_sex_reproduction() {
    let mut e1 = Estajo::new(1, "Parent1".to_string());
    let mut e2 = Estajo::new(2, "Parent2".to_string());

    e1.sex = Sex::Male;
    e2.sex = Sex::Male;

    let child = e1.reproduce_with(&e2);
    assert!(child.is_none());
}

#[test]
fn test_needs_update() {
    let mut estajo = Estajo::new(1, "Test".to_string());
    let initial_hunger = estajo.needs.hunger;
    estajo.update_needs();
    assert!(estajo.needs.hunger < initial_hunger);
}

#[test]
fn test_create_event() {
    let event = Event::new(EventType::Need(Need::Food), "Hungry".to_string());
    assert!(matches!(event.event_type, EventType::Need(Need::Food)));
}

#[test]
fn child_is_newborn() {
    let mut e1 = Estajo::new(7, "Parent1".to_string());
    let mut e2 = Estajo::new(8, "Parent2".to_string());
    e1.sex = Sex::Female;
    e2.sex = Sex::Male;

    let child = e1.reproduce_with(&e2).unwrap();
    assert_eq!(child.life, 1000);
    assert_eq!(child.needs.hunger, 1000);
    assert!(child.history.is_empty());
    assert_eq!(child.name, "Child_7_8");
    assert!(matches!(child.sex, Sex::Male) || matches!(child.sex, Sex::Female));
}

#[test]
fn damage_floors_at_zero_and_notes_death_once() {
    let mut e = Estajo::new(1, "Test".to_string());
    assert!(e.is_alive());

    e.take_damage(100);
    assert_eq!(e.life, 900);
    assert_eq!(e.history.len(), 0);

    e.take_damage(2000);
    assert_eq!(e.life, 0);
    assert!(!e.is_alive());
    let deaths = e
        .history
        .iter()
        .filter(|ev| matches!(ev.event_type, EventType::StateChange(StateChange::Death)))
        .count();
    assert_eq!(deaths, 1);

    e.take_damage(5);
    assert_eq!(e.life, 0);
    let deaths_after = e
        .history
        .iter()
        .filter(|ev| matches!(ev.event_type, EventType::StateChange(StateChange::Death)))
        .count();
    assert_eq!(deaths_after, 1);
}

#[test]
fn fresh_needs_and_bounded_updates() {
    let mut needs = Needs::new();
    assert_eq!(needs.hunger, 1000);
    assert!(300 <= needs.ambition && needs.ambition < 700);

    for _ in 0..200 {
        needs.update();
        assert!(needs.hunger <= 1000);
        assert!(needs.ambition <= 1000);
    }
    assert_eq!(needs.hunger, 0);
}

#[test]
fn eating_is_capped() {
    let mut needs = Needs::new();
    needs.hunger = 900;
    needs.eat(300);
    assert_eq!(needs.hunger, 1000);

    needs.hunger = 100;
    needs.eat(300);
    assert_eq!(needs.hunger, 400);
}

#[test]
fn genetics_factors_in_range() {
    let e = Estajo::new(1, "Test".to_string());
    let g = &e.genetics;
    assert!(800 <= g.energy_factor && g.energy_factor < 1200);
    assert!(800 <= g.satisfaction_factor && g.satisfaction_factor < 1200);
    assert!(800 <= g.influence_factor && g.influence_factor < 1200);
}

#[test]
fn event_labels_and_names() {
    assert_eq!(Action::Help.label(), "HELP");
    assert_eq!(Action::Help.variant_name(), "Help");
    assert_eq!(StateChange::Death.label(), "DEAD");
    assert_eq!(StateChange::Death.variant_name(), "Death");
    assert_eq!(Need::Food.label(), "FOOD");
    assert_eq!(Need::Food.variant_name(), "Food");
}

#[test]
fn event_display_line() {
    let event = Event::new(EventType::Need(Need::Food), "Hungry".to_string());
    let line = event.display_line();
    assert_eq!(line, format!("{} FOOD Hungry", event.timestamp));
}
