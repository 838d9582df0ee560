use airmash_server::ctf::component::FlagCarrier;
use airmash_server::entity::{Entities, Entity};
use airmash_server::storage::{join, Table};
use airmash_server::types::{Team, Vector2};
use airmash_server::world::World;

#[test]
fn created_entities_are_distinct_and_alive() {
    let mut ents = Entities::new();
    let a = ents.create();
    let b = ents.create();
    let c = ents.create();
    assert_ne!(a, b);
    assert_ne!(b, c);
    assert_ne!(a, c);
    assert!(ents.is_live(a));
    assert!(ents.is_live(b));
    assert!(ents.is_live(c));
    assert_eq!(a, Entity { id: 0, generation: 0 });
    assert_eq!(b, Entity { id: 1, generation: 0 });
}

#[test]
fn destroyed_slot_comes_back_under_a_new_generation() {
    let mut ents = Entities::new();
    let a = ents.create();
    let b = ents.create();
    assert!(ents.destroy(a));
    assert!(!ents.is_live(a));
    let again = ents.create();
    assert_eq!(again.id, a.id);
    assert_eq!(again.generation, a.generation + 1);
    assert_ne!(again, a);
    assert!(ents.is_live(again));
    assert!(!ents.is_live(a));
    assert!(ents.is_live(b));
}

#[test]
fn destroying_twice_changes_nothing_the_second_time() {
    let mut ents = Entities::new();
    let a = ents.create();
    assert!(ents.destroy(a));
    assert!(!ents.destroy(a));
    let b = ents.create();
    let c = ents.create();
    assert_ne!(b, c);
    assert_ne!(b.id, c.id);
}

#[test]
fn destroying_an_unknown_handle_is_refused() {
    let mut ents = Entities::new();
    assert!(!ents.destroy(Entity { id: 7, generation: 0 }));
    let a = ents.create();
    assert!(!ents.destroy(Entity { id: a.id, generation: a.generation + 1 }));
    assert!(ents.is_live(a));
}

#[test]
fn a_missing_component_reads_as_absent() {
    let mut ents = Entities::new();
    let a = ents.create();
    let table: Table<Team> = Table::new();
    assert!(table.get(a).is_none());
    assert!(!table.contains(a));
    assert!(table.entities().is_empty());
}

#[test]
fn insert_overwrites_and_returns_what_was_there() {
    let mut ents = Entities::new();
    let a = ents.create();
    let mut table: Table<Team> = Table::new();
    assert_eq!(table.insert(a, Team(1)), None);
    assert_eq!(table.get(a), Some(&Team(1)));
    assert_eq!(table.insert(a, Team(2)), Some(Team(1)));
    assert_eq!(table.get(a), Some(&Team(2)));
}

#[test]
fn remove_of_an_absent_component_changes_nothing() {
    let mut ents = Entities::new();
    let a = ents.create();
    let b = ents.create();
    let mut table: Table<Team> = Table::new();
    table.insert(a, Team(1));
    assert_eq!(table.remove(b), None);
    assert_eq!(table.get(a), Some(&Team(1)));
    assert_eq!(table.remove(a), Some(Team(1)));
    assert_eq!(table.remove(a), None);
    assert!(table.get(a).is_none());
}

#[test]
fn get_mut_writes_through_to_one_component() {
    let mut ents = Entities::new();
    let a = ents.create();
    let b = ents.create();
    let mut table: Table<Vector2> = Table::new();
    table.insert(a, Vector2::new(1, 2));
    table.insert(b, Vector2::new(3, 4));
    match table.get_mut(a) {
        Some(v) => v.x = 10,
        None => panic!("the component is there"),
    }
    assert_eq!(table.get(a), Some(&Vector2::new(10, 2)));
    assert_eq!(table.get(b), Some(&Vector2::new(3, 4)));
    let mut ents2 = Entities::new();
    let _ = ents2.create();
    let _ = ents2.create();
    let c = ents2.create();
    assert!(table.get_mut(c).is_none());
}

#[test]
fn set_overwrites_a_present_component() {
    let mut ents = Entities::new();
    let a = ents.create();
    let mut table: Table<Team> = Table::new();
    table.insert(a, Team(1));
    table.set(a, Team(5));
    assert_eq!(table.get(a), Some(&Team(5)));
}

#[test]
fn a_stale_handle_reads_nothing_of_its_successor() {
    let mut ents = Entities::new();
    let old = ents.create();
    let mut table: Table<Team> = Table::new();
    table.insert(old, Team(1));
    table.remove(old);
    ents.destroy(old);
    let new = ents.create();
    assert_eq!(new.id, old.id);
    table.insert(new, Team(2));
    assert!(table.get(old).is_none());
    assert!(!table.contains(old));
    assert_eq!(table.get(new), Some(&Team(2)));
}

#[test]
fn entities_of_a_table_come_in_slot_order() {
    let mut ents = Entities::new();
    let a = ents.create();
    let b = ents.create();
    let c = ents.create();
    let mut table: Table<Team> = Table::new();
    table.insert(c, Team(3));
    table.insert(a, Team(1));
    assert_eq!(table.entities(), vec![a, c]);
    table.insert(b, Team(2));
    assert_eq!(table.entities(), vec![a, b, c]);
    table.remove(a);
    assert_eq!(table.entities(), vec![b, c]);
}

#[test]
fn insert_all_files_each_value_under_its_key() {
    let mut ents = Entities::new();
    let a = ents.create();
    let b = ents.create();
    let c = ents.create();
    let mut table: Table<Team> = Table::new();
    table.insert(b, Team(9));
    table.insert_all(&vec![a, b], &vec![Team(1), Team(2)]);
    assert_eq!(table.get(a), Some(&Team(1)));
    assert_eq!(table.get(b), Some(&Team(2)));
    assert!(table.get(c).is_none());
}

#[test]
fn destroy_detaches_every_component() {
    let mut world = World::new();
    let a = world.create();
    let b = world.create();
    world.pos.insert(a, Vector2::new(1, 1));
    world.team.insert(a, Team(1));
    world.carrier.insert(a, FlagCarrier(None));
    world.pos.insert(b, Vector2::new(2, 2));
    assert!(world.destroy(a));
    assert!(!world.is_alive(a));
    assert!(world.pos.get(a).is_none());
    assert!(world.team.get(a).is_none());
    assert!(world.carrier.get(a).is_none());
    assert_eq!(world.pos.get(b), Some(&Vector2::new(2, 2)));
    assert!(world.is_alive(b));
}

#[test]
fn a_new_entity_in_a_reused_slot_has_no_component() {
    let mut world = World::new();
    let a = world.create();
    world.team.insert(a, Team(1));
    world.destroy(a);
    let again = world.create();
    assert_eq!(again.id, a.id);
    assert_ne!(again, a);
    assert!(world.team.get(again).is_none());
    assert!(world.team.entities().is_empty());
    assert!(!world.destroy(a));
    assert!(world.is_alive(again));
}

#[test]
fn a_join_lists_the_entities_that_have_both_components() {
    let mut ents = Entities::new();
    let a = ents.create();
    let b = ents.create();
    let c = ents.create();
    let d = ents.create();
    let mut teams: Table<Team> = Table::new();
    let mut places: Table<Vector2> = Table::new();
    teams.insert(d, Team(4));
    teams.insert(a, Team(1));
    teams.insert(b, Team(2));
    places.insert(b, Vector2::new(0, 0));
    places.insert(c, Vector2::new(0, 0));
    places.insert(d, Vector2::new(0, 0));
    assert_eq!(join(&teams, &places), vec![b, d]);
    assert_eq!(join(&places, &teams), vec![b, d]);
    assert!(join(&teams, &Table::<Team>::new()).is_empty());
}
