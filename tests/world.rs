use minimal_game::components::{BoundingBox, Goal, Player, Velocity};
use minimal_game::direction::Direction;
use minimal_game::geometry::Rect;
use minimal_game::storage::{join, join3, Entity, Storage};
use minimal_game::world::{EntityComponents, SlotState, World};

fn with_player() -> EntityComponents {
    let mut c = EntityComponents::none();
    c.player = Some(Player { movement_speed: 200 });
    c.velocity = Some(Velocity { speed: 0, direction: Direction::Down });
    c
}

#[test]
fn storage_insert_overwrites_and_remove_is_idempotent() {
    let mut s: Storage<u32> = Storage::new();
    let e = Entity { index: 3, generation: 1 };
    assert!(s.get(e).is_none());
    s.insert(e, 10);
    s.insert(e, 11);
    assert_eq!(s.get(e), Some(&11));
    assert!(s.contains(e));
    assert!(!s.contains(Entity { index: 3, generation: 0 }));
    s.remove(e);
    s.remove(e);
    assert!(s.get(e).is_none());
}

#[test]
fn storage_insert_drops_other_generation_in_slot() {
    let mut s: Storage<u32> = Storage::new();
    let old = Entity { index: 0, generation: 0 };
    let new = Entity { index: 0, generation: 1 };
    s.insert(old, 1);
    s.insert(new, 2);
    assert!(s.get(old).is_none());
    assert_eq!(s.get(new), Some(&2));
}

#[test]
fn created_entities_are_distinct_and_alive() {
    let mut world = World::new();
    let a = world.create_entity(with_player());
    let b = world.create_entity(EntityComponents::none());
    assert_ne!(a, b);
    assert!(world.is_alive_now(a));
    assert!(world.is_alive_now(b));
    assert_eq!(*world.players.get(a).unwrap(), Player { movement_speed: 200 });
    assert!(world.players.get(b).is_none());
}

#[test]
fn destruction_waits_for_maintenance() {
    let mut world = World::new();
    let a = world.create_entity(with_player());
    world.destroy(a);
    assert!(world.is_alive_now(a));
    assert!(world.players.get(a).is_some());
    let created = world.maintain();
    assert!(created.is_empty());
    assert!(!world.is_alive_now(a));
    assert!(world.players.get(a).is_none());
    assert!(world.velocities.get(a).is_none());
}

#[test]
fn reused_slot_gets_a_new_generation() {
    let mut world = World::new();
    let a = world.create_entity(with_player());
    world.destroy(a);
    world.destroy(a);
    world.maintain();
    let b = world.create_entity(with_player());
    assert_eq!(b.index, a.index);
    assert_eq!(b.generation, a.generation + 1);
    assert!(!world.is_alive_now(a));
    assert!(world.players.get(a).is_none());
    assert!(world.players.get(b).is_some());
}

#[test]
fn exhausted_slot_is_retired() {
    let mut world = World::new();
    let a = world.create_entity(EntityComponents::none());
    world.slots[a.index] = SlotState::Live(u64::MAX);
    let last = Entity { index: a.index, generation: u64::MAX };
    world.destroy(last);
    world.maintain();
    assert_eq!(world.slots[a.index], SlotState::Retired);
    let b = world.create_entity(EntityComponents::none());
    assert_ne!(b.index, a.index);
}

#[test]
fn creation_requests_wait_for_maintenance() {
    let mut world = World::new();
    let mut c = EntityComponents::none();
    c.goal = Some(Goal);
    c.bounding_box = Some(BoundingBox(Rect::new(0, 0, 4, 4)));
    world.create_later(c);
    assert!(world.slots.is_empty());
    let created = world.maintain();
    assert_eq!(created.len(), 1);
    assert!(world.is_alive_now(created[0]));
    assert_eq!(world.goals.get(created[0]), Some(&Goal));
    assert!(world.queued.is_empty());
}

#[test]
fn destroyed_and_created_in_one_maintenance() {
    let mut world = World::new();
    let a = world.create_entity(with_player());
    let keep = world.create_entity(with_player());
    world.destroy(a);
    world.create_later(with_player());
    let created = world.maintain();
    assert_eq!(created.len(), 1);
    assert_eq!(created[0].index, a.index);
    assert_ne!(created[0], a);
    assert!(world.is_alive_now(keep));
    assert!(world.players.get(keep).is_some());
}

#[test]
fn join_yields_entities_with_both_components() {
    let mut a: Storage<u32> = Storage::new();
    let mut b: Storage<char> = Storage::new();
    let e0 = Entity { index: 0, generation: 0 };
    let e1 = Entity { index: 1, generation: 4 };
    let e2 = Entity { index: 2, generation: 0 };
    let e5 = Entity { index: 5, generation: 1 };
    a.insert(e0, 1);
    a.insert(e1, 2);
    a.insert(e5, 3);
    b.insert(e1, 'x');
    b.insert(e2, 'y');
    b.insert(e5, 'z');
    b.insert(Entity { index: 0, generation: 1 }, 'w');
    assert_eq!(join(&a, &b), vec![e1, e5]);
    assert!(join(&a, &Storage::<u8>::new()).is_empty());
}

#[test]
fn join3_yields_entities_with_all_three_components() {
    let mut a: Storage<u32> = Storage::new();
    let mut b: Storage<char> = Storage::new();
    let mut c: Storage<bool> = Storage::new();
    let e0 = Entity { index: 0, generation: 0 };
    let e1 = Entity { index: 1, generation: 2 };
    let e3 = Entity { index: 3, generation: 0 };
    for e in [e0, e1, e3] {
        a.insert(e, 1);
        b.insert(e, 'x');
    }
    c.insert(e1, true);
    c.insert(e3, false);
    c.insert(Entity { index: 0, generation: 1 }, true);
    assert_eq!(join3(&a, &b, &c), vec![e1, e3]);
    b.remove(e3);
    assert_eq!(join3(&a, &b, &c), vec![e1]);
}

#[test]
fn storage_replace_keeps_other_entities() {
    let mut s: Storage<u32> = Storage::new();
    let a = Entity { index: 0, generation: 0 };
    let b = Entity { index: 2, generation: 0 };
    s.insert(a, 1);
    s.insert(b, 2);
    s.replace(b, 20);
    assert_eq!(s.get(a), Some(&1));
    assert_eq!(s.get(b), Some(&20));
}
