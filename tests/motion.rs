use minimal_game::components::{BoundingBox, Player, Velocity};
use minimal_game::direction::Direction;
use minimal_game::geometry::{Point, Rect};
use minimal_game::keyboard::steer;
use minimal_game::movement::move_box;
use minimal_game::resources::{KeyboardEvent, TimeDelta};
use minimal_game::systems::{Keyboard, Movement};
use minimal_game::world::{EntityComponents, World};

fn bounds() -> Rect {
    Rect::from_center(Point::new(0, 0), 800, 600)
}

#[test]
fn moving_up_for_one_second_commits_inside_bounds() {
    let b = BoundingBox(Rect::from_center(Point::new(0, 290), 32, 58));
    let v = Velocity { speed: 200, direction: Direction::Up };
    let r = move_box(bounds(), v, b, TimeDelta(1_000_000));
    assert_eq!(r.0.center(), Point::new(0, 90));
    assert_eq!(r.0.width, 32);
    assert_eq!(r.0.height, 58);
}

#[test]
fn moving_past_the_top_edge_stays_put() {
    let b = BoundingBox(Rect::from_center(Point::new(0, -271), 32, 58));
    let v = Velocity { speed: 200, direction: Direction::Up };
    let r = move_box(bounds(), v, b, TimeDelta(50_000));
    assert_eq!(r, b);
}

#[test]
fn at_rest_nothing_moves() {
    let b = BoundingBox(Rect::from_center(Point::new(10, 20), 32, 58));
    let v = Velocity { speed: 0, direction: Direction::Left };
    assert_eq!(move_box(bounds(), v, b, TimeDelta(1_000_000)), b);
    let v = Velocity { speed: 200, direction: Direction::Left };
    assert_eq!(move_box(bounds(), v, b, TimeDelta(0)), b);
}

#[test]
fn displacement_is_speed_times_time() {
    let b = BoundingBox(Rect::from_center(Point::new(0, 0), 50, 58));
    let v = Velocity { speed: 200, direction: Direction::Right };
    // one frame at 60 frames per second: 16666 microseconds, 3.33 pixels
    let r = move_box(bounds(), v, b, TimeDelta(16_666));
    assert_eq!(r.0.center(), Point::new(3, 0));
    let v = Velocity { speed: 150, direction: Direction::Down };
    let r = move_box(bounds(), v, b, TimeDelta(1_000_000));
    assert_eq!(r.0.center(), Point::new(0, 150));
    let v = Velocity { speed: 150, direction: Direction::Left };
    let r = move_box(bounds(), v, b, TimeDelta(1_500_000));
    assert_eq!(r.0.center(), Point::new(-225, 0));
}

#[test]
fn reaching_an_edge_exactly_is_allowed() {
    let b = BoundingBox(Rect::new(-16, 200, 32, 58));
    let v = Velocity { speed: 42, direction: Direction::Down };
    let r = move_box(bounds(), v, b, TimeDelta(1_000_000));
    assert_eq!(r.0, Rect::new(-16, 242, 32, 58));
    let r = move_box(bounds(), v, r, TimeDelta(1_000_000));
    assert_eq!(r.0, Rect::new(-16, 242, 32, 58));
}

#[test]
fn steering_sets_speed_and_direction() {
    let p = Player { movement_speed: 200 };
    let v = Velocity { speed: 0, direction: Direction::Down };
    let moving = steer(Some(KeyboardEvent::MoveInDirection(Direction::Left)), p, v);
    assert_eq!(moving, Velocity { speed: 200, direction: Direction::Left });
    assert_eq!(steer(None, p, moving), moving);
}

#[test]
fn stopping_twice_is_stopping_once() {
    let p = Player { movement_speed: 200 };
    let v = Velocity { speed: 200, direction: Direction::Right };
    let once = steer(Some(KeyboardEvent::Stop), p, v);
    let twice = steer(Some(KeyboardEvent::Stop), p, once);
    assert_eq!(once, Velocity { speed: 0, direction: Direction::Right });
    assert_eq!(twice, once);
}

#[test]
fn keyboard_system_steers_players_only() {
    let mut world = World::new();
    let mut player = EntityComponents::none();
    player.player = Some(Player { movement_speed: 120 });
    player.velocity = Some(Velocity { speed: 0, direction: Direction::Down });
    let p = world.create_entity(player);
    let mut other = EntityComponents::none();
    other.velocity = Some(Velocity { speed: 5, direction: Direction::Down });
    let o = world.create_entity(other);
    world.set_keyboard_event(Some(KeyboardEvent::MoveInDirection(Direction::Up)));
    Keyboard.run(&mut world);
    assert_eq!(*world.velocities.get(p).unwrap(), Velocity { speed: 120, direction: Direction::Up });
    assert_eq!(*world.velocities.get(o).unwrap(), Velocity { speed: 5, direction: Direction::Down });
}

#[test]
fn movement_system_moves_the_player_up() {
    let mut world = World::new();
    let mut c = EntityComponents::none();
    c.bounding_box = Some(BoundingBox(Rect::from_center(Point::new(0, 290), 32, 58)));
    c.velocity = Some(Velocity { speed: 200, direction: Direction::Up });
    let e = world.create_entity(c);
    world.advance_clock(TimeDelta(1_000_000));
    let mut movement = Movement { world_bounds: bounds() };
    movement.run(&mut world);
    assert_eq!(world.bounding_boxes.get(e).unwrap().0.center(), Point::new(0, 90));
}
