use minimal_game::ai::choose_direction;
use minimal_game::animator::{advance_animation, select_animation};
use minimal_game::components::{
    Animation, BoundingBox, ClipId, Enemy, Frame, Goal, MovementAnimations, Player, Sprite,
    Velocity,
};
use minimal_game::direction::Direction;
use minimal_game::geometry::{Point, Rect};
use minimal_game::resources::{GameOver, GameStatus, TimeDelta};
use minimal_game::systems::{Animator, WinLoseChecker, AI};
use minimal_game::win_lose::collision_outcome;
use minimal_game::world::{EntityComponents, World};
use rand::rngs::StdRng;
use rand::SeedableRng;

fn anim(clip: usize) -> Animation {
    Animation { frames: ClipId(clip), current_frame: 0, frame_timer: 0 }
}

fn walking() -> MovementAnimations {
    MovementAnimations {
        walking_up: anim(0),
        walking_down: anim(1),
        walking_left: anim(2),
        walking_right: anim(3),
    }
}

fn sprite(x: i32) -> Sprite {
    Sprite { texture_id: 0, region: Rect::new(x, 0, 52, 72) }
}

fn clip(n: usize, duration: u64) -> Vec<Frame> {
    (0..n).map(|i| Frame { sprite: sprite(52 * i as i32), duration }).collect()
}

#[test]
fn goal_reached_without_enemy_wins() {
    let mut world = World::new();
    let mut goal = EntityComponents::none();
    goal.goal = Some(Goal);
    goal.bounding_box = Some(BoundingBox(Rect::from_center(Point::new(0, -200), 92, 116)));
    world.create_entity(goal);
    let mut player = EntityComponents::none();
    player.player = Some(Player { movement_speed: 200 });
    player.bounding_box = Some(BoundingBox(Rect::from_center(Point::new(10, -160), 32, 58)));
    world.create_entity(player);
    assert_eq!(world.game_status, GameStatus::Running);
    WinLoseChecker.run(&mut world);
    assert_eq!(world.game_status, GameStatus::Win);
    assert_eq!(world.game_status.game_over(), GameOver::Yes);
}

#[test]
fn enemy_beats_goal_in_the_same_frame() {
    let mut world = World::new();
    let mut goal = EntityComponents::none();
    goal.goal = Some(Goal);
    goal.bounding_box = Some(BoundingBox(Rect::from_center(Point::new(0, -200), 92, 116)));
    world.create_entity(goal);
    let mut enemy = EntityComponents::none();
    enemy.enemy = Some(Enemy { direction_timer: 0, direction_change_delay: 200_000 });
    enemy.bounding_box = Some(BoundingBox(Rect::from_center(Point::new(30, -150), 50, 58)));
    world.create_entity(enemy);
    let mut player = EntityComponents::none();
    player.player = Some(Player { movement_speed: 200 });
    player.bounding_box = Some(BoundingBox(Rect::from_center(Point::new(10, -160), 32, 58)));
    world.create_entity(player);
    WinLoseChecker.run(&mut world);
    assert_eq!(world.game_status, GameStatus::Lose);
}

#[test]
fn touching_edges_is_no_collision() {
    let player = vec![Rect::new(0, 0, 10, 10)];
    let enemies = vec![Rect::new(10, 0, 10, 10)];
    let goals = vec![Rect::new(0, 10, 10, 10)];
    assert_eq!(collision_outcome(&player, &enemies, &goals), None);
    let mut world = World::new();
    WinLoseChecker.run(&mut world);
    assert_eq!(world.game_status, GameStatus::Running);
    assert_eq!(world.game_status.game_over(), GameOver::No);
}

#[test]
fn percentile_roll_table() {
    assert_eq!(choose_direction(1, Direction::Left), Direction::Left);
    assert_eq!(choose_direction(60, Direction::Left), Direction::Left);
    assert_eq!(choose_direction(61, Direction::Left), Direction::Up);
    assert_eq!(choose_direction(70, Direction::Left), Direction::Up);
    assert_eq!(choose_direction(71, Direction::Left), Direction::Down);
    assert_eq!(choose_direction(81, Direction::Up), Direction::Left);
    assert_eq!(choose_direction(90, Direction::Up), Direction::Left);
    assert_eq!(choose_direction(91, Direction::Up), Direction::Right);
    assert_eq!(choose_direction(100, Direction::Up), Direction::Right);
}

#[test]
fn enemy_keeps_direction_before_its_delay() {
    let mut world = World::new();
    let mut c = EntityComponents::none();
    c.enemy = Some(Enemy { direction_timer: 0, direction_change_delay: 200_000 });
    c.velocity = Some(Velocity { speed: 200, direction: Direction::Left });
    let e = world.create_entity(c);
    let mut rng = StdRng::seed_from_u64(7);
    for _ in 0..12 {
        world.advance_clock(TimeDelta(16_666));
        AI.run(&mut world, &mut rng);
        assert_eq!(*world.velocities.get(e).unwrap(), Velocity { speed: 200, direction: Direction::Left });
        assert_eq!(world.enemies.get(e).unwrap().direction_timer, 0);
    }
    world.advance_clock(TimeDelta(16_666));
    AI.run(&mut world, &mut rng);
    // the thirteenth frame reaches the delay: the timer restarts at the clock reading
    assert_eq!(world.clock, 216_658);
    assert_eq!(world.enemies.get(e).unwrap().direction_timer, 216_658);
    assert_eq!(world.velocities.get(e).unwrap().speed, 200);
}

#[test]
fn enemy_directions_vary_over_many_rerolls() {
    let mut world = World::new();
    let mut c = EntityComponents::none();
    c.enemy = Some(Enemy { direction_timer: 0, direction_change_delay: 1 });
    c.velocity = Some(Velocity { speed: 200, direction: Direction::Left });
    let e = world.create_entity(c);
    let mut rng = StdRng::seed_from_u64(11);
    let mut seen = Vec::new();
    for _ in 0..200 {
        world.advance_clock(TimeDelta(1));
        AI.run(&mut world, &mut rng);
        let d = world.velocities.get(e).unwrap().direction;
        if !seen.contains(&d) {
            seen.push(d);
        }
    }
    assert_eq!(seen.len(), 4);
}

#[test]
fn same_clip_keeps_running_animation() {
    let m = walking();
    let v = Velocity { speed: 200, direction: Direction::Up };
    let running = Animation { frames: ClipId(0), current_frame: 2, frame_timer: 500 };
    assert_eq!(select_animation(v, &m, Some(running), 900), Some(running));
}

#[test]
fn new_direction_restarts_at_frame_zero() {
    let m = walking();
    let v = Velocity { speed: 200, direction: Direction::Left };
    let running = Animation { frames: ClipId(0), current_frame: 2, frame_timer: 500 };
    let chosen = Animation { frames: ClipId(2), current_frame: 0, frame_timer: 900 };
    assert_eq!(select_animation(v, &m, Some(running), 900), Some(chosen));
    assert_eq!(select_animation(v, &m, None, 900), Some(chosen));
}

#[test]
fn stopping_drops_the_animation() {
    let m = walking();
    let v = Velocity { speed: 0, direction: Direction::Left };
    assert_eq!(select_animation(v, &m, Some(anim(2)), 900), None);
    assert_eq!(select_animation(v, &m, None, 900), None);
}

#[test]
fn frames_advance_and_loop() {
    let frames = clip(3, 150_000);
    let a = Animation { frames: ClipId(0), current_frame: 1, frame_timer: 1_000 };
    let (same, s) = advance_animation(a, sprite(52), &frames, 150_999);
    assert_eq!(same, a);
    assert_eq!(s, sprite(52));
    let (next, s) = advance_animation(a, sprite(52), &frames, 151_000);
    assert_eq!(next, Animation { frames: ClipId(0), current_frame: 2, frame_timer: 151_000 });
    assert_eq!(s, sprite(104));
    let (wrapped, s) = advance_animation(next, s, &frames, 301_000);
    assert_eq!(wrapped.current_frame, 0);
    assert_eq!(s, sprite(0));
}

#[test]
fn animator_selects_then_advances() {
    let mut world = World::new();
    for i in 0..4 {
        assert_eq!(world.add_clip(clip(3, 100_000)), Some(ClipId(i)));
    }
    assert_eq!(world.add_clip(Vec::new()), None);
    let mut c = EntityComponents::none();
    c.velocity = Some(Velocity { speed: 200, direction: Direction::Right });
    c.movement_animations = Some(walking());
    c.sprite = Some(sprite(0));
    let e = world.create_entity(c);
    world.advance_clock(TimeDelta(50_000));
    Animator.run(&mut world);
    let a = *world.animations.get(e).unwrap();
    assert_eq!(a, Animation { frames: ClipId(3), current_frame: 0, frame_timer: 50_000 });
    world.advance_clock(TimeDelta(100_000));
    Animator.run(&mut world);
    let a = *world.animations.get(e).unwrap();
    assert_eq!(a, Animation { frames: ClipId(3), current_frame: 1, frame_timer: 150_000 });
    assert_eq!(*world.sprites.get(e).unwrap(), sprite(52));
    world.advance_clock(TimeDelta(10_000));
    Animator.run(&mut world);
    assert_eq!(world.animations.get(e).unwrap().current_frame, 1);
    world.velocities.replace(e, Velocity { speed: 0, direction: Direction::Right });
    Animator.run(&mut world);
    assert!(world.animations.get(e).is_none());
    assert_eq!(*world.sprites.get(e).unwrap(), sprite(52));
}
