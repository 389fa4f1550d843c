use minimal_game::components::{BoundingBox, Goal, Player, Velocity};
use minimal_game::direction::Direction;
use minimal_game::dispatcher::{run_frame, AnySystem, DispatcherBuilder, ScheduleError};
use minimal_game::geometry::{Point, Rect};
use minimal_game::resources::{GameOver, GameStatus, KeyboardEvent, TimeDelta};
use minimal_game::systems::{Animator, Keyboard, Movement, WinLoseChecker, AI};
use minimal_game::world::{EntityComponents, World};
use rand::rngs::StdRng;
use rand::SeedableRng;

fn names(list: &[&str]) -> Vec<String> {
    list.iter().map(|s| s.to_string()).collect()
}

fn bounds() -> Rect {
    Rect::from_center(Point::new(0, 0), 800, 600)
}

fn game_builder() -> DispatcherBuilder {
    DispatcherBuilder::new()
        .with(AnySystem::WinLoseChecker(WinLoseChecker), "WinLoseChecker".to_string(), names(&["Movement"]))
        .with(AnySystem::Movement(Movement { world_bounds: bounds() }), "Movement".to_string(), names(&["Keyboard", "AI"]))
        .with(AnySystem::Animator(Animator), "Animator".to_string(), names(&["Keyboard", "AI"]))
        .with(AnySystem::Keyboard(Keyboard), "Keyboard".to_string(), names(&[]))
        .with(AnySystem::AI(AI), "AI".to_string(), names(&[]))
}

fn position(stages: &[AnySystem], f: fn(&AnySystem) -> bool) -> usize {
    stages.iter().position(f).unwrap()
}

#[test]
fn build_orders_dependencies_first() {
    let d = game_builder().build().unwrap();
    assert_eq!(d.stages.len(), 5);
    let kb = position(&d.stages, |s| matches!(s, AnySystem::Keyboard(_)));
    let ai = position(&d.stages, |s| matches!(s, AnySystem::AI(_)));
    let mv = position(&d.stages, |s| matches!(s, AnySystem::Movement(_)));
    let wl = position(&d.stages, |s| matches!(s, AnySystem::WinLoseChecker(_)));
    let an = position(&d.stages, |s| matches!(s, AnySystem::Animator(_)));
    assert!(kb < mv && ai < mv && mv < wl && kb < an && ai < an);
}

#[test]
fn unknown_dependency_is_refused() {
    let r = DispatcherBuilder::new()
        .with(AnySystem::Keyboard(Keyboard), "Keyboard".to_string(), names(&["Input"]))
        .build();
    match r {
        Err(ScheduleError::UnknownDependency(name)) => assert_eq!(name, "Input"),
        _ => panic!("expected an unknown dependency"),
    }
}

#[test]
fn dependency_cycle_is_refused() {
    let r = DispatcherBuilder::new()
        .with(AnySystem::Keyboard(Keyboard), "A".to_string(), names(&["C"]))
        .with(AnySystem::AI(AI), "B".to_string(), names(&["A"]))
        .with(AnySystem::Animator(Animator), "C".to_string(), names(&["B"]))
        .build();
    assert!(matches!(r, Err(ScheduleError::Cycle)));
    let r = DispatcherBuilder::new()
        .with(AnySystem::Keyboard(Keyboard), "A".to_string(), names(&["A"]))
        .build();
    assert!(matches!(r, Err(ScheduleError::Cycle)));
}

#[test]
fn empty_schedule_builds() {
    let d = DispatcherBuilder::new().build().unwrap();
    assert!(d.stages.is_empty());
}

#[test]
fn frames_run_until_the_goal_is_reached() {
    let mut world = World::new();
    let mut goal = EntityComponents::none();
    goal.goal = Some(Goal);
    goal.bounding_box = Some(BoundingBox(Rect::from_center(Point::new(0, -200), 92, 116)));
    world.create_entity(goal);
    let mut player = EntityComponents::none();
    player.player = Some(Player { movement_speed: 200 });
    player.velocity = Some(Velocity { speed: 0, direction: Direction::Down });
    player.bounding_box = Some(BoundingBox(Rect::from_center(Point::new(0, 250), 32, 58)));
    let p = world.create_entity(player);
    let mut dispatcher = game_builder().build().unwrap();
    let mut rng = StdRng::seed_from_u64(1);
    let dt = TimeDelta(16_666);
    let mut event = Some(KeyboardEvent::MoveInDirection(Direction::Up));
    let mut frames = 0;
    while run_frame(&mut dispatcher, &mut world, &mut rng, event, dt) == GameOver::No {
        event = None;
        frames += 1;
        assert!(frames < 1000);
    }
    assert_eq!(world.game_status, GameStatus::Win);
    let center = world.bounding_boxes.get(p).unwrap().0.center();
    assert_eq!(center.x, 0);
    assert!(center.y < 250);
}
