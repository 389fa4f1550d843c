use minimal_game::direction::Direction;
use minimal_game::input::{frame_input, InputEvent, Key};
use minimal_game::level::LevelTextures;
use minimal_game::resources::{GameOver, KeyboardEvent};
use minimal_game::world::World;
use rand::rngs::StdRng;
use rand::SeedableRng;

#[test]
fn arrow_keys_become_intents() {
    let mut pending = None;
    let g = World::handle_event(InputEvent::KeyDown { key: Key::Left, repeat: false }, &mut pending);
    assert_eq!(g, GameOver::No);
    assert_eq!(pending, Some(KeyboardEvent::MoveInDirection(Direction::Left)));
    World::handle_event(InputEvent::KeyDown { key: Key::Up, repeat: true }, &mut pending);
    assert_eq!(pending, Some(KeyboardEvent::MoveInDirection(Direction::Left)));
    World::handle_event(InputEvent::KeyUp { key: Key::Right, repeat: false }, &mut pending);
    assert_eq!(pending, Some(KeyboardEvent::Stop));
    World::handle_event(InputEvent::KeyUp { key: Key::Other, repeat: false }, &mut pending);
    assert_eq!(pending, Some(KeyboardEvent::Stop));
}

#[test]
fn escape_and_close_end_the_game() {
    let mut pending = None;
    assert_eq!(World::handle_event(InputEvent::Quit, &mut pending), GameOver::Yes);
    assert_eq!(World::handle_event(InputEvent::KeyDown { key: Key::Escape, repeat: true }, &mut pending), GameOver::Yes);
    assert_eq!(pending, None);
}

#[test]
fn last_event_of_a_frame_wins() {
    let events = vec![
        InputEvent::KeyDown { key: Key::Down, repeat: false },
        InputEvent::Other,
        InputEvent::KeyDown { key: Key::Right, repeat: false },
    ];
    assert_eq!(frame_input(&events), (Some(KeyboardEvent::MoveInDirection(Direction::Right)), GameOver::No));
    let events = vec![
        InputEvent::KeyDown { key: Key::Down, repeat: false },
        InputEvent::Quit,
        InputEvent::KeyUp { key: Key::Down, repeat: false },
    ];
    assert_eq!(frame_input(&events), (Some(KeyboardEvent::MoveInDirection(Direction::Down)), GameOver::Yes));
    assert_eq!(frame_input(&Vec::new()), (None, GameOver::No));
}

#[test]
fn level_places_entities_in_their_areas() {
    let textures = LevelTextures { player: 0, enemy: 1, goal: 2 };
    let mut goal_xs = Vec::new();
    for seed in 0..20 {
        let mut world = World::new();
        let mut rng = StdRng::seed_from_u64(seed);
        let level = world.spawn_level(&mut rng, textures);
        let g = world.bounding_boxes.get(level.goal).unwrap().0;
        assert_eq!((g.width, g.height), (92, 116));
        let gc = g.center();
        assert!(-300 <= gc.x && gc.x <= 300);
        assert_eq!(gc.y, -200);
        goal_xs.push(gc.x);
        let p = world.bounding_boxes.get(level.player).unwrap().0.center();
        assert!(-320 <= p.x && p.x <= 320);
        assert_eq!(p.y, 250);
        assert_eq!(world.players.get(level.player).unwrap().movement_speed, 200);
        assert_eq!(level.enemies.len(), 6);
        for (k, e) in level.enemies.iter().enumerate() {
            let c = world.bounding_boxes.get(*e).unwrap().0.center();
            let cx = (k as i32 / 2 - 1) * 200;
            let cy = (k as i32 % 2 - 2) * 140 + 200;
            assert!(cx - 80 <= c.x && c.x < cx + 80);
            assert!(cy - 40 <= c.y && c.y < cy + 40);
            assert_eq!(world.velocities.get(*e).unwrap().speed, 200);
            assert_eq!(world.enemies.get(*e).unwrap().direction_change_delay, 200_000);
        }
    }
    goal_xs.sort();
    goal_xs.dedup();
    assert!(goal_xs.len() > 1);
}
