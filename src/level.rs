use vstd::prelude::*;

use rand::rngs::StdRng;

use crate::components::{BoundingBox, Enemy, Goal, Player, Sprite, Velocity};
use crate::direction::Direction;
use crate::geometry::{Point, Rect};
use crate::random::random_in_range;
use crate::storage::Entity;
use crate::world::{EntityComponents, World};

verus! {

/// Speed of the player when moving, in pixels per second.
pub const PLAYER_SPEED: i32 = 200;

/// Speed of the enemies, in pixels per second.
pub const ENEMY_SPEED: i32 = 200;

/// Time between two direction changes of an enemy, in microseconds.
pub const DIRECTION_CHANGE_DELAY: u64 = 200_000;

/// Number of enemies in a level: a grid of three columns and two rows.
pub const ENEMY_COUNT: usize = 6;

/// The textures of a level, as indices into the renderer's texture list.
#[derive(Debug, Clone, Copy, PartialEq, Eq, Structural)]
pub struct LevelTextures {
    pub player: usize,
    pub enemy: usize,
    pub goal: usize,
}

/// The entities of a level.
#[derive(Debug)]
pub struct Level {
    pub goal: Entity,
    pub player: Entity,
    pub enemies: Vec<Entity>,
}

/// The rectangle of the given size centred on (cx, cy).
pub open spec fn centered(cx: int, cy: int, width: u32, height: u32) -> Rect {
    Rect {
        x: crate::geometry::centered_start(cx, width as int) as i32,
        y: crate::geometry::centered_start(cy, height as int) as i32,
        width,
        height,
    }
}

/// The goal, centred on (x, -200).
pub open spec fn goal_components(x: int, texture: usize) -> EntityComponents {
    EntityComponents {
        bounding_box: Some(BoundingBox(centered(x, -200, 92, 116))),
        velocity: None,
        sprite: Some(Sprite { texture_id: texture, region: Rect { x: 0, y: 0, width: 128, height: 128 } }),
        animation: None,
        movement_animations: None,
        player: None,
        enemy: None,
        goal: Some(Goal),
    }
}

/// The player, at rest facing down, centred on (x, 250).
pub open spec fn player_components(x: int, texture: usize) -> EntityComponents {
    EntityComponents {
        bounding_box: Some(BoundingBox(centered(x, 250, 32, 58))),
        velocity: Some(Velocity { speed: 0, direction: Direction::Down }),
        sprite: Some(Sprite { texture_id: texture, region: Rect { x: 0, y: 0, width: 52, height: 72 } }),
        animation: None,
        movement_animations: None,
        player: Some(Player { movement_speed: PLAYER_SPEED }),
        enemy: None,
        goal: None,
    }
}

/// An enemy centred on (x, y), moving in direction `d`, its timer started at `now`.
pub open spec fn enemy_components(x: int, y: int, d: Direction, texture: usize, now: u64) -> EntityComponents {
    EntityComponents {
        bounding_box: Some(BoundingBox(centered(x, y, 50, 58))),
        velocity: Some(Velocity { speed: ENEMY_SPEED, direction: d }),
        sprite: Some(Sprite { texture_id: texture, region: Rect { x: 0, y: 0, width: 52, height: 72 } }),
        animation: None,
        movement_animations: None,
        player: None,
        enemy: Some(Enemy { direction_timer: now, direction_change_delay: DIRECTION_CHANGE_DELAY }),
        goal: None,
    }
}

/// The centre of the grid cell of enemy `k`: columns at x = -200, 0, 200 and rows
/// at y = -80, 60.
pub open spec fn cell_x(k: int) -> int {
    (k / 2 - 1) * 200
}

pub open spec fn cell_y(k: int) -> int {
    (k % 2 - 2) * 140 + 200
}

/// `e` is the enemy of grid cell `k`: placed in its cell with an offset of
/// -80..80 horizontally and -40..40 vertically, in some direction.
pub open spec fn enemy_placed(w: World, e: Entity, k: int, texture: usize, now: u64) -> bool {
    exists|dx: int, dy: int, d: Direction|
        -80 <= dx < 80 && -40 <= dy < 40 && w.holds_components(
            e,
            #[trigger] enemy_components(cell_x(k) + dx, cell_y(k) + dy, d, texture, now),
        )
}

/// The direction numbered `n` (0 to 3).
pub open spec fn direction_numbered(n: int) -> Direction {
    if n == 0 {
        Direction::Up
    } else if n == 1 {
        Direction::Down
    } else if n == 2 {
        Direction::Left
    } else {
        Direction::Right
    }
}

fn numbered_direction(n: i32) -> (d: Direction)
    ensures
        d == direction_numbered(n as int),
{
    if n == 0 {
        Direction::Up
    } else if n == 1 {
        Direction::Down
    } else if n == 2 {
        Direction::Left
    } else {
        Direction::Right
    }
}

impl World {
    /// Creates the entities of a level: a goal at a random x in -300..=300, the
    /// player at a random x in -320..=320, and one enemy in each cell of a 3 by 2
    /// grid, offset at random by -80..80 horizontally and -40..40 vertically,
    /// facing a random direction. Every created entity is new and distinct.
    pub fn spawn_level(&mut self, rng: &mut StdRng, textures: LevelTextures) -> (r: Level)
        requires
            old(self).wf(),
        ensures
            final(self).wf(),
            final(self).clock == old(self).clock,
            final(self).game_status == old(self).game_status,
            forall|e: Entity| #[trigger] old(self).retired(e) ==> final(self).retired(e),
            r.enemies@.len() == ENEMY_COUNT,
            exists|x: int| -300 <= x <= 300 && final(self).holds_components(r.goal, goal_components(x, textures.goal)),
            exists|x: int| -320 <= x <= 320 && final(self).holds_components(r.player, player_components(x, textures.player)),
            forall|k: int| 0 <= k < ENEMY_COUNT ==> enemy_placed(
                *final(self),
                #[trigger] r.enemies@[k],
                k,
                textures.enemy,
                old(self).clock,
            ),
            !old(self).is_alive(r.goal) && final(self).is_alive(r.goal),
            !old(self).is_alive(r.player) && final(self).is_alive(r.player),
            forall|k: int| 0 <= k < ENEMY_COUNT ==> !old(self).is_alive(#[trigger] r.enemies@[k]) && final(self).is_alive(r.enemies@[k]),
            r.goal != r.player,
            forall|k: int| 0 <= k < ENEMY_COUNT ==> #[trigger] r.enemies@[k] != r.goal && r.enemies@[k] != r.player,
            forall|a: int, b: int| 0 <= a < b < ENEMY_COUNT ==> #[trigger] r.enemies@[a] != #[trigger] r.enemies@[b],
    {
        let ghost w0 = *self;
        let gx = random_in_range(rng, -300, 301);
        let goal = self.create_entity(EntityComponents {
            bounding_box: Some(BoundingBox(Rect::from_center(Point::new(gx, -200), 92, 116))),
            velocity: None,
            sprite: Some(Sprite { texture_id: textures.goal, region: Rect::new(0, 0, 128, 128) }),
            animation: None,
            movement_animations: None,
            player: None,
            enemy: None,
            goal: Some(Goal),
        });
        assert(self.holds_components(goal, goal_components(gx as int, textures.goal)));
        let ghost w1 = *self;
        let px = random_in_range(rng, -320, 321);
        let player = self.create_entity(EntityComponents {
            bounding_box: Some(BoundingBox(Rect::from_center(Point::new(px, 250), 32, 58))),
            velocity: Some(Velocity { speed: 0, direction: Direction::Down }),
            sprite: Some(Sprite { texture_id: textures.player, region: Rect::new(0, 0, 52, 72) }),
            animation: None,
            movement_animations: None,
            player: Some(Player { movement_speed: PLAYER_SPEED }),
            enemy: None,
            goal: None,
        });
        assert(self.holds_components(player, player_components(px as int, textures.player)));
        assert(self.holds_components(goal, goal_components(gx as int, textures.goal))) by {
            assert(self.same_components(w1, goal));
        }
        let now = self.clock;
        let mut enemies: Vec<Entity> = Vec::new();
        let mut k: usize = 0;
        while k < ENEMY_COUNT
            invariant
                self.wf(),
                k <= ENEMY_COUNT,
                now == w0.clock,
                self.clock == w0.clock,
                self.game_status == w0.game_status,
                enemies@.len() == k,
                self.holds_components(goal, goal_components(gx as int, textures.goal)),
                self.holds_components(player, player_components(px as int, textures.player)),
                !w0.is_alive(goal) && self.is_alive(goal),
                !w0.is_alive(player) && self.is_alive(player),
                goal != player,
                forall|x: Entity| w0.is_alive(x) ==> #[trigger] self.is_alive(x),
                forall|x: Entity| #[trigger] w0.retired(x) ==> self.retired(x),
                forall|j: int|
                    0 <= j < k ==> enemy_placed(*self, #[trigger] enemies@[j], j, textures.enemy, now)
                        && !w0.is_alive(enemies@[j]) && self.is_alive(enemies@[j]) && enemies@[j] != goal
                        && enemies@[j] != player,
                forall|a: int, b: int| 0 <= a < b < k ==> #[trigger] enemies@[a] != #[trigger] enemies@[b],
            decreases ENEMY_COUNT - k,
        {
            let column = (k / 2) as i32 - 1;
            let row = (k % 2) as i32 - 2;
            let dx = random_in_range(rng, -80, 80);
            let dy = random_in_range(rng, -40, 40);
            let n = random_in_range(rng, 0, 4);
            let d = numbered_direction(n);
            let x = column * 200 + dx;
            let y = row * 140 + 200 + dy;
            assert(x == cell_x(k as int) + dx);
            assert(y == cell_y(k as int) + dy);
            let ghost before = *self;
            let e = self.create_entity(EntityComponents {
                bounding_box: Some(BoundingBox(Rect::from_center(Point::new(x, y), 50, 58))),
                velocity: Some(Velocity { speed: ENEMY_SPEED, direction: d }),
                sprite: Some(Sprite { texture_id: textures.enemy, region: Rect::new(0, 0, 52, 72) }),
                animation: None,
                movement_animations: None,
                player: None,
                enemy: Some(Enemy { direction_timer: now, direction_change_delay: DIRECTION_CHANGE_DELAY }),
                goal: None,
            });
            let ghost old_enemies = enemies@;
            enemies.push(e);
            proof {
                assert(self.same_components(before, goal));
                assert(self.same_components(before, player));
                let c = enemy_components(cell_x(k as int) + dx, cell_y(k as int) + dy, d, textures.enemy, now);
                assert(self.holds_components(e, c));
                assert(enemy_placed(*self, e, k as int, textures.enemy, now));
                assert forall|j: int| 0 <= j < k + 1 implies enemy_placed(*self, #[trigger] enemies@[j], j, textures.enemy, now)
                    && !w0.is_alive(enemies@[j]) && self.is_alive(enemies@[j]) && enemies@[j] != goal
                    && enemies@[j] != player by {
                    if j < k {
                        let o = old_enemies[j];
                        assert(enemies@[j] == o);
                        assert(before.is_alive(o));
                        assert(self.same_components(before, o));
                        assert(enemy_placed(before, o, j, textures.enemy, now));
                        let (a, b, c) = choose|a: int, b: int, c: Direction|
                            -80 <= a < 80 && -40 <= b < 40 && before.holds_components(
                                o,
                                #[trigger] enemy_components(cell_x(j) + a, cell_y(j) + b, c, textures.enemy, now),
                            );
                        assert(self.holds_components(o, enemy_components(cell_x(j) + a, cell_y(j) + b, c, textures.enemy, now)));
                    } else {
                        assert(enemies@[j] == e);
                    }
                }
                assert forall|a: int, b: int| 0 <= a < b < k + 1 implies #[trigger] enemies@[a] != #[trigger] enemies@[b] by {
                    if b == k {
                        assert(before.is_alive(old_enemies[a]));
                    } else {
                        assert(old_enemies[a] != old_enemies[b]);
                    }
                }
            }
            k = k + 1;
        }
        Level { goal, player, enemies }
    }
}

} // verus!
