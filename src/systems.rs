use vstd::prelude::*;

use rand::rngs::StdRng;

use crate::ai::{is_reroll_due, reroll, reroll_due, rerolled};
use crate::animator::{advance_animation, advanced, select_animation, selected_animation};
use crate::components::{Animation, BoundingBox, Frame, Sprite, Velocity};
use crate::random::random_in_range;
use crate::resources::GameStatus;
use crate::storage::Storage;
use crate::win_lose::{collision_outcome, outcome, status_after};
use crate::geometry::Rect;
use crate::keyboard::{steer, steered};
use crate::movement::{move_box, moved};
use crate::storage::Entity;
use crate::world::{lemma_insert_live, World};

verus! {

/// Turns the frame's input intent into the velocity of every player.
#[derive(Debug, Clone, Copy)]
pub struct Keyboard;

/// Moves every entity with a velocity, keeping it inside the world bounds.
#[derive(Debug, Clone, Copy)]
pub struct Movement {
    pub world_bounds: Rect,
}

/// Changes the direction of enemies at random, every so often.
#[derive(Debug, Clone, Copy)]
pub struct AI;

/// Ends the game when a player touches an enemy or reaches a goal.
#[derive(Debug, Clone, Copy)]
pub struct WinLoseChecker;

/// The boxes of the entities marked in `marks` among the first `n` slots, in slot
/// order.
pub open spec fn marked_boxes_upto<M>(marks: Storage<M>, boxes: Map<Entity, BoundingBox>, n: int) -> Seq<
    Rect,
>
    decreases n,
{
    if n <= 0 {
        Seq::empty()
    } else {
        let prev = marked_boxes_upto(marks, boxes, n - 1);
        let slot = marks.slots@[n - 1];
        let e = Entity { index: (n - 1) as usize, generation: slot->Some_0.0 };
        if slot is Some && boxes.contains_key(e) {
            prev.push(boxes[e].0)
        } else {
            prev
        }
    }
}

/// The boxes of the entities that have a component in `marks` and a bounding box,
/// in slot order.
pub open spec fn marked_boxes<M>(marks: Storage<M>, boxes: Map<Entity, BoundingBox>) -> Seq<Rect> {
    marked_boxes_upto(marks, boxes, marks.slots@.len() as int)
}

/// The boxes of the entities marked in `marks`, in slot order.
pub fn collect_boxes<M>(marks: &Storage<M>, boxes: &Storage<BoundingBox>) -> (r: Vec<Rect>)
    ensures
        r@ == marked_boxes(*marks, boxes@),
{
    let mut r: Vec<Rect> = Vec::new();
    let mut i: usize = 0;
    while i < marks.slots.len()
        invariant
            i <= marks.slots@.len(),
            r@ == marked_boxes_upto(*marks, boxes@, i as int),
        decreases marks.slots.len() - i,
    {
        let ghost slot = marks.slots@[i as int];
        let ghost key = Entity { index: i, generation: slot->Some_0.0 };
        assert(marked_boxes_upto(*marks, boxes@, i + 1) == (if slot is Some && boxes@.contains_key(key) {
            marked_boxes_upto(*marks, boxes@, i as int).push(boxes@[key].0)
        } else {
            marked_boxes_upto(*marks, boxes@, i as int)
        }));
        if let Some(e) = marks.entry_at(i) {
            assert(e == key);
            if let Some(b) = boxes.get(e) {
                r.push(b.0);
            }
        } else {
            assert(!(slot is Some) || !marks@.contains_key(key));
        }
        i = i + 1;
    }
    r
}

/// The game status after the win/lose check ran on `w`.
pub open spec fn checked_status(w: World) -> GameStatus {
    status_after(
        w.game_status,
        outcome(
            marked_boxes(w.players, w.bounding_boxes@),
            marked_boxes(w.enemies, w.bounding_boxes@),
            marked_boxes(w.goals, w.bounding_boxes@),
        ),
    )
}

/// Chooses each moving entity's animation from its direction and advances the
/// frames of every animation.
#[derive(Debug, Clone, Copy)]
pub struct Animator;

/// The entry of `e` in `m`, if any.
pub open spec fn entry_of<T>(m: Map<Entity, T>, e: Entity) -> Option<T> {
    if m.contains_key(e) {
        Some(m[e])
    } else {
        None
    }
}

/// `e` has what clip selection reads: a velocity and movement animations.
pub open spec fn animates(w: World, e: Entity) -> bool {
    w.velocities@.contains_key(e) && w.movement_animations@.contains_key(e)
}

/// The animation that clip selection gives `e`.
pub open spec fn selection_of(w: World, e: Entity) -> Option<Animation> {
    selected_animation(
        w.velocities@[e],
        w.movement_animations@[e],
        entry_of(w.animations@, e),
        w.clock,
    )
}

/// The animations after clip selection on `w`.
pub open spec fn selected_animations(w: World) -> Map<Entity, Animation> {
    Map::new(
        |e: Entity|
            if animates(w, e) {
                selection_of(w, e) is Some
            } else {
                w.animations@.contains_key(e)
            },
        |e: Entity|
            if animates(w, e) {
                selection_of(w, e)->Some_0
            } else {
                w.animations@[e]
            },
    )
}

/// The frames of the clip that `a` plays.
pub open spec fn clip_of(w: World, a: Animation) -> Seq<Frame> {
    w.clips@[a.frames.0 as int]@
}

/// The animations after the frame advance, from the animations `sel`.
pub open spec fn advanced_animations(w: World, sel: Map<Entity, Animation>) -> Map<Entity, Animation> {
    Map::new(
        |e: Entity| sel.contains_key(e),
        |e: Entity|
            if w.sprites@.contains_key(e) {
                advanced(sel[e], w.sprites@[e], clip_of(w, sel[e]), w.clock).0
            } else {
                sel[e]
            },
    )
}

/// The sprites after the frame advance, from the animations `sel`.
pub open spec fn advanced_sprites(w: World, sel: Map<Entity, Animation>) -> Map<Entity, Sprite> {
    Map::new(
        |e: Entity| w.sprites@.contains_key(e),
        |e: Entity|
            if sel.contains_key(e) {
                advanced(sel[e], w.sprites@[e], clip_of(w, sel[e]), w.clock).1
            } else {
                w.sprites@[e]
            },
    )
}

/// `w2` is what the AI system may leave after running on `w`: an entity with an
/// `Enemy` and a `Velocity` whose delay has elapsed on the clock has its enemy and
/// velocity re-rolled with some percentile roll; nothing else changes.
pub open spec fn ai_stepped(w: World, w2: World) -> bool {
    &&& w2 == (World { enemies: w2.enemies, velocities: w2.velocities, ..w })
    &&& w2.enemies@.dom() == w.enemies@.dom()
    &&& w2.velocities@.dom() == w.velocities@.dom()
    &&& forall|e: Entity| #[trigger]
        w.enemies@.contains_key(e) && !(w.velocities@.contains_key(e) && reroll_due(
            w.enemies@[e],
            w.clock,
        )) ==> w2.enemies@[e] == w.enemies@[e]
    &&& forall|e: Entity| #[trigger]
        w.velocities@.contains_key(e) && !(w.enemies@.contains_key(e) && reroll_due(
            w.enemies@[e],
            w.clock,
        )) ==> w2.velocities@[e] == w.velocities@[e]
    &&& forall|e: Entity| #[trigger]
        w.enemies@.contains_key(e) && w.velocities@.contains_key(e) && reroll_due(
            w.enemies@[e],
            w.clock,
        ) ==> exists|roll: int|
            1 <= roll <= 100 && (w2.enemies@[e], w2.velocities@[e]) == rerolled(
                w.enemies@[e],
                w.velocities@[e],
                w.clock,
                roll,
            )
}

/// The velocities after the keyboard system ran on `w`.
pub open spec fn steered_velocities(w: World) -> Map<Entity, Velocity> {
    Map::new(
        |e: Entity| w.velocities@.contains_key(e),
        |e: Entity|
            if w.players@.contains_key(e) {
                steered(w.keyboard_event, w.players@[e], w.velocities@[e])
            } else {
                w.velocities@[e]
            },
    )
}

/// The bounding boxes after the movement system ran on `w` within `bounds`.
pub open spec fn moved_boxes(w: World, bounds: Rect) -> Map<Entity, crate::components::BoundingBox> {
    Map::new(
        |e: Entity| w.bounding_boxes@.contains_key(e),
        |e: Entity|
            if w.velocities@.contains_key(e) {
                moved(bounds, w.velocities@[e], w.bounding_boxes@[e], w.time_delta)
            } else {
                w.bounding_boxes@[e]
            },
    )
}

impl Keyboard {
    /// Applies the frame's input intent to every entity with a `Player` and a
    /// `Velocity`; nothing else changes.
    pub fn run(&mut self, world: &mut World)
        requires
            old(world).wf(),
        ensures
            final(world).wf(),
            *final(world) == (World { velocities: final(world).velocities, ..*old(world) }),
            final(world).velocities@ == steered_velocities(*old(world)),
    {
        let ghost w0 = *world;
        let n = world.velocities.slots.len();
        let mut i: usize = 0;
        while i < n
            invariant
                w0.wf(),
                world.wf(),
                *world == (World { velocities: world.velocities, ..w0 }),
                world.velocities.slots@.len() == n,
                world.velocities@.dom() == w0.velocities@.dom(),
                forall|e: Entity| #[trigger]
                    w0.velocities@.contains_key(e) ==> world.velocities@[e] == (if e.index < i
                        && w0.players@.contains_key(e) {
                        steered(w0.keyboard_event, w0.players@[e], w0.velocities@[e])
                    } else {
                        w0.velocities@[e]
                    }),
            decreases n - i,
        {
            if let Some(e) = world.velocities.entry_at(i) {
                if world.players.contains(e) {
                    let p = *world.players.get(e).unwrap();
                    let v = *world.velocities.get(e).unwrap();
                    let nv = steer(world.keyboard_event, p, v);
                    world.velocities.replace(e, nv);
                }
            }
            i = i + 1;
        }
        assert(world.velocities@ =~= steered_velocities(w0));
    }
}

impl AI {
    /// Every entity with an `Enemy` and a `Velocity` whose delay has elapsed on the
    /// world clock draws a percentile roll: its direction follows the roll and its
    /// timer restarts. The others, and everything else, stay as they were.
    pub fn run(&mut self, world: &mut World, rng: &mut StdRng)
        requires
            old(world).wf(),
        ensures
            final(world).wf(),
            ai_stepped(*old(world), *final(world)),
    {
        let ghost w0 = *world;
        let ghost mut rolls: Map<Entity, int> = Map::empty();
        let now = world.clock;
        let n = world.enemies.slots.len();
        let mut i: usize = 0;
        while i < n
            invariant
                w0.wf(),
                world.wf(),
                now == w0.clock,
                *world == (World { enemies: world.enemies, velocities: world.velocities, ..w0 }),
                world.enemies.slots@.len() == n,
                world.enemies@.dom() == w0.enemies@.dom(),
                world.velocities@.dom() == w0.velocities@.dom(),
                forall|e: Entity| #[trigger]
                    w0.enemies@.contains_key(e) && !(e.index < i && w0.velocities@.contains_key(e)
                        && reroll_due(w0.enemies@[e], now)) ==> world.enemies@[e] == w0.enemies@[e],
                forall|e: Entity| #[trigger]
                    w0.velocities@.contains_key(e) && !(e.index < i && w0.enemies@.contains_key(e)
                        && reroll_due(w0.enemies@[e], now)) ==> world.velocities@[e]
                        == w0.velocities@[e],
                forall|e: Entity| #[trigger]
                    w0.enemies@.contains_key(e) && e.index < i && w0.velocities@.contains_key(e)
                        && reroll_due(w0.enemies@[e], now) ==> rolls.contains_key(e) && 1 <= rolls[e]
                        <= 100 && (world.enemies@[e], world.velocities@[e]) == rerolled(
                        w0.enemies@[e],
                        w0.velocities@[e],
                        now,
                        rolls[e],
                    ),
            decreases n - i,
        {
            if let Some(e) = world.enemies.entry_at(i) {
                if world.velocities.contains(e) {
                    let en = *world.enemies.get(e).unwrap();
                    if is_reroll_due(en, now) {
                        let v = *world.velocities.get(e).unwrap();
                        let roll = random_in_range(rng, 1, 101);
                        let (ne, nv) = reroll(en, v, now, roll as u32);
                        world.enemies.replace(e, ne);
                        world.velocities.replace(e, nv);
                        proof {
                            rolls = rolls.insert(e, roll as int);
                        }
                    }
                }
            }
            i = i + 1;
        }
        assert forall|e: Entity| #[trigger]
            w0.enemies@.contains_key(e) && w0.velocities@.contains_key(e) && reroll_due(
                w0.enemies@[e],
                now,
            ) implies exists|roll: int|
            1 <= roll <= 100 && (world.enemies@[e], world.velocities@[e]) == rerolled(
                w0.enemies@[e],
                w0.velocities@[e],
                now,
                roll,
            ) by {
            assert(rolls.contains_key(e));
        }
    }
}

impl WinLoseChecker {
    /// Sets the game status from the collisions of the players (entities with a
    /// `Player` and a `BoundingBox`, in slot order) with the enemies and goals:
    /// Lose when the first player that touches anything touches an enemy, Win when
    /// it touches only a goal, and the status unchanged when no player touches
    /// anything.
    pub fn run(&mut self, world: &mut World)
        requires
            old(world).wf(),
        ensures
            final(world).wf(),
            *final(world) == (World { game_status: checked_status(*old(world)), ..*old(world) }),
    {
        let players = collect_boxes(&world.players, &world.bounding_boxes);
        let enemies = collect_boxes(&world.enemies, &world.bounding_boxes);
        let goals = collect_boxes(&world.goals, &world.bounding_boxes);
        match collision_outcome(&players, &enemies, &goals) {
            Some(status) => {
                world.game_status = status;
            },
            None => {},
        }
    }
}

impl Animator {
    /// Clip selection, then frame advance, on every entity; nothing but the
    /// animations and sprites changes.
    pub fn run(&mut self, world: &mut World)
        requires
            old(world).wf(),
        ensures
            final(world).wf(),
            *final(world) == (World {
                animations: final(world).animations,
                sprites: final(world).sprites,
                ..*old(world)
            }),
            final(world).animations@ == advanced_animations(*old(world), selected_animations(*old(world))),
            final(world).sprites@ == advanced_sprites(*old(world), selected_animations(*old(world))),
    {
        Self::select_clips(world);
        Self::advance_frames(world);
    }

    fn select_clips(world: &mut World)
        requires
            old(world).wf(),
        ensures
            final(world).wf(),
            *final(world) == (World { animations: final(world).animations, ..*old(world) }),
            final(world).animations@ == selected_animations(*old(world)),
    {
        let ghost w0 = *world;
        let now = world.clock;
        let n = world.velocities.slots.len();
        let mut i: usize = 0;
        while i < n
            invariant
                w0.wf(),
                world.wf(),
                now == w0.clock,
                *world == (World { animations: world.animations, ..w0 }),
                n == w0.velocities.slots@.len(),
                forall|e: Entity| #[trigger]
                    entry_of(world.animations@, e) == (if e.index < i && animates(w0, e) {
                        selection_of(w0, e)
                    } else {
                        entry_of(w0.animations@, e)
                    }),
            decreases n - i,
        {
            let ghost before = world.animations@;
            let slot = world.velocities.entry_at(i);
            if let Some(e) = slot {
                if world.movement_animations.contains(e) {
                    let m = *world.movement_animations.get(e).unwrap();
                    let v = *world.velocities.get(e).unwrap();
                    let current = match world.animations.get(e) {
                        Some(a) => Some(*a),
                        None => None,
                    };
                    assert(entry_of(before, e) == entry_of(w0.animations@, e));
                    assert(current == entry_of(w0.animations@, e));
                    let chosen = select_animation(v, &m, current, now);
                    match chosen {
                        Some(a) => {
                            proof {
                                let f = m.for_direction(v.direction);
                                assert(world.movement_animations_ok(m));
                                assert(world.animation_ok(f));
                                assert(world.clips@[f.frames.0 as int]@.len() > 0);
                                lemma_insert_live(*world, world.animations@, e, a);
                            }
                            world.animations.insert(e, a);
                        },
                        None => {
                            world.animations.remove(e);
                        },
                    }
                    assert(entry_of(world.animations@, e) == selection_of(w0, e));
                }
            }
            proof {
                assert forall|k: Entity| #[trigger]
                    entry_of(world.animations@, k) == (if k.index < i + 1 && animates(w0, k) {
                        selection_of(w0, k)
                    } else {
                        entry_of(w0.animations@, k)
                    }) by {
                    assert(entry_of(before, k) == (if k.index < i && animates(w0, k) {
                        selection_of(w0, k)
                    } else {
                        entry_of(w0.animations@, k)
                    }));
                    if k.index == i && animates(w0, k) {
                        assert(w0.velocities@.contains_key(k));
                        assert(slot.is_some());
                        assert(slot.unwrap() == k);
                    }
                    if slot.is_some() && slot.unwrap() != k {
                        assert(entry_of(world.animations@, k) == entry_of(before, k));
                    }
                    if slot.is_some() && slot.unwrap() == k && !animates(w0, k) {
                        assert(entry_of(world.animations@, k) == entry_of(before, k));
                    }
                }
            }
            i = i + 1;
        }
        assert(world.animations@ =~= selected_animations(w0)) by {
            assert forall|e: Entity| #[trigger] world.animations@.contains_key(e) == selected_animations(w0).contains_key(e)
                && (world.animations@.contains_key(e) ==> world.animations@[e] == selected_animations(w0)[e]) by {
                assert(entry_of(world.animations@, e) == (if animates(w0, e) {
                    selection_of(w0, e)
                } else {
                    entry_of(w0.animations@, e)
                }));
            }
        }
    }

    fn advance_frames(world: &mut World)
        requires
            old(world).wf(),
        ensures
            final(world).wf(),
            *final(world) == (World {
                animations: final(world).animations,
                sprites: final(world).sprites,
                ..*old(world)
            }),
            final(world).animations@ == advanced_animations(*old(world), old(world).animations@),
            final(world).sprites@ == advanced_sprites(*old(world), old(world).animations@),
    {
        let ghost w0 = *world;
        let now = world.clock;
        let n = world.animations.slots.len();
        let mut i: usize = 0;
        while i < n
            invariant
                w0.wf(),
                world.wf(),
                now == w0.clock,
                *world == (World { animations: world.animations, sprites: world.sprites, ..w0 }),
                world.animations.slots@.len() == n,
                world.animations@.dom() == w0.animations@.dom(),
                world.sprites@.dom() == w0.sprites@.dom(),
                forall|e: Entity| #[trigger]
                    w0.animations@.contains_key(e) ==> world.animations@[e] == (if e.index < i
                        && w0.sprites@.contains_key(e) {
                        advanced(w0.animations@[e], w0.sprites@[e], clip_of(w0, w0.animations@[e]), now).0
                    } else {
                        w0.animations@[e]
                    }),
                forall|e: Entity| #[trigger]
                    w0.sprites@.contains_key(e) ==> world.sprites@[e] == (if e.index < i
                        && w0.animations@.contains_key(e) {
                        advanced(w0.animations@[e], w0.sprites@[e], clip_of(w0, w0.animations@[e]), now).1
                    } else {
                        w0.sprites@[e]
                    }),
            decreases n - i,
        {
            if let Some(e) = world.animations.entry_at(i) {
                if world.sprites.contains(e) {
                    let a = *world.animations.get(e).unwrap();
                    let s = *world.sprites.get(e).unwrap();
                    assert(world.animation_ok(a));
                    let (na, ns) = advance_animation(a, s, &world.clips[a.frames.0], now);
                    world.animations.replace(e, na);
                    world.sprites.replace(e, ns);
                }
            }
            i = i + 1;
        }
        assert(world.animations@ =~= advanced_animations(w0, w0.animations@));
        assert(world.sprites@ =~= advanced_sprites(w0, w0.animations@));
    }
}

impl Movement {
    /// Moves every entity with a `Velocity` and a `BoundingBox` for the frame's
    /// time delta; nothing else changes.
    pub fn run(&mut self, world: &mut World)
        requires
            old(world).wf(),
            old(self).world_bounds.wf(),
        ensures
            final(world).wf(),
            *final(self) == *old(self),
            *final(world) == (World { bounding_boxes: final(world).bounding_boxes, ..*old(world) }),
            final(world).bounding_boxes@ == moved_boxes(*old(world), old(self).world_bounds),
    {
        let ghost w0 = *world;
        let bounds = self.world_bounds;
        let n = world.bounding_boxes.slots.len();
        let mut i: usize = 0;
        while i < n
            invariant
                w0.wf(),
                world.wf(),
                bounds.wf(),
                *world == (World { bounding_boxes: world.bounding_boxes, ..w0 }),
                world.bounding_boxes.slots@.len() == n,
                world.bounding_boxes@.dom() == w0.bounding_boxes@.dom(),
                forall|e: Entity| #[trigger]
                    w0.bounding_boxes@.contains_key(e) ==> world.bounding_boxes@[e] == (if e.index < i
                        && w0.velocities@.contains_key(e) {
                        moved(bounds, w0.velocities@[e], w0.bounding_boxes@[e], w0.time_delta)
                    } else {
                        w0.bounding_boxes@[e]
                    }),
            decreases n - i,
        {
            if let Some(e) = world.bounding_boxes.entry_at(i) {
                if world.velocities.contains(e) {
                    let v = *world.velocities.get(e).unwrap();
                    let b = *world.bounding_boxes.get(e).unwrap();
                    let nb = move_box(bounds, v, b, world.time_delta);
                    world.bounding_boxes.replace(e, nb);
                }
            }
            i = i + 1;
        }
        assert(world.bounding_boxes@ =~= moved_boxes(w0, bounds));
    }
}

} // verus!
