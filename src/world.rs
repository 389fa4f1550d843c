use vstd::prelude::*;

use crate::components::{
    Animation, BoundingBox, ClipId, Enemy, Frame, Goal, MovementAnimations, Player, Sprite,
    Velocity,
};
use crate::resources::{GameStatus, KeyboardEvent, TimeDelta};
use crate::storage::{same_slot, Entity, Storage};

verus! {

/// `b` is what maintenance makes of `a`, creating the entities `created`: every
/// requested destruction of a live entity is applied (its identity retires), every
/// other live entity keeps its components, each queued component set becomes a
/// new entity in order, both queues are emptied, and the clips, clock, time delta,
/// input intent and status stay as they were.
pub open spec fn maintained_with(a: World, b: World, created: Seq<Entity>) -> bool {
    &&& b.doomed@.len() == 0
    &&& b.queued@.len() == 0
    &&& b.clips == a.clips
    &&& b.clock == a.clock
    &&& b.time_delta == a.time_delta
    &&& b.keyboard_event == a.keyboard_event
    &&& b.game_status == a.game_status
    &&& forall|e: Entity| a.is_alive(e) && a.doomed@.contains(e) ==> #[trigger] b.retired(e)
    &&& forall|e: Entity|
        a.is_alive(e) && !a.doomed@.contains(e) ==> #[trigger] b.is_alive(e) && b.same_components(a, e)
    &&& forall|e: Entity| #[trigger] a.retired(e) ==> b.retired(e)
    &&& created.len() == a.queued@.len()
    &&& forall|j: int|
        0 <= j < created.len() ==> !a.is_alive(#[trigger] created[j]) && b.is_alive(created[j])
            && b.holds_components(created[j], a.queued@[j])
    &&& forall|e: Entity| #[trigger] b.is_alive(e) ==> a.is_alive(e) || created.contains(e)
}

/// `b` is what maintenance makes of `a`.
pub open spec fn maintained(a: World, b: World) -> bool {
    exists|created: Seq<Entity>| maintained_with(a, b, created)
}

/// A bounding box has a positive width and height.
pub open spec fn box_ok(b: BoundingBox) -> bool {
    b.0.width > 0 && b.0.height > 0
}

/// A speed is never negative.
pub open spec fn velocity_ok(v: Velocity) -> bool {
    v.speed >= 0
}

/// A player's movement speed is never negative.
pub open spec fn player_ok(p: Player) -> bool {
    p.movement_speed >= 0
}

/// The state of one registry slot.
#[derive(Debug, Clone, Copy, PartialEq, Eq, Structural)]
pub enum SlotState {
    /// Free; the next entity created here gets this generation.
    Vacant(u64),
    /// Holds the live entity of this generation.
    Live(u64),
    /// Its generations are used up: it is never handed out again.
    Retired,
}

/// The lowest generation that a slot in this state can still give to a live entity.
pub open spec fn generation_floor(s: SlotState) -> int {
    match s {
        SlotState::Vacant(g) => g as int,
        SlotState::Live(g) => g as int,
        SlotState::Retired => u64::MAX as int + 1,
    }
}

/// The components of one entity, each one optional.
#[derive(Debug, Clone, Copy, PartialEq, Eq, Structural)]
pub struct EntityComponents {
    pub bounding_box: Option<BoundingBox>,
    pub velocity: Option<Velocity>,
    pub sprite: Option<Sprite>,
    pub animation: Option<Animation>,
    pub movement_animations: Option<MovementAnimations>,
    pub player: Option<Player>,
    pub enemy: Option<Enemy>,
    pub goal: Option<Goal>,
}

/// `m` holds the component `c` of `e`, or nothing when `c` is `None`.
pub open spec fn holds_opt<T>(m: Map<Entity, T>, e: Entity, c: Option<T>) -> bool {
    &&& m.contains_key(e) == c.is_some()
    &&& c.is_some() ==> m[e] == c.unwrap()
}

/// `e` is present in `a` exactly when it is in `b`, with the same component.
pub open spec fn same_entry<T>(a: Map<Entity, T>, b: Map<Entity, T>, e: Entity) -> bool {
    &&& a.contains_key(e) == b.contains_key(e)
    &&& a.contains_key(e) ==> a[e] == b[e]
}

/// Entities, their components, the shared clips and the per-frame resources.
pub struct World {
    /// The entity registry
    pub slots: Vec<SlotState>,
    /// Entities to destroy at the next maintenance
    pub doomed: Vec<Entity>,
    /// Entities to create at the next maintenance
    pub queued: Vec<EntityComponents>,
    /// Simulated time in microseconds, advanced once per frame
    pub clock: u64,
    /// The immutable clips, addressed by `ClipId`
    pub clips: Vec<Vec<Frame>>,
    pub bounding_boxes: Storage<BoundingBox>,
    pub velocities: Storage<Velocity>,
    pub sprites: Storage<Sprite>,
    pub animations: Storage<Animation>,
    pub movement_animations: Storage<MovementAnimations>,
    pub players: Storage<Player>,
    pub enemies: Storage<Enemy>,
    pub goals: Storage<Goal>,
    /// The time elapsed during the current frame
    pub time_delta: TimeDelta,
    /// The input intent of the current frame
    pub keyboard_event: Option<KeyboardEvent>,
    pub game_status: GameStatus,
}

impl World {
    /// `e` is a live entity.
    pub open spec fn is_alive(self, e: Entity) -> bool {
        &&& e.index < self.slots@.len()
        &&& self.slots@[e.index as int] == SlotState::Live(e.generation)
    }

    /// `e` can never be alive again: its slot has moved past its generation.
    pub open spec fn retired(self, e: Entity) -> bool {
        &&& e.index < self.slots@.len()
        &&& e.generation < generation_floor(self.slots@[e.index as int])
    }

    /// Every entity with a component in `m` is alive.
    pub open spec fn keyed_by_live<T>(self, m: Map<Entity, T>) -> bool {
        forall|k: Entity| #[trigger] m.contains_key(k) ==> self.is_alive(k)
    }

    /// The animation refers to a clip of this world and to a frame of that clip.
    pub open spec fn animation_ok(self, a: Animation) -> bool {
        &&& a.frames.0 < self.clips@.len()
        &&& a.current_frame < self.clips@[a.frames.0 as int]@.len()
    }

    pub open spec fn movement_animations_ok(self, m: MovementAnimations) -> bool {
        &&& self.animation_ok(m.walking_up)
        &&& self.animation_ok(m.walking_down)
        &&& self.animation_ok(m.walking_left)
        &&& self.animation_ok(m.walking_right)
    }

    /// The components of `c` are valid: a box has a positive size, speeds are not
    /// negative, and the animations refer to clips of this world.
    pub open spec fn components_ok(self, c: EntityComponents) -> bool {
        &&& c.bounding_box.is_some() ==> box_ok(c.bounding_box.unwrap())
        &&& c.velocity.is_some() ==> velocity_ok(c.velocity.unwrap())
        &&& c.player.is_some() ==> player_ok(c.player.unwrap())
        &&& c.animation.is_some() ==> self.animation_ok(c.animation.unwrap())
        &&& c.movement_animations.is_some() ==> self.movement_animations_ok(
            c.movement_animations.unwrap(),
        )
    }

    /// Components belong to live entities only, boxes have a positive size, speeds
    /// are not negative, clips are not empty, and every animation refers to an
    /// existing clip and frame.
    pub open spec fn wf(self) -> bool {
        &&& self.keyed_by_live(self.bounding_boxes@)
        &&& self.keyed_by_live(self.velocities@)
        &&& self.keyed_by_live(self.sprites@)
        &&& self.keyed_by_live(self.animations@)
        &&& self.keyed_by_live(self.movement_animations@)
        &&& self.keyed_by_live(self.players@)
        &&& self.keyed_by_live(self.enemies@)
        &&& self.keyed_by_live(self.goals@)
        &&& forall|e: Entity| #[trigger]
            self.bounding_boxes@.contains_key(e) ==> box_ok(self.bounding_boxes@[e])
        &&& forall|e: Entity| #[trigger]
            self.velocities@.contains_key(e) ==> velocity_ok(self.velocities@[e])
        &&& forall|e: Entity| #[trigger] self.players@.contains_key(e) ==> player_ok(self.players@[e])
        &&& forall|i: int| 0 <= i < self.clips@.len() ==> #[trigger] self.clips@[i]@.len() > 0
        &&& forall|e: Entity| #[trigger]
            self.animations@.contains_key(e) ==> self.animation_ok(self.animations@[e])
        &&& forall|e: Entity| #[trigger]
            self.movement_animations@.contains_key(e) ==> self.movement_animations_ok(
                self.movement_animations@[e],
            )
        &&& forall|k: int| 0 <= k < self.queued@.len() ==> self.components_ok(#[trigger] self.queued@[k])
    }

    /// `e` holds exactly the components of `c`.
    pub open spec fn holds_components(self, e: Entity, c: EntityComponents) -> bool {
        &&& holds_opt(self.bounding_boxes@, e, c.bounding_box)
        &&& holds_opt(self.velocities@, e, c.velocity)
        &&& holds_opt(self.sprites@, e, c.sprite)
        &&& holds_opt(self.animations@, e, c.animation)
        &&& holds_opt(self.movement_animations@, e, c.movement_animations)
        &&& holds_opt(self.players@, e, c.player)
        &&& holds_opt(self.enemies@, e, c.enemy)
        &&& holds_opt(self.goals@, e, c.goal)
    }

    /// `e` has the same components in `self` and in `other`.
    pub open spec fn same_components(self, other: World, e: Entity) -> bool {
        &&& same_entry(self.bounding_boxes@, other.bounding_boxes@, e)
        &&& same_entry(self.velocities@, other.velocities@, e)
        &&& same_entry(self.sprites@, other.sprites@, e)
        &&& same_entry(self.animations@, other.animations@, e)
        &&& same_entry(self.movement_animations@, other.movement_animations@, e)
        &&& same_entry(self.players@, other.players@, e)
        &&& same_entry(self.enemies@, other.enemies@, e)
        &&& same_entry(self.goals@, other.goals@, e)
    }

    /// A world with no entity, no clip, the clock at 0 and the game running.
    pub fn new() -> (w: World)
        ensures
            w.wf(),
            w.slots@.len() == 0,
            w.doomed@.len() == 0,
            w.queued@.len() == 0,
            w.clips@.len() == 0,
            w.clock == 0,
            w.time_delta == TimeDelta(0),
            w.keyboard_event.is_none(),
            w.game_status == GameStatus::Running,
            w.bounding_boxes@ == Map::<Entity, BoundingBox>::empty(),
            w.velocities@ == Map::<Entity, Velocity>::empty(),
            w.sprites@ == Map::<Entity, Sprite>::empty(),
            w.animations@ == Map::<Entity, Animation>::empty(),
            w.movement_animations@ == Map::<Entity, MovementAnimations>::empty(),
            w.players@ == Map::<Entity, Player>::empty(),
            w.enemies@ == Map::<Entity, Enemy>::empty(),
            w.goals@ == Map::<Entity, Goal>::empty(),
    {
        World {
            slots: Vec::new(),
            doomed: Vec::new(),
            queued: Vec::new(),
            clock: 0,
            clips: Vec::new(),
            bounding_boxes: Storage::new(),
            velocities: Storage::new(),
            sprites: Storage::new(),
            animations: Storage::new(),
            movement_animations: Storage::new(),
            players: Storage::new(),
            enemies: Storage::new(),
            goals: Storage::new(),
            time_delta: TimeDelta(0),
            keyboard_event: None,
            game_status: GameStatus::Running,
        }
    }

    /// Whether `e` is alive.
    pub fn is_alive_now(&self, e: Entity) -> (b: bool)
        ensures
            b == self.is_alive(e),
    {
        e.index < self.slots.len() && self.slots[e.index] == SlotState::Live(e.generation)
    }

    /// Hands out a slot: the first vacant one, or a new one at the end.
    fn allocate(&mut self) -> (e: Entity)
        requires
            old(self).wf(),
        ensures
            *final(self) == (World { slots: final(self).slots, ..*old(self) }),
            !old(self).is_alive(e),
            final(self).is_alive(e),
            forall|k: Entity| k != e ==> final(self).is_alive(k) == old(self).is_alive(k),
            forall|k: Entity| old(self).retired(k) ==> final(self).retired(k),
            !final(self).retired(e),
            final(self).wf(),
    {
        let mut i: usize = 0;
        while i < self.slots.len()
            invariant
                *self == *old(self),
                old(self).wf(),
                i <= self.slots@.len(),
                forall|j: int| 0 <= j < i ==> !(self.slots@[j] is Vacant),
            decreases self.slots.len() - i,
        {
            match self.slots[i] {
                SlotState::Vacant(g) => {
                    self.slots.set(i, SlotState::Live(g));
                    let e = Entity { index: i, generation: g };
                    assert forall|k: Entity| k != e implies self.is_alive(k) == old(self).is_alive(k) by {
                        if k.index == i {
                            assert(self.slots@[i as int] == SlotState::Live(g));
                        }
                    }
                    assert forall|k: Entity| old(self).is_alive(k) implies #[trigger] self.is_alive(k) by {
                        assert(k != e);
                    }

                    return e;
                },
                _ => {},
            }
            i = i + 1;
        }
        let n = self.slots.len();
        self.slots.push(SlotState::Live(0));
        Entity { index: n, generation: 0 }
    }

    /// Gives the live entity `e`, which has no component yet, the components of `c`.
    fn attach(&mut self, e: Entity, c: EntityComponents)
        requires
            old(self).wf(),
            old(self).is_alive(e),
            old(self).holds_components(e, bare_components()),
            old(self).components_ok(c),
        ensures
            final(self).wf(),
            final(self).slots == old(self).slots,
            final(self).doomed == old(self).doomed,
            final(self).queued == old(self).queued,
            final(self).clips == old(self).clips,
            final(self).clock == old(self).clock,
            final(self).time_delta == old(self).time_delta,
            final(self).keyboard_event == old(self).keyboard_event,
            final(self).game_status == old(self).game_status,
            final(self).holds_components(e, c),
            forall|k: Entity| k != e ==> final(self).same_components(*old(self), k),
    {
        let ghost w = *self;
        if let Some(v) = c.bounding_box {
            proof {
                lemma_insert_live(w, self.bounding_boxes@, e, v);
            }
            self.bounding_boxes.insert(e, v);
        }
        if let Some(v) = c.velocity {
            proof {
                lemma_insert_live(w, self.velocities@, e, v);
            }
            self.velocities.insert(e, v);
        }
        if let Some(v) = c.sprite {
            proof {
                lemma_insert_live(w, self.sprites@, e, v);
            }
            self.sprites.insert(e, v);
        }
        if let Some(v) = c.animation {
            proof {
                lemma_insert_live(w, self.animations@, e, v);
            }
            self.animations.insert(e, v);
        }
        if let Some(v) = c.movement_animations {
            proof {
                lemma_insert_live(w, self.movement_animations@, e, v);
            }
            self.movement_animations.insert(e, v);
        }
        if let Some(v) = c.player {
            proof {
                lemma_insert_live(w, self.players@, e, v);
            }
            self.players.insert(e, v);
        }
        if let Some(v) = c.enemy {
            proof {
                lemma_insert_live(w, self.enemies@, e, v);
            }
            self.enemies.insert(e, v);
        }
        if let Some(v) = c.goal {
            proof {
                lemma_insert_live(w, self.goals@, e, v);
            }
            self.goals.insert(e, v);
        }
    }

    /// Creates a live entity with the components of `c`. Its identity was not alive
    /// before, and every other entity keeps its state and components.
    pub fn create_entity(&mut self, c: EntityComponents) -> (e: Entity)
        requires
            old(self).wf(),
            old(self).components_ok(c),
        ensures
            final(self).wf(),
            !old(self).is_alive(e),
            final(self).is_alive(e),
            !final(self).retired(e),
            final(self).holds_components(e, c),
            forall|k: Entity|
                k != e ==> final(self).is_alive(k) == old(self).is_alive(k) && final(self).same_components(*old(self), k),
            forall|k: Entity| #[trigger] old(self).retired(k) ==> final(self).retired(k),
            final(self).doomed == old(self).doomed,
            final(self).queued == old(self).queued,
            final(self).clips == old(self).clips,
            final(self).clock == old(self).clock,
            final(self).time_delta == old(self).time_delta,
            final(self).keyboard_event == old(self).keyboard_event,
            final(self).game_status == old(self).game_status,
    {
        let e = self.allocate();
        let ghost w = *self;
        self.attach(e, c);
        assert forall|k: Entity| k != e implies #[trigger] self.same_components(*old(self), k) by {
            assert(self.same_components(w, k));
        }
        e
    }

    /// Destroys the live entity `e` at once: its components go, and its slot moves
    /// on to the next generation, or retires when there is none.
    fn release(&mut self, e: Entity)
        requires
            old(self).wf(),
            old(self).is_alive(e),
        ensures
            final(self).wf(),
            final(self).retired(e),
            forall|k: Entity|
                k != e ==> final(self).is_alive(k) == old(self).is_alive(k) && final(self).same_components(*old(self), k),
            forall|k: Entity| #[trigger] old(self).retired(k) ==> final(self).retired(k),
            final(self).doomed == old(self).doomed,
            final(self).queued == old(self).queued,
            final(self).clips == old(self).clips,
            final(self).clock == old(self).clock,
            final(self).time_delta == old(self).time_delta,
            final(self).keyboard_event == old(self).keyboard_event,
            final(self).game_status == old(self).game_status,
    {
        self.bounding_boxes.remove(e);
        self.velocities.remove(e);
        self.sprites.remove(e);
        self.animations.remove(e);
        self.movement_animations.remove(e);
        self.players.remove(e);
        self.enemies.remove(e);
        self.goals.remove(e);
        if e.generation < u64::MAX {
            self.slots.set(e.index, SlotState::Vacant(e.generation + 1));
        } else {
            self.slots.set(e.index, SlotState::Retired);
        }
    }

    /// Asks for `e` to be destroyed at the next maintenance; nothing changes before.
    pub fn destroy(&mut self, e: Entity)
        requires
            old(self).wf(),
        ensures
            final(self).wf(),
            *final(self) == (World { doomed: final(self).doomed, ..*old(self) }),
            final(self).doomed@ == old(self).doomed@.push(e),
    {
        self.doomed.push(e);
    }

    /// Asks for an entity with the components of `c` to be created at the next
    /// maintenance; nothing changes before.
    pub fn create_later(&mut self, c: EntityComponents)
        requires
            old(self).wf(),
            old(self).components_ok(c),
        ensures
            final(self).wf(),
            *final(self) == (World { queued: final(self).queued, ..*old(self) }),
            final(self).queued@ == old(self).queued@.push(c),
    {
        self.queued.push(c);
    }

    /// Applies the requests of the frame: first every requested destruction of a live
    /// entity, then every requested creation, in order. Returns the created entities.
    pub fn maintain(&mut self) -> (created: Vec<Entity>)
        requires
            old(self).wf(),
        ensures
            final(self).wf(),
            maintained_with(*old(self), *final(self), created@),
    {
        let ghost w0 = *self;
        let mut k: usize = 0;
        while k < self.doomed.len()
            invariant
                self.wf(),
                k <= self.doomed@.len(),
                self.doomed == w0.doomed,
                self.queued == w0.queued,
                self.clips == w0.clips,
                self.clock == w0.clock,
                self.time_delta == w0.time_delta,
                self.keyboard_event == w0.keyboard_event,
                self.game_status == w0.game_status,
                forall|e: Entity|
                    w0.is_alive(e) && w0.doomed@.subrange(0, k as int).contains(e)
                        ==> #[trigger] self.retired(e),
                forall|e: Entity|
                    w0.is_alive(e) && !w0.doomed@.subrange(0, k as int).contains(e)
                        ==> #[trigger] self.is_alive(e) && self.same_components(w0, e),
                forall|e: Entity| #[trigger] self.is_alive(e) ==> w0.is_alive(e),
                forall|e: Entity| #[trigger] w0.retired(e) ==> self.retired(e),
            decreases self.doomed@.len() - k,
        {
            let e = self.doomed[k];
            assert(w0.doomed@.subrange(0, k + 1) =~= w0.doomed@.subrange(0, k as int).push(e));
            let ghost before = *self;
            if self.is_alive_now(e) {
                self.release(e);
            }
            proof {
                assert forall|x: Entity|
                    w0.is_alive(x) && w0.doomed@.subrange(0, k + 1).contains(x) implies #[trigger] self.retired(
                    x,
                ) by {
                    if w0.doomed@.subrange(0, k as int).contains(x) {
                        assert(before.retired(x));
                    } else {
                        assert(x == e);
                    }
                }
                assert forall|x: Entity|
                    w0.is_alive(x) && !w0.doomed@.subrange(0, k + 1).contains(x) implies #[trigger] self.is_alive(
                    x,
                ) && self.same_components(w0, x) by {
                    assert(w0.doomed@.subrange(0, k + 1)[k as int] == e);
                    assert(x != e);
                    assert(before.is_alive(x) && before.same_components(w0, x));
                }
            }
            k = k + 1;
        }
        assert(w0.doomed@.subrange(0, k as int) =~= w0.doomed@);
        let ghost w1 = *self;
        let mut created: Vec<Entity> = Vec::new();
        let mut k: usize = 0;
        while k < self.queued.len()
            invariant
                self.wf(),
                k <= self.queued@.len(),
                created@.len() == k,
                self.doomed == w1.doomed,
                self.queued == w1.queued,
                self.clips == w1.clips,
                self.clock == w1.clock,
                self.time_delta == w1.time_delta,
                self.keyboard_event == w1.keyboard_event,
                self.game_status == w1.game_status,
                forall|j: int|
                    0 <= j < k ==> !w1.is_alive(#[trigger] created@[j]) && self.is_alive(
                        created@[j],
                    ) && self.holds_components(created@[j], w1.queued@[j]),
                forall|e: Entity|
                    w1.is_alive(e) ==> #[trigger] self.is_alive(e) && self.same_components(w1, e),
                forall|e: Entity| #[trigger] self.is_alive(e) ==> w1.is_alive(e) || created@.contains(e),
                forall|e: Entity| #[trigger] w1.retired(e) ==> self.retired(e),
            decreases self.queued@.len() - k,
        {
            let c = self.queued[k];
            let ghost before = *self;
            let ghost created_before = created@;
            let e = self.create_entity(c);
            created.push(e);
            proof {
                assert forall|x: Entity| #[trigger] self.is_alive(x) implies w1.is_alive(x) || created@.contains(x) by {
                    if x == e {
                        assert(created@[k as int] == e);
                    } else {
                        assert(before.is_alive(x));
                        if created_before.contains(x) {
                            let j = choose|j: int| 0 <= j < created_before.len() && created_before[j] == x;
                            assert(created@[j] == x);
                        }
                    }
                }
            }
            k = k + 1;
        }
        let ghost w2 = *self;
        self.doomed = Vec::new();
        self.queued = Vec::new();
        proof {
            assert forall|x: Entity| w0.is_alive(x) && w0.doomed@.contains(x) implies #[trigger] self.retired(x) by {
                assert(w1.retired(x));
                assert(w2.retired(x));
            }
            assert forall|x: Entity| w0.is_alive(x) && !w0.doomed@.contains(x) implies #[trigger] self.is_alive(x)
                && self.same_components(w0, x) by {
                assert(w1.is_alive(x) && w1.same_components(w0, x));
                assert(w2.is_alive(x) && w2.same_components(w1, x));
            }
            assert forall|x: Entity| #[trigger] w0.retired(x) implies self.retired(x) by {
                assert(w1.retired(x));
                assert(w2.retired(x));
            }
            assert forall|j: int| 0 <= j < created@.len() implies !w0.is_alive(#[trigger] created@[j])
                && self.is_alive(created@[j]) && self.holds_components(created@[j], w0.queued@[j]) by {
                assert(!w1.is_alive(created@[j]) && w2.is_alive(created@[j]));
                if w0.is_alive(created@[j]) {
                    if w0.doomed@.contains(created@[j]) {
                        assert(w1.retired(created@[j]));
                        assert(w2.retired(created@[j]));
                    } else {
                        assert(w1.is_alive(created@[j]));
                    }
                }
            }
            assert forall|x: Entity| #[trigger] self.is_alive(x) implies w0.is_alive(x) || created@.contains(x) by {
                assert(w2.is_alive(x));
                if !created@.contains(x) {
                    assert(w1.is_alive(x));
                }
            }
        }
        created
    }

    /// Registers a clip and returns its handle; an empty clip is refused.
    pub fn add_clip(&mut self, frames: Vec<Frame>) -> (r: Option<ClipId>)
        requires
            old(self).wf(),
        ensures
            final(self).wf(),
            r.is_none() == (frames@.len() == 0),
            r.is_none() ==> *final(self) == *old(self),
            r.is_some() ==> r.unwrap().0 == old(self).clips@.len() && final(self).clips@ == old(
                self,
            ).clips@.push(frames) && *final(self) == (World { clips: final(self).clips, ..*old(self) }),
    {
        if frames.len() == 0 {
            return None;
        }
        let id = self.clips.len();
        self.clips.push(frames);
        Some(ClipId(id))
    }

    /// Starts a frame that lasts `dt`: the clock moves on by it and `dt` becomes
    /// the frame's time delta.
    pub fn advance_clock(&mut self, dt: TimeDelta)
        requires
            old(self).wf(),
            old(self).clock + dt.0 <= u64::MAX,
        ensures
            final(self).wf(),
            *final(self) == (World { clock: (old(self).clock + dt.0) as u64, time_delta: dt, ..*old(self) }),
    {
        self.clock = self.clock + dt.0;
        self.time_delta = dt;
    }

    /// Hands the frame's input intent to the world.
    pub fn set_keyboard_event(&mut self, event: Option<KeyboardEvent>)
        requires
            old(self).wf(),
        ensures
            final(self).wf(),
            *final(self) == (World { keyboard_event: event, ..*old(self) }),
    {
        self.keyboard_event = event;
    }
}

/// The component set with no component.
pub open spec fn bare_components() -> EntityComponents {
    EntityComponents {
        bounding_box: None,
        velocity: None,
        sprite: None,
        animation: None,
        movement_animations: None,
        player: None,
        enemy: None,
        goal: None,
    }
}

impl EntityComponents {
    /// No component at all.
    pub fn none() -> (c: EntityComponents)
        ensures
            c == bare_components(),
    {
        EntityComponents {
            bounding_box: None,
            velocity: None,
            sprite: None,
            animation: None,
            movement_animations: None,
            player: None,
            enemy: None,
            goal: None,
        }
    }
}

/// A retired identity is not alive and has no component: once its destruction is
/// applied, no table matches it again.
pub proof fn lemma_retired_is_gone(w: World, e: Entity)
    requires
        w.wf(),
        w.retired(e),
    ensures
        !w.is_alive(e),
        !w.bounding_boxes@.contains_key(e),
        !w.velocities@.contains_key(e),
        !w.sprites@.contains_key(e),
        !w.animations@.contains_key(e),
        !w.movement_animations@.contains_key(e),
        !w.players@.contains_key(e),
        !w.enemies@.contains_key(e),
        !w.goals@.contains_key(e),
{
}

/// Inserting for a live entity into a table keyed by live entities drops nothing
/// else.
pub proof fn lemma_insert_live<T>(w: World, m: Map<Entity, T>, e: Entity, v: T)
    requires
        w.is_alive(e),
        w.keyed_by_live(m),
    ensures
        m.remove_keys(same_slot(e)).insert(e, v) == m.insert(e, v),
{
    assert forall|k: Entity| #[trigger] m.contains_key(k) && k.index == e.index implies k == e by {
        assert(w.is_alive(k));
    }
    assert(m.remove_keys(same_slot(e)).insert(e, v) =~= m.insert(e, v));
}

} // verus!
