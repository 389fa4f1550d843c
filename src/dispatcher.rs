use vstd::prelude::*;

use rand::rngs::StdRng;

use crate::scheduler::{deps_in_range, deps_view, find_name, index_of, schedule_order, valid_order};
use crate::systems::{
    advanced_animations, advanced_sprites, ai_stepped, checked_status, moved_boxes,
    selected_animations, steered_velocities, Animator, Keyboard, Movement, WinLoseChecker, AI,
};
use crate::resources::{GameOver, KeyboardEvent, TimeDelta};
use crate::world::{maintained, maintained_with, World};

verus! {

/// One of the systems of the game.
#[derive(Debug, Clone, Copy)]
pub enum AnySystem {
    Keyboard(Keyboard),
    AI(AI),
    Movement(Movement),
    WinLoseChecker(WinLoseChecker),
    Animator(Animator),
}

/// `w2` is a world that running `s` on `w` can give.
pub open spec fn system_step(s: AnySystem, w: World, w2: World) -> bool {
    match s {
        AnySystem::Keyboard(_) => {
            &&& w2 == (World { velocities: w2.velocities, ..w })
            &&& w2.velocities@ == steered_velocities(w)
        },
        AnySystem::AI(_) => ai_stepped(w, w2),
        AnySystem::Movement(m) => {
            &&& w2 == (World { bounding_boxes: w2.bounding_boxes, ..w })
            &&& w2.bounding_boxes@ == moved_boxes(w, m.world_bounds)
        },
        AnySystem::WinLoseChecker(_) => w2 == (World { game_status: checked_status(w), ..w }),
        AnySystem::Animator(_) => {
            &&& w2 == (World { animations: w2.animations, sprites: w2.sprites, ..w })
            &&& w2.animations@ == advanced_animations(w, selected_animations(w))
            &&& w2.sprites@ == advanced_sprites(w, selected_animations(w))
        },
    }
}

/// `trace` runs from `w` to `w2` with one step of each stage in turn.
pub open spec fn is_trace(stages: Seq<AnySystem>, w: World, w2: World, trace: Seq<World>) -> bool {
    &&& trace.len() == stages.len() + 1
    &&& trace[0] == w
    &&& trace.last() == w2
    &&& forall|k: int| 0 <= k < stages.len() ==> system_step(#[trigger] stages[k], trace[k], trace[k + 1])
}

impl AnySystem {
    /// The system can run: a movement system needs well-formed world bounds.
    pub open spec fn runnable(self) -> bool {
        match self {
            AnySystem::Movement(m) => m.world_bounds.wf(),
            _ => true,
        }
    }

    /// Runs the system once on the world.
    pub fn run(&mut self, world: &mut World, rng: &mut StdRng)
        requires
            old(world).wf(),
            old(self).runnable(),
        ensures
            final(world).wf(),
            *final(self) == *old(self),
            system_step(*old(self), *old(world), *final(world)),
    {
        match self {
            AnySystem::Keyboard(s) => s.run(world),
            AnySystem::AI(s) => s.run(world, rng),
            AnySystem::Movement(s) => s.run(world),
            AnySystem::WinLoseChecker(s) => s.run(world),
            AnySystem::Animator(s) => s.run(world),
        }
    }
}

/// A system with its name and the names of the systems that must run before it in
/// each frame.
#[derive(Debug)]
pub struct SystemEntry {
    pub system: AnySystem,
    pub name: String,
    pub dependencies: Vec<String>,
}

/// Why a set of systems cannot be scheduled.
#[derive(Debug)]
pub enum ScheduleError {
    /// A dependency names no registered system
    UnknownDependency(String),
    /// The dependencies hold a cycle
    Cycle,
}

/// Collects the systems of the game and their dependencies.
#[derive(Debug)]
pub struct DispatcherBuilder {
    pub entries: Vec<SystemEntry>,
}

/// The systems in an order that runs each one after its dependencies.
#[derive(Debug)]
pub struct Dispatcher {
    pub stages: Vec<AnySystem>,
}

/// The names of the registered systems.
pub open spec fn entry_names(entries: Seq<SystemEntry>) -> Seq<Seq<char>> {
    entries.map_values(|e: SystemEntry| e.name@)
}

/// Dependency `j` of system `i` names a registered system.
pub open spec fn resolves(entries: Seq<SystemEntry>, i: int, j: int) -> bool {
    index_of(entry_names(entries), entries[i].dependencies@[j]@) >= 0
}

/// Every dependency names a registered system.
pub open spec fn all_resolved(entries: Seq<SystemEntry>) -> bool {
    forall|i: int, j: int|
        0 <= i < entries.len() && 0 <= j < entries[i].dependencies@.len() ==> #[trigger] resolves(
            entries,
            i,
            j,
        )
}

/// The dependencies of each system as positions of systems (the first system of
/// that name).
pub open spec fn dependency_indices(entries: Seq<SystemEntry>) -> Seq<Seq<usize>> {
    entries.map_values(
        |e: SystemEntry|
            e.dependencies@.map_values(|d: String| index_of(entry_names(entries), d@) as usize),
    )
}

impl DispatcherBuilder {
    /// A builder with no system.
    pub fn new() -> (b: DispatcherBuilder)
        ensures
            b.entries@.len() == 0,
    {
        DispatcherBuilder { entries: Vec::new() }
    }

    /// Adds a system under `name`, to run after the systems named in `dependencies`.
    pub fn with(self, system: AnySystem, name: String, dependencies: Vec<String>) -> (b: DispatcherBuilder)
        ensures
            b.entries@ == self.entries@.push(SystemEntry { system, name, dependencies }),
    {
        let mut entries = self.entries;
        entries.push(SystemEntry { system, name, dependencies });
        DispatcherBuilder { entries }
    }

    /// Orders the systems. Fails when a dependency names no system, or when no order
    /// runs every system after its dependencies (a cycle).
    pub fn build(self) -> (r: Result<Dispatcher, ScheduleError>)
        ensures
            (r matches Err(ScheduleError::UnknownDependency(_))) == !all_resolved(self.entries@),
            (r matches Err(ScheduleError::Cycle)) == (all_resolved(self.entries@) && !exists|
                order: Seq<usize>,
            | valid_order(dependency_indices(self.entries@), order)),
            r is Ok ==> exists|order: Seq<usize>|
                valid_order(dependency_indices(self.entries@), order) && r->Ok_0.stages@ == order.map_values(
                    |p: usize| self.entries@[p as int].system,
                ),
    {
        let ghost es = self.entries@;
        let ghost names_view = entry_names(es);
        let n = self.entries.len();
        let mut names: Vec<String> = Vec::new();
        let mut i: usize = 0;
        while i < n
            invariant
                n == es.len(),
                es == self.entries@,
                i <= n,
                names@.len() == i,
                forall|k: int| 0 <= k < i ==> #[trigger] names@[k]@ == es[k].name@,
            decreases n - i,
        {
            names.push(self.entries[i].name.clone());
            i = i + 1;
        }
        assert(names@.map_values(|s: String| s@) =~= names_view);
        let ghost di = dependency_indices(es);
        let mut deps: Vec<Vec<usize>> = Vec::new();
        let mut i: usize = 0;
        while i < n
            invariant
                n == es.len(),
                es == self.entries@,
                names_view == entry_names(es),
                names@.map_values(|s: String| s@) == names_view,
                di == dependency_indices(es),
                i <= n,
                deps@.len() == i,
                forall|k: int| 0 <= k < i ==> #[trigger] deps@[k]@ == di[k],
                forall|k: int, j: int|
                    0 <= k < i && 0 <= j < es[k].dependencies@.len() ==> #[trigger] resolves(es, k, j),
            decreases n - i,
        {
            let m = self.entries[i].dependencies.len();
            let mut list: Vec<usize> = Vec::new();
            let mut j: usize = 0;
            while j < m
                invariant
                    n == es.len(),
                    es == self.entries@,
                    names_view == entry_names(es),
                    names@.map_values(|s: String| s@) == names_view,
                    di == dependency_indices(es),
                    i < n,
                    m == es[i as int].dependencies@.len(),
                    j <= m,
                    list@.len() == j,
                    forall|l: int| 0 <= l < j ==> #[trigger] list@[l] == di[i as int][l],
                    forall|l: int| 0 <= l < j ==> #[trigger] resolves(es, i as int, l),
                decreases m - j,
            {
                match find_name(&names, &self.entries[i].dependencies[j]) {
                    Some(k) => {
                        list.push(k);
                    },
                    None => {
                        assert(!resolves(es, i as int, j as int));
                        return Err(ScheduleError::UnknownDependency(self.entries[i].dependencies[j].clone()));
                    },
                }
                j = j + 1;
            }
            assert(list@ =~= di[i as int]);
            deps.push(list);
            i = i + 1;
        }
        assert(deps_view(deps@) =~= di);
        assert(all_resolved(es));
        assert forall|a: int, b: int| 0 <= a < di.len() && 0 <= b < di[a].len() implies #[trigger] di[a][b] < di.len() by {
            assert(resolves(es, a, b));
            crate::scheduler::lemma_index_of_bound(names_view, es[a].dependencies@[b]@);
        }
        assert(deps_in_range(deps_view(deps@)));
        match schedule_order(&deps) {
            None => Err(ScheduleError::Cycle),
            Some(order) => {
                let mut stages: Vec<AnySystem> = Vec::new();
                let mut p: usize = 0;
                while p < order.len()
                    invariant
                        n == es.len(),
                        es == self.entries@,
                        valid_order(di, order@),
                        di.len() == n,
                        p <= order@.len(),
                        stages@.len() == p,
                        forall|q: int| 0 <= q < p ==> #[trigger] stages@[q] == es[order@[q] as int].system,
                    decreases order.len() - p,
                {
                    assert(order@[p as int] < n);
                    stages.push(self.entries[order[p]].system);
                    p = p + 1;
                }
                assert(stages@ =~= order@.map_values(|q: usize| es[q as int].system));
                Ok(Dispatcher { stages })
            },
        }
    }
}

impl Dispatcher {
    /// Every stage can run.
    pub open spec fn runnable(self) -> bool {
        forall|k: int| 0 <= k < self.stages@.len() ==> (#[trigger] self.stages@[k]).runnable()
    }

    /// Runs every system once, in order. The worlds between the stages form a trace
    /// in which each stage takes one step of its system.
    pub fn dispatch(&mut self, world: &mut World, rng: &mut StdRng)
        requires
            old(world).wf(),
            old(self).runnable(),
        ensures
            final(world).wf(),
            *final(self) == *old(self),
            final(world).slots == old(world).slots,
            final(world).doomed == old(world).doomed,
            final(world).queued == old(world).queued,
            final(world).clips == old(world).clips,
            final(world).clock == old(world).clock,
            final(world).time_delta == old(world).time_delta,
            final(world).keyboard_event == old(world).keyboard_event,
            exists|trace: Seq<World>| is_trace(old(self).stages@, *old(world), *final(world), trace),
    {
        let ghost trace: Seq<World> = seq![*world];
        let mut k: usize = 0;
        while k < self.stages.len()
            invariant
                *self == *old(self),
                self.runnable(),
                world.wf(),
                k <= self.stages@.len(),
                trace.len() == k + 1,
                trace[0] == *old(world),
                trace.last() == *world,
                world.slots == old(world).slots,
                world.doomed == old(world).doomed,
                world.queued == old(world).queued,
                world.clips == old(world).clips,
                world.clock == old(world).clock,
                world.time_delta == old(world).time_delta,
                world.keyboard_event == old(world).keyboard_event,
                forall|q: int| 0 <= q < k ==> system_step(#[trigger] self.stages@[q], trace[q], trace[q + 1]),
            decreases self.stages.len() - k,
        {
            let mut s = self.stages[k];
            assert(s.runnable());
            s.run(world, rng);
            proof {
                trace = trace.push(*world);
            }
            k = k + 1;
        }
        assert(is_trace(self.stages@, *old(world), *world, trace));
    }
}

/// The world at the start of a frame that lasts `dt`, with input intent `event`:
/// the clock has moved on by `dt`, and nothing else has changed.
pub open spec fn frame_start(w: World, event: Option<KeyboardEvent>, dt: TimeDelta) -> World {
    World { keyboard_event: event, clock: (w.clock + dt.0) as u64, time_delta: dt, ..w }
}

/// One frame of the game loop: hands the frame's input intent to the world, moves
/// the clock on by `dt`, runs every system once in the dispatcher's order, applies
/// the frame's entity requests (maintenance), and says whether the loop must stop
/// (the game is won or lost).
pub fn run_frame(
    dispatcher: &mut Dispatcher,
    world: &mut World,
    rng: &mut StdRng,
    event: Option<KeyboardEvent>,
    dt: TimeDelta,
) -> (g: GameOver)
    requires
        old(world).wf(),
        old(dispatcher).runnable(),
        old(world).clock + dt.0 <= u64::MAX,
    ensures
        final(world).wf(),
        *final(dispatcher) == *old(dispatcher),
        (g == GameOver::Yes) == final(world).game_status.ends_game(),
        final(world).clock == old(world).clock + dt.0,
        final(world).time_delta == dt,
        final(world).keyboard_event == event,
        final(world).clips == old(world).clips,
        forall|e: crate::storage::Entity| #[trigger] old(world).retired(e) ==> final(world).retired(e),
        exists|mid: World, trace: Seq<World>|
            #[trigger] is_trace(old(dispatcher).stages@, frame_start(*old(world), event, dt), mid, trace)
                && maintained(mid, *final(world)),
{
    world.set_keyboard_event(event);
    world.advance_clock(dt);
    let ghost start = *world;
    assert(start == frame_start(*old(world), event, dt));
    dispatcher.dispatch(world, rng);
    let ghost mid = *world;
    let created = world.maintain();
    proof {
        assert forall|e: crate::storage::Entity| #[trigger] old(world).retired(e) implies world.retired(e) by {
            assert(mid.retired(e));
        }
        let trace = choose|trace: Seq<World>| is_trace(dispatcher.stages@, start, mid, trace);
        assert(maintained_with(mid, *world, created@));
        assert(maintained(mid, *world));
        assert(is_trace(old(dispatcher).stages@, start, mid, trace) && maintained(mid, *world));
    }
    world.game_status.game_over()
}

} // verus!
