use vstd::prelude::*;

use crate::geometry::Rect;
use crate::resources::GameStatus;

verus! {

/// `r` overlaps at least one of `others`.
pub open spec fn touches_any(r: Rect, others: Seq<Rect>) -> bool {
    exists|i: int| 0 <= i < others.len() && r.intersects_spec(#[trigger] others[i])
}

/// The outcome decided by the players from index `i` on, in order: the first
/// player that overlaps an enemy loses the game, or, touching no enemy, wins it by
/// overlapping a goal.
pub open spec fn outcome_from(players: Seq<Rect>, enemies: Seq<Rect>, goals: Seq<Rect>, i: int) -> Option<
    GameStatus,
>
    decreases players.len() - i,
{
    if i < 0 || i >= players.len() {
        None
    } else if touches_any(players[i], enemies) {
        Some(GameStatus::Lose)
    } else if touches_any(players[i], goals) {
        Some(GameStatus::Win)
    } else {
        outcome_from(players, enemies, goals, i + 1)
    }
}

/// The outcome of one frame's collisions, if any.
pub open spec fn outcome(players: Seq<Rect>, enemies: Seq<Rect>, goals: Seq<Rect>) -> Option<
    GameStatus,
> {
    outcome_from(players, enemies, goals, 0)
}

/// The status after a frame: the outcome when there is one, else the status as it was.
pub open spec fn status_after(status: GameStatus, o: Option<GameStatus>) -> GameStatus {
    match o {
        Some(s) => s,
        None => status,
    }
}

/// Whether `r` overlaps any rectangle of `others`.
pub fn touches_any_of(r: Rect, others: &Vec<Rect>) -> (b: bool)
    ensures
        b == touches_any(r, others@),
{
    let mut i: usize = 0;
    while i < others.len()
        invariant
            i <= others.len(),
            forall|j: int| 0 <= j < i ==> !r.intersects_spec(#[trigger] others@[j]),
        decreases others.len() - i,
    {
        if r.has_intersection(others[i]) {
            return true;
        }
        i = i + 1;
    }
    false
}

/// Decides the outcome of one frame's collisions between the players and the
/// enemies and goals.
pub fn collision_outcome(players: &Vec<Rect>, enemies: &Vec<Rect>, goals: &Vec<Rect>) -> (o: Option<
    GameStatus,
>)
    ensures
        o == outcome(players@, enemies@, goals@),
{
    let mut i: usize = 0;
    while i < players.len()
        invariant
            i <= players.len(),
            outcome(players@, enemies@, goals@) == outcome_from(players@, enemies@, goals@, i as int),
        decreases players.len() - i,
    {
        if touches_any_of(players[i], enemies) {
            return Some(GameStatus::Lose);
        }
        if touches_any_of(players[i], goals) {
            return Some(GameStatus::Win);
        }
        i = i + 1;
    }
    None
}

/// A player that overlaps an enemy and a goal in the same frame loses: the enemy
/// takes precedence.
pub proof fn lemma_enemy_precedence(player: Rect, enemies: Seq<Rect>, goals: Seq<Rect>)
    requires
        touches_any(player, enemies),
    ensures
        outcome(seq![player], enemies, goals) == Some(GameStatus::Lose),
{
}

/// With a single player overlapping a goal and no enemy, the game is won.
pub proof fn lemma_goal_reached(player: Rect, enemies: Seq<Rect>, goals: Seq<Rect>)
    requires
        !touches_any(player, enemies),
        touches_any(player, goals),
    ensures
        outcome(seq![player], enemies, goals) == Some(GameStatus::Win),
{
}

} // verus!
