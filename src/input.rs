use vstd::prelude::*;

use crate::direction::Direction;
use crate::resources::{GameOver, KeyboardEvent};
use crate::world::World;

verus! {

/// The keys the game reacts to.
#[derive(Debug, Clone, Copy, PartialEq, Eq, Structural)]
pub enum Key {
    Up,
    Down,
    Left,
    Right,
    Escape,
    Other,
}

/// A decoded device event.
#[derive(Debug, Clone, Copy, PartialEq, Eq, Structural)]
pub enum InputEvent {
    /// The window was closed
    Quit,
    KeyDown { key: Key, repeat: bool },
    KeyUp { key: Key, repeat: bool },
    Other,
}

/// The direction an arrow key stands for.
pub open spec fn arrow_direction(key: Key) -> Option<Direction> {
    match key {
        Key::Up => Some(Direction::Up),
        Key::Down => Some(Direction::Down),
        Key::Left => Some(Direction::Left),
        Key::Right => Some(Direction::Right),
        _ => None,
    }
}

/// The event ends the game: the window closes or Escape is pressed.
pub open spec fn quits(event: InputEvent) -> bool {
    match event {
        InputEvent::Quit => true,
        InputEvent::KeyDown { key, .. } => key == Key::Escape,
        _ => false,
    }
}

/// The intent after `event`, from the intent `pending` before it: pressing an arrow
/// (not a repeat) moves that way, releasing one (not a repeat) stops, anything
/// else keeps the pending intent.
pub open spec fn intent_after(event: InputEvent, pending: Option<KeyboardEvent>) -> Option<KeyboardEvent> {
    match event {
        InputEvent::KeyDown { key, repeat } => if !repeat && arrow_direction(key).is_some() {
            Some(KeyboardEvent::MoveInDirection(arrow_direction(key).unwrap()))
        } else {
            pending
        },
        InputEvent::KeyUp { key, repeat } => if !repeat && arrow_direction(key).is_some() {
            Some(KeyboardEvent::Stop)
        } else {
            pending
        },
        _ => pending,
    }
}

fn arrow(key: Key) -> (d: Option<Direction>)
    ensures
        d == arrow_direction(key),
{
    match key {
        Key::Up => Some(Direction::Up),
        Key::Down => Some(Direction::Down),
        Key::Left => Some(Direction::Left),
        Key::Right => Some(Direction::Right),
        _ => None,
    }
}

/// The intent of a frame and whether the game ends, from the frame's events in
/// order: the game ends at the first quitting event, and the last arrow event
/// before it sets the intent.
pub open spec fn frame_input_spec(events: Seq<InputEvent>) -> (Option<KeyboardEvent>, GameOver)
    decreases events.len(),
{
    if events.len() == 0 {
        (None, GameOver::No)
    } else {
        let (pending, over) = frame_input_spec(events.drop_last());
        if over == GameOver::Yes {
            (pending, over)
        } else if quits(events.last()) {
            (pending, GameOver::Yes)
        } else {
            (intent_after(events.last(), pending), GameOver::No)
        }
    }
}

impl World {
    /// Handles one event: returns `Yes` when it ends the game, and otherwise
    /// updates the frame's pending input intent.
    pub fn handle_event(event: InputEvent, keyboard_event: &mut Option<KeyboardEvent>) -> (g: GameOver)
        ensures
            (g == GameOver::Yes) == quits(event),
            g == GameOver::Yes ==> *final(keyboard_event) == *old(keyboard_event),
            g == GameOver::No ==> *final(keyboard_event) == intent_after(event, *old(keyboard_event)),
    {
        match event {
            InputEvent::Quit => GameOver::Yes,
            InputEvent::KeyDown { key, repeat } => {
                if key == Key::Escape {
                    return GameOver::Yes;
                }
                if !repeat {
                    if let Some(d) = arrow(key) {
                        *keyboard_event = Some(KeyboardEvent::MoveInDirection(d));
                    }
                }
                GameOver::No
            },
            InputEvent::KeyUp { key, repeat } => {
                if !repeat && arrow(key).is_some() {
                    *keyboard_event = Some(KeyboardEvent::Stop);
                }
                GameOver::No
            },
            InputEvent::Other => GameOver::No,
        }
    }
}

/// Decodes the events of one frame.
pub fn frame_input(events: &Vec<InputEvent>) -> (r: (Option<KeyboardEvent>, GameOver))
    ensures
        r == frame_input_spec(events@),
{
    let mut pending: Option<KeyboardEvent> = None;
    let mut i: usize = 0;
    while i < events.len()
        invariant
            i <= events@.len(),
            frame_input_spec(events@.subrange(0, i as int)) == (pending, GameOver::No),
        decreases events.len() - i,
    {
        let ghost prefix = events@.subrange(0, i as int);
        assert(events@.subrange(0, i + 1).drop_last() =~= prefix);
        if World::handle_event(events[i], &mut pending) == GameOver::Yes {
            proof {
                lemma_quit_sticks(events@, i as int + 1);
            }
            assert(events@.subrange(0, events@.len() as int) =~= events@);
            return (pending, GameOver::Yes);
        }
        i = i + 1;
    }
    assert(events@.subrange(0, i as int) =~= events@);
    (pending, GameOver::No)
}

/// Once a prefix of the events ends the game, every longer prefix does, with the
/// same intent.
proof fn lemma_quit_sticks(events: Seq<InputEvent>, k: int)
    requires
        0 < k <= events.len(),
        frame_input_spec(events.subrange(0, k)).1 == GameOver::Yes,
    ensures
        frame_input_spec(events) == frame_input_spec(events.subrange(0, k)),
    decreases events.len() - k,
{
    if k < events.len() {
        assert(events.subrange(0, k + 1).drop_last() =~= events.subrange(0, k));
        lemma_quit_sticks(events, k + 1);
    } else {
        assert(events.subrange(0, k) =~= events);
    }
}

} // verus!
