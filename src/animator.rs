use vstd::prelude::*;

use crate::components::{Animation, Frame, MovementAnimations, Sprite, Velocity};
use crate::resources::{elapsed, elapsed_micros};

verus! {

/// The animation an entity plays after clip selection at clock reading `now`.
/// At rest it plays none. In motion it plays the clip of its direction: the
/// running animation is kept when it already plays that clip, and otherwise the
/// clip starts afresh at frame 0 with its timer at `now`.
pub open spec fn selected_animation(
    v: Velocity,
    m: MovementAnimations,
    current: Option<Animation>,
    now: u64,
) -> Option<Animation> {
    if v.speed == 0 {
        None
    } else if current.is_some() && current.unwrap().frames == m.for_direction(v.direction).frames {
        current
    } else {
        Some(Animation { frames: m.for_direction(v.direction).frames, current_frame: 0, frame_timer: now })
    }
}

/// Chooses the animation of one entity from its velocity.
pub fn select_animation(
    v: Velocity,
    m: &MovementAnimations,
    current: Option<Animation>,
    now: u64,
) -> (r: Option<Animation>)
    ensures
        r == selected_animation(v, *m, current, now),
{
    if v.speed == 0 {
        return None;
    }
    let wanted = m.animation_for(v.direction);
    match current {
        Some(c) => {
            if c.frames == wanted.frames {
                return current;
            }
        },
        None => {},
    }
    Some(Animation { frames: wanted.frames, current_frame: 0, frame_timer: now })
}

/// The animation and sprite after the frame advance at clock reading `now`: when
/// the current frame has lasted its duration, the next frame (looping to the
/// first after the last) starts at `now` and its sprite is shown.
pub open spec fn advanced(anim: Animation, sprite: Sprite, clip: Seq<Frame>, now: u64) -> (
    Animation,
    Sprite,
) {
    if elapsed(now, anim.frame_timer) >= clip[anim.current_frame as int].duration {
        let next = ((anim.current_frame + 1) % (clip.len() as int)) as usize;
        (
            Animation { frames: anim.frames, current_frame: next, frame_timer: now },
            clip[next as int].sprite,
        )
    } else {
        (anim, sprite)
    }
}

/// Advances one animation.
pub fn advance_animation(anim: Animation, sprite: Sprite, clip: &Vec<Frame>, now: u64) -> (r: (
    Animation,
    Sprite,
))
    requires
        anim.current_frame < clip.len(),
    ensures
        r == advanced(anim, sprite, clip@, now),
        r.0.current_frame < clip.len(),
{
    if elapsed_micros(now, anim.frame_timer) >= clip[anim.current_frame].duration {
        let next = (anim.current_frame + 1) % clip.len();
        (Animation { frames: anim.frames, current_frame: next, frame_timer: now }, clip[next].sprite)
    } else {
        (anim, sprite)
    }
}

/// While an entity keeps moving in the same direction, clip selection keeps the
/// running animation as it is (frame index and timer). When it turns to a
/// direction with another clip, the animation restarts at frame 0 with its timer
/// at `now`.
pub proof fn lemma_clip_stability(
    v: Velocity,
    m: MovementAnimations,
    current: Animation,
    previous: crate::direction::Direction,
    now: u64,
)
    requires
        v.speed != 0,
        current.frames == m.for_direction(previous).frames,
        m.distinct_clips(),
    ensures
        v.direction == previous ==> selected_animation(v, m, Some(current), now) == Some(current),
        v.direction != previous ==> selected_animation(v, m, Some(current), now) == Some(
            Animation { frames: m.for_direction(v.direction).frames, current_frame: 0, frame_timer: now },
        ),
{
    if v.direction != previous {
        assert(m.for_direction(v.direction).frames != m.for_direction(previous).frames);
    }
}

} // verus!
