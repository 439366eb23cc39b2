use vstd::prelude::*;

verus! {

/// The walk cycle has four steps, 0 to 3; any other value starts it over.
pub open spec fn next_frame(frame: u8) -> u8 {
    if frame < 3 {
        (frame + 1) as u8
    } else {
        0
    }
}

/// The step of the walk cycle after `frame`.
pub fn next_animation_frame(frame: u8) -> (r: u8)
    ensures
        r == next_frame(frame),
{
    if frame < 3 {
        frame + 1
    } else {
        0
    }
}

/// The sprite shown at each step of the walk cycle: the standing sprite, one
/// stride, the standing sprite again, the other stride.
pub open spec fn walk_frame(frame: u8) -> usize {
    if frame == 1 {
        1
    } else if frame == 3 {
        2
    } else {
        0
    }
}

/// Which of the three sprites of a direction to show at step `frame` of the walk cycle.
pub fn walk_frame_index(frame: u8) -> (r: usize)
    ensures
        r == walk_frame(frame),
        r < 3,
{
    if frame == 1 {
        1
    } else if frame == 3 {
        2
    } else {
        0
    }
}

/// Once per tick of the animation timer the walk cycle moves one step on.
pub fn advance_animation(frame: &mut u8, timer_finished: bool)
    ensures
        *final(frame) == if timer_finished {
            next_frame(*old(frame))
        } else {
            *old(frame)
        },
{
    if timer_finished {
        *frame = next_animation_frame(*frame);
    }
}

/// Four ticks of the animation timer bring any step of the walk cycle back to itself.
pub proof fn lemma_walk_cycle(frame: u8)
    requires
        frame < 4,
    ensures
        next_frame(next_frame(next_frame(next_frame(frame)))) == frame,
{
}

} // verus!
