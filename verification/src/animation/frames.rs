//! Frame stepping of sprite animations, and the choice of clip to play.
//!
//! A sprite plays the frames of a clip in order; the playback timer lives
//! with the renderer, which asks these functions which frame comes next.

use vstd::prelude::*;

verus! {

/// The frame after `current` once a whole frame time has elapsed, and whether
/// playback stopped on the last frame.
///
/// Past the end, a looping clip restarts at frame 0 and a one-shot clip stays
/// on its last frame (and reports that it stopped, so the timer is reset).
pub fn next_frame(current: usize, frame_count: usize, looping: bool) -> (r: (usize, bool))
    requires
        frame_count > 0,
        current < usize::MAX,
    ensures
        current + 1 < frame_count ==> r.0 == current + 1 && !r.1,
        current + 1 >= frame_count && looping ==> r.0 == 0 && !r.1,
        current + 1 >= frame_count && !looping ==> r.0 == frame_count - 1 && r.1,
{
    let next = current + 1;
    if next >= frame_count {
        if looping {
            (0, false)
        } else {
            (frame_count - 1, true)
        }
    } else {
        (next, false)
    }
}

/// Whether a clip has finished playing: never for a looping or empty clip,
/// else once the last frame is reached.
pub fn is_finished(current: usize, frame_count: usize, looping: bool) -> (r: bool)
    ensures
        r == (!looping && frame_count > 0 && current >= frame_count - 1),
{
    if looping || frame_count == 0 {
        false
    } else {
        current >= frame_count - 1
    }
}

/// A looping clip played from its first frame shows frame
/// `steps % frame_count` after `steps` whole frame times: it cycles through
/// its frames in order and is back at the first every `frame_count` steps.
pub proof fn lemma_looping_cycle(frame_count: nat, steps: nat)
    requires
        frame_count > 0,
    ensures
        looping_frame_after(frame_count, steps) == steps % frame_count,
    decreases steps,
{
    if steps > 0 {
        lemma_looping_cycle(frame_count, (steps - 1) as nat);
        let m = frame_count as int;
        let x = steps - 1;
        let q = x / m;
        let prev = x % m;
        vstd::arithmetic::div_mod::lemma_fundamental_div_mod(x, m);
        if prev + 1 == m {
            assert((q + 1) * m == q * m + m) by (nonlinear_arith);
            vstd::arithmetic::div_mod::lemma_fundamental_div_mod_converse(steps as int, m, q + 1, 0);
        } else {
            vstd::arithmetic::div_mod::lemma_fundamental_div_mod_converse(steps as int, m, q, prev + 1);
        }
    } else {
        vstd::arithmetic::div_mod::lemma_fundamental_div_mod_converse(0, frame_count as int, 0, 0);
    }
}

/// The frame a looping clip shows after `steps` whole frame times, started
/// from frame 0, stepping as `next_frame` does.
pub open spec fn looping_frame_after(frame_count: nat, steps: nat) -> nat
    decreases steps,
{
    if steps == 0 {
        0
    } else {
        let prev = looping_frame_after(frame_count, (steps - 1) as nat);
        if prev + 1 >= frame_count {
            0
        } else {
            prev + 1
        }
    }
}

/// What asking a sprite to play a named clip does.
#[derive(Debug, Clone, Copy, PartialEq, Eq, Structural)]
pub enum PlayAction {
    /// The clip is already playing: nothing changes.
    AlreadyPlaying,
    /// Switch to the clip and restart the sprite from its first frame.
    Switch,
    /// No clip has that name: nothing changes, and a warning is due.
    Unknown,
}

/// The action for playing clip `name` when `current` is the clip playing and
/// `known` says whether a clip of that name exists: a request for the clip
/// already playing changes nothing; otherwise a known clip is switched to and
/// an unknown one is reported.
pub fn play_action(current: Option<&str>, name: &str, known: bool) -> (r: PlayAction)
    ensures
        r == (if current matches Some(c) && c@ == name@ {
            PlayAction::AlreadyPlaying
        } else if known {
            PlayAction::Switch
        } else {
            PlayAction::Unknown
        }),
{
    let same = match current {
        Some(c) => c.to_owned() == name.to_owned(),
        None => false,
    };
    if same {
        PlayAction::AlreadyPlaying
    } else if known {
        PlayAction::Switch
    } else {
        PlayAction::Unknown
    }
}

} // verus!
