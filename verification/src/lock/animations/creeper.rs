//! The creeper that comes closer while a password is checked and dissolves when it is accepted.

use vstd::prelude::*;

use crate::bytes;
use crate::lock::state;
use crate::lock::state::{LockVisual, CREEPER_APPROACH_DURATION, DISSOLVE_DURATION};
use crate::time::{Duration, Instant};

verus! {

pub const UNIFORM_BYTES: usize = 32;

/// How much of a span of time is over, from nothing to all of it.
pub open spec fn part_over(elapsed: Duration, duration: Duration) -> Duration {
    if elapsed < duration {
        elapsed
    } else {
        duration
    }
}

/// Cuts a time that has passed off at a span.
pub fn clamped_progress(elapsed: Duration, duration: Duration) -> (over: Duration)
    ensures
        over == part_over(elapsed, duration),
{
    if elapsed < duration {
        elapsed
    } else {
        duration
    }
}

/// What a frame of the scene shows.
#[derive(Clone, Copy, Debug, PartialEq, Eq, Structural)]
pub struct CreeperFrame {
    /// How much of the approach is over.
    pub approach: Duration,
    /// How much of the dissolve is over.
    pub dissolve: Duration,
    pub red: bool,
    pub draw_head: bool,
    pub dissolving: bool,
}

/// The frame of a visual, where the scene draws it.
pub open spec fn frame_of(visual: LockVisual, now: Instant) -> Option<CreeperFrame> {
    match visual {
        LockVisual::Creeper { approach_started_at, red } => Some(
            CreeperFrame {
                approach: part_over(now.since(approach_started_at), CREEPER_APPROACH_DURATION),
                dissolve: 0,
                red,
                draw_head: true,
                dissolving: false,
            },
        ),
        LockVisual::DissolvingCreeper { approach_started_at, started_at, .. } => Some(
            CreeperFrame {
                approach: part_over(now.since(approach_started_at), CREEPER_APPROACH_DURATION),
                dissolve: part_over(now.since(started_at), DISSOLVE_DURATION),
                red: false,
                draw_head: true,
                dissolving: now.since(started_at) > 0,
            },
        ),
        LockVisual::FatalBlack => Some(
            CreeperFrame {
                approach: 0,
                dissolve: 0,
                red: false,
                draw_head: false,
                dissolving: false,
            },
        ),
        LockVisual::Hidden | LockVisual::Torch { .. } => None,
    }
}

/// Decides what a frame shows.
pub fn creeper_frame(visual: LockVisual, now: Instant) -> (frame: Option<CreeperFrame>)
    ensures
        frame == frame_of(visual, now),
{
    match visual {
        LockVisual::Creeper { approach_started_at, red } => Some(
            CreeperFrame {
                approach: clamped_progress(
                    now.saturating_duration_since(approach_started_at),
                    CREEPER_APPROACH_DURATION,
                ),
                dissolve: 0,
                red,
                draw_head: true,
                dissolving: false,
            },
        ),
        LockVisual::DissolvingCreeper { approach_started_at, started_at, .. } => {
            let dissolve = clamped_progress(
                now.saturating_duration_since(started_at),
                DISSOLVE_DURATION,
            );
            Some(
                CreeperFrame {
                    approach: clamped_progress(
                        now.saturating_duration_since(approach_started_at),
                        CREEPER_APPROACH_DURATION,
                    ),
                    dissolve,
                    red: false,
                    draw_head: true,
                    dissolving: dissolve > 0,
                },
            )
        },
        LockVisual::FatalBlack => Some(
            CreeperFrame {
                approach: 0,
                dissolve: 0,
                red: false,
                draw_head: false,
                dissolving: false,
            },
        ),
        LockVisual::Hidden => None,
        LockVisual::Torch { .. } => None,
    }
}

/// A creeper whose approach and dissolve begin together has arrived when it is half dissolved.
pub proof fn lemma_an_instant_success_arrives_half_dissolved(
    attempt: state::AttemptId,
    started_at: Instant,
    now: Instant,
)
    requires
        now.since(started_at) == CREEPER_APPROACH_DURATION,
    ensures
        ({
            let frame = frame_of(
                LockVisual::DissolvingCreeper {
                    attempt,
                    approach_started_at: started_at,
                    started_at,
                },
                now,
            )->0;
            frame.approach == CREEPER_APPROACH_DURATION && 2 * frame.dissolve == DISSOLVE_DURATION
                && frame.dissolving
        }),
{
}

/// The uniform block: the size of the screen, the progress of the approach and of the dissolve, the
/// two flags as numbers, and two words of padding. Each scalar is passed by its bits.
pub fn uniform_bytes(
    width: u32,
    height: u32,
    approach: u32,
    dissolve: u32,
    red: bool,
    dissolving: bool,
) -> (encoded: Vec<u8>)
    ensures
        encoded@.len() == UNIFORM_BYTES,
        bytes::holds_words(
            encoded@,
            seq![
                width,
                height,
                approach,
                dissolve,
                if red {
                    1u32
                } else {
                    0u32
                },
                if dissolving {
                    1u32
                } else {
                    0u32
                },
                0u32,
                0u32,
            ],
        ),
{
    let red_word: u32 = if red {
        1
    } else {
        0
    };
    let dissolving_word: u32 = if dissolving {
        1
    } else {
        0
    };
    let words: [u32; 8] = [width, height, approach, dissolve, red_word, dissolving_word, 0, 0];
    assert(words@ == seq![width, height, approach, dissolve, red_word, dissolving_word, 0u32, 0u32]);
    bytes::encode_words(words.as_slice())
}

} // verus!
