//! What the scenes of a locked screen draw of a visual.

use vstd::prelude::*;

use crate::lock::animations;
use crate::lock::animations::creeper;
use crate::lock::animations::creeper::CreeperFrame;
use crate::lock::animations::Scene;
use crate::lock::state::{AttemptId, LockVisual};
use crate::time::{Duration, Instant};

verus! {

/// The creeper comes closer at the same pace whether it dissolves or not: at any time the
/// dissolving creeper is as near as the one that only approaches since the same moment, whenever
/// the dissolve started and whichever attempt it belongs to.
pub proof fn lemma_the_dissolve_does_not_disturb_the_approach(
    attempt: AttemptId,
    other_attempt: AttemptId,
    approach_started_at: Instant,
    dissolve_started_at: Instant,
    other_started_at: Instant,
    red: bool,
    now: Instant,
    approaching: Option<CreeperFrame>,
    dissolving: Option<CreeperFrame>,
    other: Option<CreeperFrame>,
)
    requires
        call_ensures(
            creeper::creeper_frame,
            (LockVisual::Creeper { approach_started_at, red }, now),
            approaching,
        ),
        call_ensures(
            creeper::creeper_frame,
            (
                LockVisual::DissolvingCreeper {
                    attempt,
                    approach_started_at,
                    started_at: dissolve_started_at,
                },
                now,
            ),
            dissolving,
        ),
        call_ensures(
            creeper::creeper_frame,
            (
                LockVisual::DissolvingCreeper {
                    attempt: other_attempt,
                    approach_started_at,
                    started_at: other_started_at,
                },
                now,
            ),
            other,
        ),
    ensures
        approaching is Some && dissolving is Some && other is Some,
        dissolving->0.approach == approaching->0.approach,
        other->0.approach == dissolving->0.approach,
{
}

/// The creeper has come as near as the time since it started, up to half a second; it then stays.
/// Only the colour that the visual asks for is drawn, and nothing of it dissolves.
pub proof fn lemma_the_approach_takes_half_a_second(
    approach_started_at: Instant,
    red: bool,
    now: Instant,
    frame: Option<CreeperFrame>,
)
    requires
        call_ensures(
            creeper::creeper_frame,
            (LockVisual::Creeper { approach_started_at, red }, now),
            frame,
        ),
    ensures
        frame is Some,
        now.nanos <= approach_started_at.nanos ==> frame->0.approach == 0,
        approach_started_at.nanos <= now.nanos <= approach_started_at.nanos + 500_000_000
            ==> approach_started_at.nanos + frame->0.approach == now.nanos,
        now.nanos >= approach_started_at.nanos + 500_000_000 ==> frame->0.approach == 500_000_000,
        frame->0.red == red,
        frame->0.draw_head,
        frame->0.dissolve == 0 && !frame->0.dissolving,
{
}

/// The dissolve has gone on for the time since it started, up to one second, whenever the creeper
/// started to approach. It is marked from the first nanosecond on, and it is never red.
pub proof fn lemma_the_dissolve_takes_one_second(
    attempt: AttemptId,
    approach_started_at: Instant,
    started_at: Instant,
    now: Instant,
    frame: Option<CreeperFrame>,
)
    requires
        call_ensures(
            creeper::creeper_frame,
            (LockVisual::DissolvingCreeper { attempt, approach_started_at, started_at }, now),
            frame,
        ),
    ensures
        frame is Some,
        now.nanos <= started_at.nanos ==> frame->0.dissolve == 0,
        started_at.nanos <= now.nanos <= started_at.nanos + 1_000_000_000 ==> started_at.nanos
            + frame->0.dissolve == now.nanos,
        now.nanos >= started_at.nanos + 1_000_000_000 ==> frame->0.dissolve == 1_000_000_000,
        frame->0.dissolving <==> now.nanos > started_at.nanos,
        !frame->0.red,
        frame->0.draw_head,
{
}

/// The creeper's scene draws the creeper, the dissolving creeper and the black screen, the last
/// without a head; it draws nothing else. Torches are drawn with the mask of the visual.
pub proof fn lemma_each_visual_has_its_scene(
    visual: LockVisual,
    now: Instant,
    scene: Scene,
    frame: Option<CreeperFrame>,
)
    requires
        call_ensures(animations::scene_of, (visual,), scene),
        call_ensures(creeper::creeper_frame, (visual, now), frame),
    ensures
        scene is Nothing <==> visual is Hidden,
        visual is Torch <==> scene is Torch,
        visual is Torch ==> scene->mask == visual->mask,
        scene is Creeper <==> frame is Some,
        visual is Creeper || visual is DissolvingCreeper || visual is FatalBlack <==> frame is Some,
        frame is Some ==> (frame->0.draw_head <==> !(visual is FatalBlack)),
        visual is FatalBlack ==> frame->0.approach == 0 && frame->0.dissolve == 0 && !frame->0.red
            && !frame->0.dissolving,
{
}

/// Progress is the time that has passed, until the whole span has: it never runs back and never
/// runs over.
pub proof fn lemma_progress_ends_with_the_span(
    elapsed: Duration,
    more: Duration,
    duration: Duration,
    over: Duration,
    over_later: Duration,
)
    requires
        call_ensures(creeper::clamped_progress, (elapsed, duration), over),
        call_ensures(creeper::clamped_progress, (more, duration), over_later),
    ensures
        over <= duration,
        elapsed <= duration ==> over == elapsed,
        elapsed >= duration ==> over == duration,
        elapsed <= more ==> over <= over_later,
{
}

} // verus!
