//! Surfaces and frames.

use vstd::prelude::*;

use crate::modules::{FrameInfo, RenderSize};
use crate::renderer;
use crate::renderer::{
    FormatOverrideError, RenderOutcome, RenderSchedule, SurfaceAction, SurfaceFormat,
    SurfaceStatus,
};
use crate::time::Instant;

verus! {

/// Whether what is written to a surface of this format is encoded as sRGB.
pub open spec fn encodes_srgb(format: SurfaceFormat) -> bool {
    format is Rgba8UnormSrgb || format is Bgra8UnormSrgb || (format is Other && format->srgb)
}

/// A format of sRGB goes before every other, and the first of its kind before the later ones. Where
/// none is of sRGB the first is taken, and where there is none, none.
pub proof fn lemma_srgb_is_preferred(
    formats: &[SurfaceFormat],
    preferred: Option<SurfaceFormat>,
    place: int,
    asked: SurfaceFormat,
    srgb: bool,
)
    requires
        call_ensures(renderer::preferred_surface_format, (formats,), preferred),
        0 <= place < formats@.len(),
        call_ensures(SurfaceFormat::is_srgb, (asked,), srgb),
    ensures
        preferred is Some,
        formats@.contains(preferred->0),
        encodes_srgb(formats@[place]) ==> encodes_srgb(preferred->0),
        encodes_srgb(formats@[place]) && (forall|i: int|
            0 <= i < place ==> !encodes_srgb(#[trigger] formats@[i])) ==> preferred->0
            == formats@[place],
        (forall|i: int| 0 <= i < formats@.len() ==> !encodes_srgb(#[trigger] formats@[i]))
            ==> preferred->0 == formats@[0],
        srgb <==> encodes_srgb(asked),
{
    assert forall|i: int| 0 <= i < formats@.len() implies encodes_srgb(#[trigger] formats@[i])
        == formats@[i].srgb() by {
    }
    if exists|i: int| 0 <= i < formats@.len() && (#[trigger] formats@[i]).srgb() {
        let some = choose|i: int| 0 <= i < formats@.len() && (#[trigger] formats@[i]).srgb();
        let first = lemma_first(formats@, some);
        assert(renderer::first_srgb(formats@, first));
        if encodes_srgb(formats@[place]) && (forall|i: int|
            0 <= i < place ==> !encodes_srgb(#[trigger] formats@[i])) {
            if first < place {
                assert(!encodes_srgb(formats@[first]));
            }
            assert(first == place);
        }
    }
}

proof fn lemma_first(formats: Seq<SurfaceFormat>, some: int) -> (first: int)
    requires
        0 <= some < formats.len(),
        formats[some].srgb(),
    ensures
        renderer::first_srgb(formats, first),
        first <= some,
    decreases some,
{
    if exists|i: int| 0 <= i < some && (#[trigger] formats[i]).srgb() {
        let earlier = choose|i: int| 0 <= i < some && (#[trigger] formats[i]).srgb();
        lemma_first(formats, earlier)
    } else {
        some
    }
}

/// Without a format there is none to prefer.
pub proof fn lemma_no_format_no_preference(
    formats: &[SurfaceFormat],
    preferred: Option<SurfaceFormat>,
)
    requires
        formats@.len() == 0,
        call_ensures(renderer::preferred_surface_format, (formats,), preferred),
    ensures
        preferred is None,
{
}

/// Whether a small letter, a digit or a sign stands for this character, in either case.
pub open spec fn same_letter(left: char, right: char) -> bool {
    left == right || (65 <= left as int <= 90 && right as int == left as int + 32) || (65
        <= right as int <= 90 && left as int == right as int + 32)
}

/// A requested format is taken exactly if the surface supports it. The case of the letters does not
/// matter: two names that agree but for it name the same format.
pub proof fn lemma_the_case_of_a_format_does_not_matter(
    name: &str,
    other: &str,
    supported: &[SurfaceFormat],
    chosen: Result<SurfaceFormat, FormatOverrideError>,
    other_chosen: Result<SurfaceFormat, FormatOverrideError>,
)
    requires
        name@.len() == other@.len(),
        forall|i: int| 0 <= i < name@.len() ==> same_letter(#[trigger] name@[i], other@[i]),
        call_ensures(renderer::debug_surface_format_override, (name, supported), chosen),
        call_ensures(renderer::debug_surface_format_override, (other, supported), other_chosen),
    ensures
        chosen == other_chosen,
        chosen is Ok ==> supported@.contains(chosen->Ok_0),
        chosen is Err && chosen->Err_0 is Unavailable ==> !supported@.contains(
            chosen->Err_0->Unavailable_0,
        ),
{
    assert forall|i: int| 0 <= i < name@.len() implies renderer::ascii_lower(#[trigger] name@[i])
        == renderer::ascii_lower(other@[i]) by {
        assert(same_letter(name@[i], other@[i]));
    }
    assert(renderer::lowered(name@) == renderer::lowered(other@));
}

proof fn lemma_small_letters(name: Seq<char>)
    requires
        forall|i: int| 0 <= i < name.len() ==> !(65 <= #[trigger] name[i] as int <= 90),
    ensures
        renderer::lowered(name) == name,
{
    assert(renderer::lowered(name) =~= name);
}

/// The four formats that can be requested, by the names that stand for them.
pub open spec fn requested(name: Seq<char>) -> Option<SurfaceFormat> {
    if name == "rgba8unorm"@ || name == "rgba8-unorm"@ {
        Some(SurfaceFormat::Rgba8Unorm)
    } else if name == "bgra8unorm"@ || name == "bgra8-unorm"@ {
        Some(SurfaceFormat::Bgra8Unorm)
    } else if name == "rgba8unormsrgb"@ || name == "rgba8unorm-srgb"@ || name
        == "rgba8-unorm-srgb"@ {
        Some(SurfaceFormat::Rgba8UnormSrgb)
    } else if name == "bgra8unormsrgb"@ || name == "bgra8unorm-srgb"@ || name
        == "bgra8-unorm-srgb"@ {
        Some(SurfaceFormat::Bgra8UnormSrgb)
    } else {
        None
    }
}

/// A name in small letters requests its own format, which is used if the surface has it; a name
/// without a format is told apart from a format that the surface lacks.
pub proof fn lemma_a_name_requests_its_format(
    name: &str,
    supported: &[SurfaceFormat],
    chosen: Result<SurfaceFormat, FormatOverrideError>,
)
    requires
        forall|i: int| 0 <= i < name@.len() ==> !(65 <= #[trigger] name@[i] as int <= 90),
        call_ensures(renderer::debug_surface_format_override, (name, supported), chosen),
    ensures
        match requested(name@) {
            None => chosen == Err::<SurfaceFormat, FormatOverrideError>(
                FormatOverrideError::Unsupported,
            ),
            Some(format) => if supported@.contains(format) {
                chosen == Ok::<SurfaceFormat, FormatOverrideError>(format)
            } else {
                chosen == Err::<SurfaceFormat, FormatOverrideError>(
                    FormatOverrideError::Unavailable(format),
                )
            },
        },
{
    lemma_small_letters(name@);
}

/// Only a fresh texture is drawn to. A stale one is set up again, a lost surface is made anew, a
/// busy or hidden one is waited for, and only a rejected request fails.
pub proof fn lemma_what_is_done_with_a_texture(status: SurfaceStatus, action: SurfaceAction)
    requires
        call_ensures(renderer::surface_action, (status,), action),
    ensures
        action is Draw <==> status is Success,
        action is Reconfigure <==> status is Suboptimal || status is Outdated,
        action is Recreate <==> status is Lost,
        action is Skip <==> status is Timeout || status is Occluded,
        action is Fail <==> status is Validation,
{
}

/// A dimension that the compositor gives is taken. One that it leaves open keeps the value that was
/// configured last, or is 1280 by 720 at the start. Each dimension goes by itself.
pub proof fn lemma_an_open_dimension_keeps_its_value(
    started_at: Instant,
    fresh: RenderSchedule,
    configured: &mut RenderSchedule,
    size: RenderSize,
    width: u32,
    height: u32,
    first: RenderSize,
    later: RenderSize,
    initialize: bool,
)
    requires
        call_ensures(RenderSchedule::new, (started_at,), fresh),
        call_ensures(RenderSchedule::requested_size, (&fresh, width, height), first),
        call_ensures(RenderSchedule::configured, (configured, size), initialize),
        call_ensures(RenderSchedule::requested_size, (&*final(configured), width, height), later),
    ensures
        width != 0 ==> first.width == width && later.width == width,
        height != 0 ==> first.height == height && later.height == height,
        width == 0 ==> first.width == 1_280 && later.width == size.width,
        height == 0 ==> first.height == 720 && later.height == size.height,
        initialize <==> !old(configured).module_initialized,
        final(configured).started_at == old(configured).started_at,
        final(configured).last_frame_at == old(configured).last_frame_at,
        final(configured).frame_pending == old(configured).frame_pending,
{
}

/// A module is set up once: before the first size it learns of, and not again until another module
/// takes over on a surface without a size.
pub proof fn lemma_a_module_is_set_up_once(
    started_at: Instant,
    fresh: RenderSchedule,
    configured: &mut RenderSchedule,
    ready: &mut RenderSchedule,
    resized: &mut RenderSchedule,
    replaced: &mut RenderSchedule,
    unsized_yet: &mut RenderSchedule,
    size: RenderSize,
    other: RenderSize,
    now: Instant,
    outs: (bool, bool),
)
    requires
        call_ensures(RenderSchedule::new, (started_at,), fresh),
        *old(configured) == fresh,
        call_ensures(RenderSchedule::configured, (configured, size), outs.0),
        *old(ready) == *final(configured),
        call_ensures(RenderSchedule::initialized, (ready,), ()),
        *old(resized) == *final(ready),
        call_ensures(RenderSchedule::configured, (resized, other), outs.1),
        *old(replaced) == *final(resized),
        call_ensures(RenderSchedule::module_replaced, (replaced, now), ()),
        *old(unsized_yet) == fresh,
        call_ensures(RenderSchedule::module_replaced, (unsized_yet, now), ()),
    ensures
        outs.0 && !outs.1,
        final(replaced).module_initialized,
        final(replaced).configured_size == Some(other),
        final(replaced).started_at == now && final(replaced).last_frame_at == now,
        !final(unsized_yet).module_initialized,
        final(unsized_yet).configured_size is None,
{
}

/// A frame tells the time since the module started and the time since the frame before it, of the
/// module's start where there was none. Without a size there is no frame and no time passes.
pub proof fn lemma_a_frame_tells_its_time(
    started_at: Instant,
    fresh: RenderSchedule,
    sized: &mut RenderSchedule,
    first: &mut RenderSchedule,
    second: &mut RenderSchedule,
    early: &mut RenderSchedule,
    size: RenderSize,
    initialize: bool,
    first_at: Instant,
    second_at: Instant,
    frame: Option<FrameInfo>,
    next: Option<FrameInfo>,
    nothing: Option<FrameInfo>,
)
    requires
        call_ensures(RenderSchedule::new, (started_at,), fresh),
        *old(early) == fresh,
        call_ensures(RenderSchedule::begin_frame, (early, first_at), nothing),
        *old(sized) == fresh,
        call_ensures(RenderSchedule::configured, (sized, size), initialize),
        *old(first) == *final(sized),
        call_ensures(RenderSchedule::begin_frame, (first, first_at), frame),
        *old(second) == *final(first),
        call_ensures(RenderSchedule::begin_frame, (second, second_at), next),
        started_at.nanos <= first_at.nanos <= second_at.nanos,
    ensures
        nothing is None && *final(early) == fresh,
        frame is Some && next is Some,
        started_at.nanos + frame->0.elapsed == first_at.nanos,
        frame->0.delta == frame->0.elapsed,
        started_at.nanos + next->0.elapsed == second_at.nanos,
        first_at.nanos + next->0.delta == second_at.nanos,
        frame->0.size == size && next->0.size == size,
{
}

/// At most one frame callback is outstanding: one is asked for while frames go on or one was skipped,
/// and the next only after that one has arrived.
pub proof fn lemma_one_callback_at_a_time(
    first: &mut RenderSchedule,
    second: &mut RenderSchedule,
    skipped: &mut RenderSchedule,
    arrived: &mut RenderSchedule,
    third: &mut RenderSchedule,
    still: &mut RenderSchedule,
    outcome: RenderOutcome,
    outs: (bool, bool, bool, bool, bool),
)
    requires
        !old(first).frame_pending,
        call_ensures(RenderSchedule::request_frame, (first, true), outs.0),
        *old(second) == *final(first),
        call_ensures(RenderSchedule::request_frame, (second, true), outs.1),
        *old(skipped) == *old(first),
        call_ensures(RenderSchedule::retry_skipped, (skipped, outcome), outs.2),
        *old(arrived) == *final(second),
        call_ensures(RenderSchedule::frame_arrived, (arrived,), ()),
        *old(third) == *final(arrived),
        call_ensures(RenderSchedule::request_frame, (third, true), outs.3),
        *old(still) == *old(first),
        call_ensures(RenderSchedule::request_frame, (still, false), outs.4),
    ensures
        outs.0 && !outs.1 && outs.3 && !outs.4,
        outs.2 <==> outcome is Skipped,
        final(skipped).frame_pending == outs.2,
        *final(still) == *old(first),
        *final(arrived) == *old(first),
{
}

/// A new schedule waits for no frame, so that its first request is let through.
pub proof fn lemma_the_first_request_is_let_through(
    started: Instant,
    fresh: RenderSchedule,
    asked: &mut RenderSchedule,
    requested: bool,
)
    requires
        call_ensures(RenderSchedule::new, (started,), fresh),
        *old(asked) == fresh,
        call_ensures(RenderSchedule::request_frame, (asked, true), requested),
    ensures
        requested,
        fresh.configured_size is None && !fresh.module_initialized,
{
}

} // verus!
