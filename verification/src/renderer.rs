//! Surface formats, what a frame came to, and when the next one is due.

use vstd::prelude::*;

use crate::modules::{FrameInfo, RenderSize};
use crate::text;
use crate::time::Instant;

verus! {

#[derive(Clone, Copy, Debug, PartialEq, Eq, Structural)]
pub enum RenderOutcome {
    Presented,
    Skipped,
}

/// A format that a surface supports. Formats without a name here are told apart by a number.
#[derive(Clone, Copy, Debug, PartialEq, Eq, Structural)]
pub enum SurfaceFormat {
    Rgba8Unorm,
    Bgra8Unorm,
    Rgba8UnormSrgb,
    Bgra8UnormSrgb,
    Other { number: u32, srgb: bool },
}

impl SurfaceFormat {
    pub open spec fn srgb(self) -> bool {
        match self {
            SurfaceFormat::Rgba8UnormSrgb => true,
            SurfaceFormat::Bgra8UnormSrgb => true,
            SurfaceFormat::Other { srgb, .. } => srgb,
            _ => false,
        }
    }

    /// Whether a write to the surface is encoded as sRGB.
    pub fn is_srgb(self) -> (srgb: bool)
        ensures
            srgb == self.srgb(),
    {
        match self {
            SurfaceFormat::Rgba8UnormSrgb => true,
            SurfaceFormat::Bgra8UnormSrgb => true,
            SurfaceFormat::Other { srgb, .. } => srgb,
            SurfaceFormat::Rgba8Unorm => false,
            SurfaceFormat::Bgra8Unorm => false,
        }
    }
}

/// Where the first sRGB format stands in a list.
pub open spec fn first_srgb(formats: Seq<SurfaceFormat>, index: int) -> bool {
    &&& 0 <= index < formats.len()
    &&& formats[index].srgb()
    &&& forall|i: int| 0 <= i < index ==> !(#[trigger] formats[i]).srgb()
}

/// The first sRGB format, or the first format of all.
pub fn preferred_surface_format(formats: &[SurfaceFormat]) -> (preferred: Option<SurfaceFormat>)
    ensures
        preferred is None <==> formats@.len() == 0,
        forall|index: int|
            first_srgb(formats@, index) ==> preferred == Some(#[trigger] formats@[index]),
        (forall|i: int| 0 <= i < formats@.len() ==> !(#[trigger] formats@[i]).srgb())
            && formats@.len() > 0 ==> preferred == Some(formats@[0]),
{
    let mut index: usize = 0;
    while index < formats.len()
        invariant
            index <= formats@.len(),
            forall|i: int| 0 <= i < index ==> !(#[trigger] formats@[i]).srgb(),
        decreases formats@.len() - index,
    {
        if formats[index].is_srgb() {
            assert(first_srgb(formats@, index as int));
            return Some(formats[index]);
        }
        index = index + 1;
    }
    if formats.len() == 0 {
        None
    } else {
        Some(formats[0])
    }
}

/// Why a requested surface format cannot be used.
#[derive(Clone, Copy, Debug, PartialEq, Eq, Structural)]
pub enum FormatOverrideError {
    Unsupported,
    Unavailable(SurfaceFormat),
}

/// The letter that an ASCII capital stands for; every other character stands for itself.
pub open spec fn ascii_lower(c: char) -> char {
    if 'A' <= c <= 'Z' {
        (c as u8 + 32) as char
    } else {
        c
    }
}

pub open spec fn lowered(text: Seq<char>) -> Seq<char> {
    text.map_values(|c: char| ascii_lower(c))
}

/// The format that a name stands for, in any case of its letters.
pub open spec fn format_named(name: Seq<char>) -> Option<SurfaceFormat> {
    let name = lowered(name);
    if name == "rgba8unorm"@ || name == "rgba8-unorm"@ {
        Some(SurfaceFormat::Rgba8Unorm)
    } else if name == "bgra8unorm"@ || name == "bgra8-unorm"@ {
        Some(SurfaceFormat::Bgra8Unorm)
    } else if name == "rgba8unormsrgb"@ || name == "rgba8unorm-srgb"@ || name
        == "rgba8-unorm-srgb"@ {
        Some(SurfaceFormat::Rgba8UnormSrgb)
    } else if name == "bgra8unormsrgb"@ || name == "bgra8unorm-srgb"@ || name
        == "bgra8-unorm-srgb"@ {
        Some(SurfaceFormat::Bgra8UnormSrgb)
    } else {
        None
    }
}

fn lower(text: &str) -> (lower: String)
    ensures
        lower@ == lowered(text@),
{
    let chars = text::chars_of(text);
    let mut lower: Vec<char> = Vec::new();
    let mut index: usize = 0;
    while index < chars.len()
        invariant
            index <= chars@.len(),
            chars@ == text@,
            lower@ == lowered(text@.take(index as int)),
        decreases chars@.len() - index,
    {
        let c = chars[index];
        let changed = if 'A' <= c && c <= 'Z' {
            (c as u8 + 32) as char
        } else {
            c
        };
        lower.push(changed);
        index = index + 1;
        assert(lower@ == lowered(text@.take(index as int)));
    }
    assert(text@.take(text@.len() as int) == text@);
    text::string_of(lower.as_slice())
}

/// The requested format, when its name is known and the surface supports it.
pub fn debug_surface_format_override(value: &str, supported: &[SurfaceFormat]) -> (chosen: Result<
    SurfaceFormat,
    FormatOverrideError,
>)
    ensures
        chosen == match format_named(value@) {
            None => Err(FormatOverrideError::Unsupported),
            Some(format) => if supported@.contains(format) {
                Ok(format)
            } else {
                Err(FormatOverrideError::Unavailable(format))
            },
        },
{
    let name = lower(value);
    let name = name.as_str();
    let format = if text::same_text(name, "rgba8unorm") || text::same_text(name, "rgba8-unorm") {
        SurfaceFormat::Rgba8Unorm
    } else if text::same_text(name, "bgra8unorm") || text::same_text(name, "bgra8-unorm") {
        SurfaceFormat::Bgra8Unorm
    } else if text::same_text(name, "rgba8unormsrgb") || text::same_text(name, "rgba8unorm-srgb")
        || text::same_text(name, "rgba8-unorm-srgb") {
        SurfaceFormat::Rgba8UnormSrgb
    } else if text::same_text(name, "bgra8unormsrgb") || text::same_text(name, "bgra8unorm-srgb")
        || text::same_text(name, "bgra8-unorm-srgb") {
        SurfaceFormat::Bgra8UnormSrgb
    } else {
        return Err(FormatOverrideError::Unsupported);
    };
    let mut index: usize = 0;
    while index < supported.len()
        invariant
            index <= supported@.len(),
            format_named(value@) == Some(format),
            forall|i: int| 0 <= i < index ==> supported@[i] != format,
        decreases supported@.len() - index,
    {
        if supported[index] == format {
            assert(supported@.contains(format));
            return Ok(format);
        }
        index = index + 1;
    }
    Err(FormatOverrideError::Unavailable(format))
}

/// What the surface answered to the request for its next texture.
#[derive(Clone, Copy, Debug, PartialEq, Eq, Structural)]
pub enum SurfaceStatus {
    Success,
    Suboptimal,
    Outdated,
    Lost,
    Timeout,
    Occluded,
    Validation,
}

/// What the renderer does with that answer.
#[derive(Clone, Copy, Debug, PartialEq, Eq, Structural)]
pub enum SurfaceAction {
    Draw,
    Reconfigure,
    Recreate,
    Skip,
    Fail,
}

/// Only a fresh texture is drawn to. A stale surface is set up again and the frame skipped; a
/// rejected request is the one answer that ends rendering.
pub fn surface_action(status: SurfaceStatus) -> (action: SurfaceAction)
    ensures
        action == match status {
            SurfaceStatus::Success => SurfaceAction::Draw,
            SurfaceStatus::Suboptimal | SurfaceStatus::Outdated => SurfaceAction::Reconfigure,
            SurfaceStatus::Lost => SurfaceAction::Recreate,
            SurfaceStatus::Timeout | SurfaceStatus::Occluded => SurfaceAction::Skip,
            SurfaceStatus::Validation => SurfaceAction::Fail,
        },
{
    match status {
        SurfaceStatus::Success => SurfaceAction::Draw,
        SurfaceStatus::Suboptimal => SurfaceAction::Reconfigure,
        SurfaceStatus::Outdated => SurfaceAction::Reconfigure,
        SurfaceStatus::Lost => SurfaceAction::Recreate,
        SurfaceStatus::Timeout => SurfaceAction::Skip,
        SurfaceStatus::Occluded => SurfaceAction::Skip,
        SurfaceStatus::Validation => SurfaceAction::Fail,
    }
}

pub const FALLBACK_WIDTH: u32 = 1280;

pub const FALLBACK_HEIGHT: u32 = 720;

/// The timing and configuration of what one surface shows.
#[derive(Clone, Copy, Debug, PartialEq, Eq, Structural)]
pub struct RenderSchedule {
    pub configured_size: Option<RenderSize>,
    pub module_initialized: bool,
    pub frame_pending: bool,
    pub started_at: Instant,
    pub last_frame_at: Instant,
}

pub open spec fn size_or(requested: u32, previous: u32) -> u32 {
    if requested == 0 {
        previous
    } else {
        requested
    }
}

impl RenderSchedule {
    pub fn new(module_started_at: Instant) -> (schedule: RenderSchedule)
        ensures
            schedule == (RenderSchedule {
                configured_size: None,
                module_initialized: false,
                frame_pending: false,
                started_at: module_started_at,
                last_frame_at: module_started_at,
            }),
    {
        RenderSchedule {
            configured_size: None,
            module_initialized: false,
            frame_pending: false,
            started_at: module_started_at,
            last_frame_at: module_started_at,
        }
    }

    pub open spec fn size_for(self, width: u32, height: u32) -> RenderSize {
        let previous = match self.configured_size {
            Some(size) => size,
            None => RenderSize { width: FALLBACK_WIDTH, height: FALLBACK_HEIGHT },
        };
        RenderSize {
            width: size_or(width, previous.width),
            height: size_or(height, previous.height),
        }
    }

    /// The size for a configure request; a dimension that the compositor leaves open keeps its
    /// previous value.
    pub fn requested_size(&self, width: u32, height: u32) -> (size: RenderSize)
        ensures
            size == self.size_for(width, height),
    {
        let previous = match self.configured_size {
            Some(size) => size,
            None => RenderSize { width: FALLBACK_WIDTH, height: FALLBACK_HEIGHT },
        };
        RenderSize {
            width: if width == 0 {
                previous.width
            } else {
                width
            },
            height: if height == 0 {
                previous.height
            } else {
                height
            },
        }
    }

    /// Records that the surface has the given size. Returns whether the module has to be
    /// initialized before it learns of it.
    pub fn configured(&mut self, size: RenderSize) -> (initialize_module: bool)
        ensures
            *final(self) == (RenderSchedule { configured_size: Some(size), ..*old(self) }),
            initialize_module == !old(self).module_initialized,
    {
        self.configured_size = Some(size);
        !self.module_initialized
    }

    pub fn initialized(&mut self)
        ensures
            *final(self) == (RenderSchedule { module_initialized: true, ..*old(self) }),
    {
        self.module_initialized = true;
    }

    /// Records that another module, prepared for the configured size, takes over.
    pub fn module_replaced(&mut self, now: Instant)
        ensures
            *final(self) == (RenderSchedule {
                module_initialized: old(self).configured_size is Some,
                started_at: now,
                last_frame_at: now,
                ..*old(self)
            }),
    {
        self.module_initialized = self.configured_size.is_some();
        self.started_at = now;
        self.last_frame_at = now;
    }

    /// Begins a frame on a surface that has a size.
    pub fn begin_frame(&mut self, frame_time: Instant) -> (frame: Option<FrameInfo>)
        ensures
            match old(self).configured_size {
                None => frame is None && *final(self) == *old(self),
                Some(size) => {
                    &&& frame == Some(
                        FrameInfo {
                            elapsed: frame_time.since(old(self).started_at),
                            delta: frame_time.since(old(self).last_frame_at),
                            size,
                        },
                    )
                    &&& *final(self) == (RenderSchedule { last_frame_at: frame_time, ..*old(self) })
                },
            },
    {
        match self.configured_size {
            None => None,
            Some(size) => {
                let frame = FrameInfo {
                    elapsed: frame_time.saturating_duration_since(self.started_at),
                    delta: frame_time.saturating_duration_since(self.last_frame_at),
                    size,
                };
                self.last_frame_at = frame_time;
                Some(frame)
            },
        }
    }

    /// Asks for a frame callback, when frames go on and none has been asked for yet.
    pub fn request_frame(&mut self, continuous: bool) -> (requested: bool)
        ensures
            requested == (continuous && !old(self).frame_pending),
            *final(self) == (RenderSchedule {
                frame_pending: old(self).frame_pending || continuous,
                ..*old(self)
            }),
    {
        if continuous && !self.frame_pending {
            self.frame_pending = true;
            true
        } else {
            false
        }
    }

    /// A frame that was skipped is retried through a callback of its own, so that a change of
    /// what is shown is not lost.
    pub fn retry_skipped(&mut self, outcome: RenderOutcome) -> (requested: bool)
        ensures
            requested == (outcome is Skipped && !old(self).frame_pending),
            *final(self) == (RenderSchedule {
                frame_pending: old(self).frame_pending || outcome is Skipped,
                ..*old(self)
            }),
    {
        self.request_frame(outcome == RenderOutcome::Skipped)
    }

    pub fn frame_arrived(&mut self)
        ensures
            *final(self) == (RenderSchedule { frame_pending: false, ..*old(self) }),
    {
        self.frame_pending = false;
    }
}

} // verus!
