//! Four walkers that run and rest, and the footprints they leave behind.

use vstd::prelude::*;

use crate::bytes;
use crate::random;

verus! {

pub const FOOTPRINT_DIMENSION: u32 = 8;

pub const WALKER_COUNT: usize = 4;

pub const MAX_FOOTPRINTS: usize = 64;

pub const FOOTPRINT_BYTES: usize = 32;

pub const GLOBAL_BYTES: usize = 16;

/// How many ticks pass at least between two footprints of a walker.
pub const FOOTPRINT_SPACING: u64 = 7;

/// How many ticks a footprint lasts.
pub const FOOTPRINT_AGE: u64 = 99;

#[derive(Clone, Copy, Debug, PartialEq, Eq, Structural)]
pub enum WalkerPhase {
    Paused { remaining: u64 },
    Moving { progress: u64, duration: u64 },
}

/// Draws how many ticks a run takes.
pub fn draw_duration() -> (duration: u64)
    ensures
        100 <= duration < 300,
{
    100 + random::below(200) as u64
}

/// What a tick asks of a walker.
#[derive(Clone, Copy, Debug, PartialEq, Eq, Structural)]
pub enum WalkerStep {
    /// The walker has come this far on its run.
    Moved { progress: u64 },
    /// The run is over and a pause begins.
    Stopped,
    /// The pause goes on.
    Waited,
    /// The pause is over and a run must be chosen.
    NeedsRun,
}

#[derive(Clone, Copy, Debug, PartialEq, Eq, Structural)]
pub struct WalkerState {
    pub last_footprint_tick: u64,
    pub left_foot: bool,
    pub phase: WalkerPhase,
}

/// What the shader reads of a footprint, by the bits of each scalar.
#[derive(Clone, Copy, Debug, PartialEq, Eq, Structural)]
pub struct Stamp {
    pub center_x: u32,
    pub center_y: u32,
    /// The turn of the print, in radians and against the sense of its rotation.
    pub turn: u32,
    /// The tick of the print as a scalar.
    pub birth: u32,
    pub red: u32,
    pub green: u32,
    pub blue: u32,
}

#[derive(Clone, Copy, Debug, PartialEq, Eq, Structural)]
pub struct Footprint {
    /// The walker who left the print.
    pub walker: usize,
    pub birth_tick: u64,
    pub stamp: Stamp,
}

impl WalkerPhase {
    pub open spec fn step(self) -> WalkerStep {
        match self {
            WalkerPhase::Moving { progress, duration } => if progress + 1 < duration {
                WalkerStep::Moved { progress: (progress + 1) as u64 }
            } else {
                WalkerStep::Stopped
            },
            WalkerPhase::Paused { remaining } => if remaining > 1 {
                WalkerStep::Waited
            } else {
                WalkerStep::NeedsRun
            },
        }
    }

    /// The phase after a tick, where a pause that begins lasts for `pause` ticks.
    pub open spec fn stepped(self, pause: u64) -> WalkerPhase {
        match self {
            WalkerPhase::Moving { progress, duration } => if progress + 1 < duration {
                WalkerPhase::Moving { progress: (progress + 1) as u64, duration }
            } else {
                WalkerPhase::Paused { remaining: pause }
            },
            WalkerPhase::Paused { remaining } => if remaining > 1 {
                WalkerPhase::Paused { remaining: (remaining - 1) as u64 }
            } else {
                self
            },
        }
    }
}

/// How many ticks ago something happened; nothing that is yet to come has an age.
pub open spec fn age(birth: u64, tick: u64) -> int {
    if birth <= tick {
        tick - birth
    } else {
        0
    }
}

/// The footprints that still last at a tick.
pub open spec fn lasting(footprints: Seq<Footprint>, tick: u64) -> Seq<Footprint> {
    footprints.filter(|footprint: Footprint| age(footprint.birth_tick, tick) <= FOOTPRINT_AGE)
}

/// The footprints of a walker follow each other with at least the required spacing.
pub open spec fn spaced(footprints: Seq<Footprint>) -> bool {
    forall|i: int, j: int|
        #![trigger footprints[i], footprints[j]]
        0 <= i < j < footprints.len() && footprints[i].walker == footprints[j].walker
            ==> footprints[i].birth_tick + FOOTPRINT_SPACING <= footprints[j].birth_tick
}

/// Every footprint belongs to a walker and is no older than the walker's last one by more than a
/// footprint's age.
pub open spec fn attributed(footprints: Seq<Footprint>, walkers: Seq<WalkerState>) -> bool {
    forall|i: int|
        #![trigger footprints[i]]
        0 <= i < footprints.len() ==> {
            let footprint = footprints[i];
            &&& footprint.walker < WALKER_COUNT
            &&& footprint.birth_tick <= walkers[footprint.walker as int].last_footprint_tick
            &&& walkers[footprint.walker as int].last_footprint_tick - footprint.birth_tick
                <= FOOTPRINT_AGE
        }
}

pub struct FootprintState {
    pub last_tick: Option<u64>,
    pub walkers: Vec<WalkerState>,
    pub footprints: Vec<Footprint>,
}

impl FootprintState {
    pub open spec fn wf(self) -> bool {
        &&& self.walkers@.len() == WALKER_COUNT
        &&& spaced(self.footprints@)
        &&& attributed(self.footprints@, self.walkers@)
    }

    /// Whether every footprint still lasts at a tick.
    pub open spec fn settled(self, tick: u64) -> bool {
        forall|i: int|
            #![trigger self.footprints@[i]]
            0 <= i < self.footprints@.len() ==> age(self.footprints@[i].birth_tick, tick)
                <= FOOTPRINT_AGE
    }

    /// Four walkers at rest. The tick zero counts as seen.
    pub fn new() -> (state: Self)
        ensures
            state.wf(),
            state.last_tick == Some(0u64),
            state.footprints@.len() == 0,
            forall|i: int|
                0 <= i < WALKER_COUNT ==> #[trigger] state.walkers@[i] == (WalkerState {
                    last_footprint_tick: 0,
                    left_foot: false,
                    phase: WalkerPhase::Paused { remaining: 0 },
                }),
    {
        let walker = WalkerState {
            last_footprint_tick: 0,
            left_foot: false,
            phase: WalkerPhase::Paused { remaining: 0 },
        };
        FootprintState {
            last_tick: Some(0),
            walkers: vec![walker, walker, walker, walker],
            footprints: Vec::new(),
        }
    }

    /// Takes note of a tick. A tick that was seen already changes nothing; any other removes the
    /// footprints that no longer last.
    pub fn begin(&mut self, tick: u64) -> (began: bool)
        requires
            old(self).wf(),
        ensures
            final(self).wf(),
            began == (old(self).last_tick != Some(tick)),
            final(self).last_tick == Some(tick),
            final(self).walkers@ == old(self).walkers@,
            final(self).footprints@ == if began {
                lasting(old(self).footprints@, tick)
            } else {
                old(self).footprints@
            },
            began ==> final(self).settled(tick),
    {
        if let Some(last) = self.last_tick {
            if last == tick {
                return false;
            }
        }
        self.last_tick = Some(tick);
        let kept = retain(&self.footprints, tick, Ghost(self.walkers@));
        self.footprints = kept;
        true
    }

    /// Lets a walker take a step. A pause that begins lasts from 20 to 39 ticks.
    pub fn advance_walker(&mut self, walker: usize) -> (step: WalkerStep)
        requires
            old(self).wf(),
            walker < WALKER_COUNT,
        ensures
            final(self).wf(),
            step == old(self).walkers@[walker as int].phase.step(),
            final(self).last_tick == old(self).last_tick,
            final(self).footprints@ == old(self).footprints@,
            exists|pause: u64|
                20 <= pause < 40 && final(self).walkers@ == old(self).walkers@.update(
                    walker as int,
                    (WalkerState {
                        phase: #[trigger] old(self).walkers@[walker as int].phase.stepped(pause),
                        ..old(self).walkers@[walker as int]
                    }),
                ),
    {
        let before = self.walkers[walker];
        let mut pause: u64 = 20;
        let step: WalkerStep;
        let phase: WalkerPhase;
        match before.phase {
            WalkerPhase::Moving { progress, duration } => {
                if progress < duration && duration - progress > 1 {
                    step = WalkerStep::Moved { progress: progress + 1 };
                    phase = WalkerPhase::Moving { progress: progress + 1, duration };
                } else {
                    pause = 20 + random::below(20) as u64;
                    step = WalkerStep::Stopped;
                    phase = WalkerPhase::Paused { remaining: pause };
                }
            },
            WalkerPhase::Paused { remaining } => {
                if remaining > 1 {
                    step = WalkerStep::Waited;
                    phase = WalkerPhase::Paused { remaining: remaining - 1 };
                } else {
                    step = WalkerStep::NeedsRun;
                    phase = before.phase;
                }
            },
        }
        assert(phase == before.phase.stepped(pause));
        self.walkers.set(walker, WalkerState { phase, ..before });
        step
    }

    /// Starts a run that was chosen.
    pub fn start_run(&mut self, walker: usize, duration: u64)
        requires
            old(self).wf(),
            walker < WALKER_COUNT,
        ensures
            final(self).wf(),
            final(self).last_tick == old(self).last_tick,
            final(self).footprints@ == old(self).footprints@,
            final(self).walkers@ == old(self).walkers@.update(
                walker as int,
                (WalkerState {
                    phase: WalkerPhase::Moving { progress: 0, duration },
                    ..old(self).walkers@[walker as int]
                }),
            ),
    {
        let before = self.walkers[walker];
        self.walkers.set(
            walker,
            WalkerState { phase: WalkerPhase::Moving { progress: 0, duration }, ..before },
        );
    }

    /// Whether the walker's next footprint is that of the left foot.
    pub fn next_foot_is_left(&self, walker: usize) -> (left: bool)
        requires
            self.wf(),
            walker < WALKER_COUNT,
        ensures
            left == !self.walkers@[walker as int].left_foot,
    {
        !self.walkers[walker].left_foot
    }

    /// Leaves a footprint where the walker's last one is old enough.
    pub fn tread(&mut self, walker: usize, tick: u64, stamp: Stamp) -> (left: bool)
        requires
            old(self).wf(),
            old(self).settled(tick),
            walker < WALKER_COUNT,
        ensures
            final(self).wf(),
            final(self).settled(tick),
            left == (age(old(self).walkers@[walker as int].last_footprint_tick, tick)
                >= FOOTPRINT_SPACING),
            final(self).last_tick == old(self).last_tick,
            final(self).walkers@ == if left {
                old(self).walkers@.update(
                    walker as int,
                    WalkerState {
                        last_footprint_tick: tick,
                        left_foot: !old(self).walkers@[walker as int].left_foot,
                        phase: old(self).walkers@[walker as int].phase,
                    },
                )
            } else {
                old(self).walkers@
            },
            final(self).footprints@ == if left {
                old(self).footprints@.push(Footprint { walker, birth_tick: tick, stamp })
            } else {
                old(self).footprints@
            },
    {
        let before = self.walkers[walker];
        if tick < before.last_footprint_tick || tick - before.last_footprint_tick
            < FOOTPRINT_SPACING {
            return false;
        }
        self.walkers.set(
            walker,
            WalkerState {
                last_footprint_tick: tick,
                left_foot: !before.left_foot,
                phase: before.phase,
            },
        );
        self.footprints.push(Footprint { walker, birth_tick: tick, stamp });
        proof {
            let footprints = self.footprints@;
            let walkers = self.walkers@;
            assert forall|i: int, j: int|
                #![trigger footprints[i], footprints[j]]
                0 <= i < j < footprints.len() && footprints[i].walker == footprints[j].walker implies
                footprints[i].birth_tick + FOOTPRINT_SPACING <= footprints[j].birth_tick by {
                assert(footprints[i] == old(self).footprints@[i]);
                if j < old(self).footprints@.len() {
                    assert(footprints[j] == old(self).footprints@[j]);
                }
            }
            assert forall|i: int|
                #![trigger footprints[i]]
                0 <= i < footprints.len() implies {
                let footprint = footprints[i];
                &&& footprint.walker < WALKER_COUNT
                &&& footprint.birth_tick <= walkers[footprint.walker as int].last_footprint_tick
                &&& walkers[footprint.walker as int].last_footprint_tick - footprint.birth_tick
                    <= FOOTPRINT_AGE
            } by {
                if i < old(self).footprints@.len() {
                    assert(footprints[i] == old(self).footprints@[i]);
                }
            }
            assert forall|i: int|
                #![trigger footprints[i]]
                0 <= i < footprints.len() implies age(footprints[i].birth_tick, tick)
                <= FOOTPRINT_AGE by {
                if i < old(self).footprints@.len() {
                    assert(footprints[i] == old(self).footprints@[i]);
                }
            }
        }
        true
    }
}

spec fn comes_from(footprint: Footprint, footprints: Seq<Footprint>, upto: int) -> bool {
    exists|j: int| 0 <= j < upto && #[trigger] footprints[j] == footprint
}

fn retain(footprints: &Vec<Footprint>, tick: u64, walkers: Ghost<Seq<WalkerState>>) -> (kept: Vec<
    Footprint,
>)
    requires
        spaced(footprints@),
        attributed(footprints@, walkers@),
    ensures
        kept@ == lasting(footprints@, tick),
        spaced(kept@),
        attributed(kept@, walkers@),
        forall|i: int|
            #![trigger kept@[i]]
            0 <= i < kept@.len() ==> age(kept@[i].birth_tick, tick) <= FOOTPRINT_AGE,
{
    let mut kept: Vec<Footprint> = Vec::new();
    let mut index: usize = 0;
    let ghost lasts = |footprint: Footprint| age(footprint.birth_tick, tick) <= FOOTPRINT_AGE;
    proof {
        reveal(Seq::filter);
        assert(footprints@.take(0).filter(lasts) == Seq::<Footprint>::empty());
    }
    while index < footprints.len()
        invariant
            index <= footprints@.len(),
            spaced(footprints@),
            attributed(footprints@, walkers@),
            lasts == (|footprint: Footprint| age(footprint.birth_tick, tick) <= FOOTPRINT_AGE),
            kept@ == footprints@.take(index as int).filter(lasts),
            forall|i: int|
                #![trigger kept@[i]]
                0 <= i < kept@.len() ==> comes_from(kept@[i], footprints@, index as int) && lasts(
                    kept@[i],
                ),
            spaced(kept@),
        decreases footprints@.len() - index,
    {
        let footprint = footprints[index];
        let ghost before = kept@;
        proof {
            reveal(Seq::filter);
            assert(footprints@.take(index + 1).drop_last() == footprints@.take(index as int));
            assert(footprints@.take(index + 1).last() == footprint);
            assert forall|i: int|
                #![trigger before[i]]
                0 <= i < before.len() implies comes_from(before[i], footprints@, index + 1) by {
                let j = choose|j: int|
                    0 <= j < index && #[trigger] footprints@[j] == before[i];
                assert(footprints@[j] == before[i]);
            }
        }
        if tick < footprint.birth_tick || tick - footprint.birth_tick <= FOOTPRINT_AGE {
            kept.push(footprint);
            proof {
                assert(footprints@[index as int] == footprint);
                assert forall|i: int, j: int|
                    #![trigger kept@[i], kept@[j]]
                    0 <= i < j < kept@.len() && kept@[i].walker == kept@[j].walker implies
                    kept@[i].birth_tick + FOOTPRINT_SPACING <= kept@[j].birth_tick by {
                    assert(kept@[i] == before[i]);
                    if j < before.len() {
                        assert(kept@[j] == before[j]);
                    } else {
                        let k = choose|k: int|
                            0 <= k < index && #[trigger] footprints@[k] == before[i];
                        assert(footprints@[k] == before[i]);
                    }
                }
            }
        }
        index = index + 1;
    }
    proof {
        assert(footprints@.take(footprints@.len() as int) == footprints@);
        assert forall|i: int|
            #![trigger kept@[i]]
            0 <= i < kept@.len() implies {
            let footprint = kept@[i];
            &&& footprint.walker < WALKER_COUNT
            &&& footprint.birth_tick <= walkers@[footprint.walker as int].last_footprint_tick
            &&& walkers@[footprint.walker as int].last_footprint_tick - footprint.birth_tick
                <= FOOTPRINT_AGE
        } by {
            let j = choose|j: int|
                0 <= j < footprints@.len() && #[trigger] footprints@[j] == kept@[i];
            assert(footprints@[j] == kept@[i]);
        }
    }
    kept
}

/// How many footprints are those of a walker.
pub open spec fn count_of(footprints: Seq<Footprint>, walker: int) -> nat
    decreases footprints.len(),
{
    if footprints.len() == 0 {
        0
    } else {
        count_of(footprints.drop_last(), walker) + if footprints.last().walker == walker {
            1nat
        } else {
            0
        }
    }
}

proof fn lemma_counts_add_up(footprints: Seq<Footprint>)
    requires
        forall|i: int| 0 <= i < footprints.len() ==> (#[trigger] footprints[i]).walker
            < WALKER_COUNT,
    ensures
        footprints.len() == count_of(footprints, 0) + count_of(footprints, 1) + count_of(
            footprints,
            2,
        ) + count_of(footprints, 3),
    decreases footprints.len(),
{
    if footprints.len() > 0 {
        lemma_counts_add_up(footprints.drop_last());
        assert(footprints[footprints.len() - 1].walker < WALKER_COUNT);
    }
}

proof fn lemma_one_walkers_prints(footprints: Seq<Footprint>, walker: int, low: int, next: int)
    requires
        spaced(footprints),
        forall|i: int|
            0 <= i < footprints.len() && (#[trigger] footprints[i]).walker == walker ==> low
                <= footprints[i].birth_tick && footprints[i].birth_tick + FOOTPRINT_SPACING <= next,
        low <= next,
    ensures
        low + FOOTPRINT_SPACING * count_of(footprints, walker) <= next,
    decreases footprints.len(),
{
    if footprints.len() > 0 {
        let last = footprints.last();
        let before = footprints.drop_last();
        assert(forall|i: int| 0 <= i < before.len() ==> before[i] == footprints[i]);
        assert(last == footprints[footprints.len() - 1]);
        if last.walker == walker {
            assert forall|i: int| 0 <= i < before.len() && (#[trigger] before[i]).walker
                == walker implies low <= before[i].birth_tick && before[i].birth_tick
                + FOOTPRINT_SPACING <= last.birth_tick by {
                assert(before[i] == footprints[i]);
            }
            lemma_one_walkers_prints(before, walker, low, last.birth_tick as int);
        } else {
            lemma_one_walkers_prints(before, walker, low, next);
        }
    }
}

/// The footprints always fit into the buffer: no walker ever has more than fifteen.
pub proof fn lemma_footprints_fit(state: FootprintState)
    requires
        state.wf(),
    ensures
        state.footprints@.len() <= 60,
        state.footprints@.len() <= MAX_FOOTPRINTS,
{
    let footprints = state.footprints@;
    let walkers = state.walkers@;
    lemma_counts_add_up(footprints);
    assert forall|walker: int| 0 <= walker < WALKER_COUNT implies #[trigger] count_of(
        footprints,
        walker,
    ) <= 15 by {
        let last = walkers[walker].last_footprint_tick;
        lemma_one_walkers_prints(
            footprints,
            walker,
            last - FOOTPRINT_AGE,
            last + FOOTPRINT_SPACING,
        );
    }
    assert(count_of(footprints, 0) <= 15 && count_of(footprints, 1) <= 15 && count_of(footprints, 2)
        <= 15 && count_of(footprints, 3) <= 15);
}

/// A walker who stops keeps resting until the pause is over, and a run that goes on comes one step
/// further with every tick.
pub proof fn lemma_walkers_make_progress(phase: WalkerPhase, pause: u64)
    ensures
        match phase.step() {
            WalkerStep::Moved { progress } => {
                &&& phase is Moving
                &&& progress == phase->progress + 1
                &&& progress < phase->duration
                &&& phase.stepped(pause) == (WalkerPhase::Moving {
                    progress,
                    duration: phase->duration,
                })
            },
            WalkerStep::Stopped => phase.stepped(pause) == (WalkerPhase::Paused {
                remaining: pause,
            }),
            WalkerStep::Waited => phase.stepped(pause)->remaining + 1 == phase->remaining,
            WalkerStep::NeedsRun => phase.stepped(pause) == phase,
        },
{
}

/// The global uniforms: the time, the scales of both axes and a word of padding.
pub fn global_bytes(shader_time: u32, scale_x: u32, scale_y: u32) -> (encoded: Vec<u8>)
    ensures
        encoded@.len() == GLOBAL_BYTES,
        bytes::holds_le_words(encoded@, seq![shader_time, scale_x, scale_y, 0u32]),
{
    let words: [u32; 4] = [shader_time, scale_x, scale_y, 0];
    assert(words@ == seq![shader_time, scale_x, scale_y, 0u32]);
    bytes::encode_le_words(words.as_slice())
}

/// The word at a place of the footprint buffer: eight words for each footprint, and zeros after the
/// last.
pub open spec fn footprint_word(footprints: Seq<Footprint>, place: int) -> u32 {
    if place / 8 >= footprints.len() {
        0
    } else {
        let stamp = footprints[place / 8].stamp;
        seq![
            stamp.center_x,
            stamp.center_y,
            stamp.turn,
            stamp.birth,
            stamp.red,
            stamp.green,
            stamp.blue,
            0u32,
        ][place % 8]
    }
}

/// Lays out the footprint buffer.
pub fn footprint_bytes(footprints: &Vec<Footprint>) -> (encoded: Vec<u8>)
    requires
        footprints@.len() <= MAX_FOOTPRINTS,
    ensures
        encoded@.len() == MAX_FOOTPRINTS * FOOTPRINT_BYTES,
        bytes::holds_le_words(
            encoded@,
            Seq::new(512, |place: int| footprint_word(footprints@, place)),
        ),
{
    let ghost expected = Seq::new(512, |place: int| footprint_word(footprints@, place));
    let mut words: Vec<u32> = Vec::new();
    let mut place: usize = 0;
    while place < 512
        invariant
            place <= 512,
            expected == Seq::new(512, |place: int| footprint_word(footprints@, place)),
            words@ == expected.take(place as int),
        decreases 512 - place,
    {
        let mut word: u32 = 0;
        if place / 8 < footprints.len() {
            let stamp = footprints[place / 8].stamp;
            let field: usize = place % 8;
            word = if field == 0 {
                stamp.center_x
            } else if field == 1 {
                stamp.center_y
            } else if field == 2 {
                stamp.turn
            } else if field == 3 {
                stamp.birth
            } else if field == 4 {
                stamp.red
            } else if field == 5 {
                stamp.green
            } else if field == 6 {
                stamp.blue
            } else {
                0
            };
        }
        words.push(word);
        assert(expected.take(place + 1) == expected.take(place as int).push(word));
        place = place + 1;
    }
    assert(expected.take(512) == expected);
    bytes::encode_le_words(words.as_slice())
}

/// What the GPU draws, after [`crate::modules::SRGB_TO_LINEAR`].
pub const SHADER: &'static str = r#"
struct Globals {
    tick: f32,
    clip_scale_x: f32,
    clip_scale_y: f32,
    _padding: f32,
};

struct Footprint {
    center: vec2<f32>,
    rotation: f32,
    birth_tick: f32,
    color: vec3<f32>,
    _padding: f32,
};

struct VertexOutput {
    @builtin(position) position: vec4<f32>,
    @location(0) tex: vec2<f32>,
    @location(1) color: vec3<f32>,
    @location(2) alpha: f32,
};

@group(0) @binding(0) var<uniform> globals: Globals;
@group(0) @binding(1) var<storage, read> footprints: array<Footprint>;
@group(0) @binding(2) var footprint_texture: texture_2d<f32>;
@group(0) @binding(3) var footprint_sampler: sampler;

@vertex
fn vs_main(
    @builtin(vertex_index) vertex_index: u32,
    @builtin(instance_index) instance_index: u32,
) -> VertexOutput {
    let texcoords = array<vec2<f32>, 6>(
        vec2<f32>(0.0, 0.0), vec2<f32>(1.0, 0.0), vec2<f32>(0.0, 1.0),
        vec2<f32>(1.0, 0.0), vec2<f32>(1.0, 1.0), vec2<f32>(0.0, 1.0),
    );
    let footprint = footprints[instance_index];
    let s = sin(footprint.rotation);
    let c = cos(footprint.rotation);
    let position = texcoords[vertex_index] - vec2<f32>(0.5);
    let rotated = vec2<f32>(
        c * position.x - s * position.y,
        s * position.x + c * position.y,
    );

    var output: VertexOutput;
    let clip_scale = vec2<f32>(globals.clip_scale_x, globals.clip_scale_y);
    output.position = vec4<f32>((rotated + footprint.center) * clip_scale, 0.5, 1.0);
    output.tex = texcoords[vertex_index];
    output.color = footprint.color;
    output.alpha = mix(0.75, 0.0, (globals.tick - footprint.birth_tick) / 100.0);
    return output;
}

@fragment
fn fs_main(input: VertexOutput) -> @location(0) vec4<f32> {
    if (input.alpha == 0.0) {
        discard;
    }
    let sampled = textureSample(footprint_texture, footprint_sampler, input.tex);
    return vec4<f32>(to_linear(sampled.rgb * input.color), sampled.a * input.alpha);
}
"#;

} // verus!
