use vstd::prelude::*;

verus! {

/// Registers the built-in sprite extraction, draw and material paths.
#[derive(Clone, Copy, Debug, PartialEq, Eq, Structural)]
pub struct SpriteFeature;

impl SpriteFeature {
    /// The default sprite feature: the lit HDR path.
    pub fn new() -> (r: SpriteFeature)
        ensures
            r == SpriteFeature::lit_hdr_spec(),
    {
        Self::lit_hdr()
    }

    pub open spec fn lit_hdr_spec() -> SpriteFeature {
        SpriteFeature
    }

    pub fn lit_hdr() -> (r: SpriteFeature)
        ensures
            r == SpriteFeature::lit_hdr_spec(),
    {
        SpriteFeature
    }

    pub fn unlit() -> (r: SpriteFeature)
        ensures
            r == SpriteFeature,
    {
        SpriteFeature
    }

    /// Name under which the feature registers.
    pub fn name(&self) -> (r: &'static str)
        ensures
            r@ == "sprite"@,
    {
        "sprite"
    }
}

/// How long a frame shows: its duration, at least one millisecond.
pub open spec fn frame_ms(d: u32) -> int {
    if d >= 1 {
        d as int
    } else {
        1
    }
}

/// Total of the frame durations of `durations`, each at least 1 ms.
pub open spec fn total_ms(durations: Seq<u32>) -> int
    decreases durations.len(),
{
    if durations.len() == 0 {
        0
    } else {
        total_ms(durations.drop_last()) + frame_ms(durations.last())
    }
}

/// Timing of a sprite animation clip: the duration of each frame and the
/// clip's length (the sum, each frame at least 1 ms, the clip at least 1 ms).
#[derive(Debug)]
pub struct SpriteClipTiming {
    pub frame_durations: Vec<u32>,
    pub duration_ms: u32,
}

impl SpriteClipTiming {
    pub fn new(frame_durations: Vec<u32>) -> (r: SpriteClipTiming)
        requires
            total_ms(frame_durations@) <= u32::MAX,
        ensures
            r.frame_durations@ == frame_durations@,
            r.duration_ms == (if total_ms(frame_durations@) >= 1 {
                total_ms(frame_durations@)
            } else {
                1
            }),
    {
        let mut sum: u32 = 0;
        let mut i: usize = 0;
        assert(frame_durations@.take(0) =~= Seq::<u32>::empty());
        while i < frame_durations.len()
            invariant
                i <= frame_durations.len(),
                total_ms(frame_durations@) <= u32::MAX,
                sum == total_ms(frame_durations@.take(i as int)),
            decreases frame_durations.len() - i,
        {
            assert(frame_durations@.take(i + 1).drop_last() =~= frame_durations@.take(i as int));
            proof {
                lemma_total_ms_prefix(frame_durations@, i as int + 1);
            }
            let d = frame_durations[i];
            sum = sum + if d >= 1 {
                d
            } else {
                1
            };
            i = i + 1;
        }
        assert(frame_durations@.take(i as int) =~= frame_durations@);
        let duration_ms = if sum >= 1 {
            sum
        } else {
            1
        };
        SpriteClipTiming { frame_durations, duration_ms }
    }
}

proof fn lemma_total_ms_prefix(s: Seq<u32>, k: int)
    requires
        0 <= k <= s.len(),
    ensures
        total_ms(s.take(k)) <= total_ms(s),
        0 <= total_ms(s.take(k)),
    decreases s.len(),
{
    if k == s.len() {
        assert(s.take(k) =~= s);
        lemma_total_ms_nonneg(s);
    } else {
        let t = s.drop_last();
        assert(s.take(k) =~= t.take(k));
        lemma_total_ms_prefix(t, k);
        lemma_total_ms_nonneg(t);
    }
}

proof fn lemma_total_ms_nonneg(s: Seq<u32>)
    ensures
        0 <= total_ms(s),
    decreases s.len(),
{
    if s.len() > 0 {
        lemma_total_ms_nonneg(s.drop_last());
    }
}

/// The frame of `durations` that shows at `phase` ms into the clip: the
/// first whose end lies beyond `phase`; past the end, the last frame.
pub open spec fn spec_frame_index(durations: Seq<u32>, phase: int) -> int {
    if exists|i: int| 0 <= i < durations.len() && phase < #[trigger] total_ms(durations.take(i + 1)) {
        choose|i: int|
            0 <= i < durations.len() && phase < #[trigger] total_ms(durations.take(i + 1))
                && forall|j: int| 0 <= j < i ==> phase >= #[trigger] total_ms(durations.take(j + 1))
    } else if durations.len() > 0 {
        durations.len() - 1
    } else {
        0
    }
}

/// Index of the frame that shows `phase_ms` into a clip with frame
/// durations `durations`.
pub fn frame_index_for_phase(durations: &Vec<u32>, phase_ms: u32) -> (r: usize)
    ensures
        r == spec_frame_index(durations@, phase_ms as int),
{
    let mut phase = phase_ms;
    let mut i: usize = 0;
    assert(durations@.take(0) =~= Seq::<u32>::empty());
    while i < durations.len()
        invariant
            i <= durations.len(),
            phase == phase_ms - total_ms(durations@.take(i as int)),
            phase_ms >= total_ms(durations@.take(i as int)),
            forall|j: int| 0 <= j < i ==> phase_ms >= #[trigger] total_ms(durations@.take(j + 1)),
        decreases durations.len() - i,
    {
        assert(durations@.take(i + 1).drop_last() =~= durations@.take(i as int));
        let d = durations[i];
        let duration = if d >= 1 {
            d
        } else {
            1
        };
        if phase < duration {
            proof {
                let s = durations@;
                assert(phase_ms < total_ms(s.take(i + 1)));
                let k = choose|k: int|
                    0 <= k < s.len() && phase_ms < #[trigger] total_ms(s.take(k + 1)) && forall|
                        j: int,
                    | 0 <= j < k ==> phase_ms >= #[trigger] total_ms(s.take(j + 1));
                if k < i {
                    assert(phase_ms >= total_ms(s.take(k + 1)));
                }
                if k > i {
                    assert(phase_ms >= total_ms(s.take(i + 1)));
                }
            }
            return i;
        }
        phase = phase - duration;
        i = i + 1;
    }
    if durations.len() == 0 {
        0
    } else {
        durations.len() - 1
    }
}

/// Where a looping clip is `elapsed_ms` after its start.
pub fn looped_phase_ms(elapsed_ms: u64, duration_ms: u32) -> (r: u32)
    ensures
        r == (elapsed_ms as int) % (if duration_ms >= 1 {
            duration_ms as int
        } else {
            1int
        }),
{
    let duration: u64 = if duration_ms >= 1 {
        duration_ms as u64
    } else {
        1
    };
    (elapsed_ms % duration) as u32
}

/// Playback of a clip that does not repeat, `elapsed_ms` after its start:
/// the phase stays on the clip's last millisecond, and playback ends once the
/// clip's length has passed.
pub fn non_repeating_phase_ms(elapsed_ms: u32, duration_ms: u32) -> (r: (u32, bool))
    ensures
        r.0 == (if elapsed_ms <= (if duration_ms >= 1 {
            duration_ms as int
        } else {
            1
        }) - 1 {
            elapsed_ms as int
        } else {
            (if duration_ms >= 1 {
                duration_ms as int
            } else {
                1
            }) - 1
        }),
        r.1 == (elapsed_ms >= (if duration_ms >= 1 {
            duration_ms as int
        } else {
            1
        })),
{
    let duration = if duration_ms >= 1 {
        duration_ms
    } else {
        1
    };
    let last = duration - 1;
    let phase = if elapsed_ms <= last {
        elapsed_ms
    } else {
        last
    };
    (phase, elapsed_ms >= duration)
}

} // verus!
