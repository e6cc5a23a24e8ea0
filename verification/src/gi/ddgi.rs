use crate::gi::providers::DdgiDebugMode;
use crate::gi::ssgi::pow2;
use vstd::prelude::*;

verus! {

/// Texels of border that every probe tile of the DDGI atlases carries on
/// each side.
pub const DDGI_ATLAS_BORDER_TEXELS: u32 = 1;

pub open spec fn sat_u32(v: int) -> int {
    if v <= u32::MAX {
        v
    } else {
        u32::MAX as int
    }
}

/// Side of one probe tile: the probe resolution plus a border on both sides
/// (saturating).
pub fn ddgi_tile_resolution(resolution: u32) -> (r: u32)
    ensures
        r == sat_u32(resolution + 2 * DDGI_ATLAS_BORDER_TEXELS),
{
    resolution.saturating_add(DDGI_ATLAS_BORDER_TEXELS * 2)
}

/// Size of a DDGI atlas for a probe grid of `counts` probes: the x probes
/// side by side, the y and z probes stacked, each a tile of
/// `ddgi_tile_resolution(resolution)` texels; saturating, at least 1.
pub open spec fn spec_ddgi_atlas_size(counts: [u32; 3], resolution: u32) -> (int, int) {
    let tile = sat_u32(resolution + 2 * DDGI_ATLAS_BORDER_TEXELS);
    let width = sat_u32(counts[0] * tile);
    let height = sat_u32(sat_u32(counts[1] * counts[2]) * tile);
    (if width >= 1 {
        width
    } else {
        1
    }, if height >= 1 {
        height
    } else {
        1
    })
}

fn saturating_mul_u32(a: u32, b: u32) -> (r: u32)
    ensures
        r == sat_u32(a * b),
{
    match a.checked_mul(b) {
        Some(v) => v,
        None => u32::MAX,
    }
}

pub fn ddgi_atlas_size(counts: [u32; 3], resolution: u32) -> (r: (u32, u32))
    ensures
        r.0 == spec_ddgi_atlas_size(counts, resolution).0,
        r.1 == spec_ddgi_atlas_size(counts, resolution).1,
{
    let tile = ddgi_tile_resolution(resolution);
    let width = saturating_mul_u32(counts[0], tile);
    let height = saturating_mul_u32(saturating_mul_u32(counts[1], counts[2]), tile);
    (if width >= 1 {
        width
    } else {
        1
    }, if height >= 1 {
        height
    } else {
        1
    })
}

/// Texels that one DDGI update dispatch covers: the larger of the two atlases
/// on each axis.
pub fn dispatch_size(
    irradiance_width: u32,
    irradiance_height: u32,
    visibility_width: u32,
    visibility_height: u32,
) -> (r: (u32, u32))
    ensures
        r.0 == if irradiance_width >= visibility_width {
            irradiance_width
        } else {
            visibility_width
        },
        r.1 == if irradiance_height >= visibility_height {
            irradiance_height
        } else {
            visibility_height
        },
{
    (
        if irradiance_width >= visibility_width {
            irradiance_width
        } else {
            visibility_width
        },
        if irradiance_height >= visibility_height {
            irradiance_height
        } else {
            visibility_height
        },
    )
}

/// `p` is the smallest power of two that is at least `n`.
pub open spec fn is_next_power_of_two(n: int, p: int) -> bool {
    &&& exists|e: nat| #[trigger] pow2(e) == p
    &&& p >= n
    &&& (p == 1 || p / 2 < n)
}

/// Capacity of a GPU buffer that must hold `required` items: unchanged while
/// it is large enough, else grown to the next power of two of `required`.
pub fn grown_capacity(current: usize, required: usize) -> (r: usize)
    requires
        required <= usize::MAX / 2 + 1,
    ensures
        required <= current ==> r == current,
        required > current ==> is_next_power_of_two(required as int, r as int),
{
    if required <= current {
        return current;
    }
    let mut p: usize = 1;
    let ghost mut e: nat = 0;
    while p < required
        invariant
            required <= usize::MAX / 2 + 1,
            pow2(e) == p,
            p >= 1,
            p == 1 || p / 2 < required,
        decreases usize::MAX - p,
    {
        p = p * 2;
        proof {
            e = e + 1;
        }
    }
    p
}

/// The DDGI runtime's state from frame to frame: the sizes of its probe
/// atlases, which of its two atlas pairs is written this frame, its frame
/// counter, whether the next frame must update every probe, and the probe
/// grid and resolutions the history was traced with.
#[derive(Clone, Copy, Debug, PartialEq, Eq)]
pub struct DdgiHistory {
    pub irradiance_atlas: [u32; 2],
    pub visibility_atlas: [u32; 2],
    pub current_is_a: bool,
    pub frame_index: u32,
    pub force_full_update: bool,
    pub history_valid: bool,
    pub history_counts: [u32; 3],
    pub history_irradiance_resolution: u32,
    pub history_visibility_resolution: u32,
}

impl DdgiHistory {
    /// The state of a new runtime: one-texel atlases, pair A current, no
    /// history, a full update due.
    pub fn new() -> (r: DdgiHistory)
        ensures
            r == (DdgiHistory {
                irradiance_atlas: [1u32, 1u32],
                visibility_atlas: [1u32, 1u32],
                current_is_a: true,
                frame_index: 0,
                force_full_update: true,
                history_valid: false,
                history_counts: [1u32, 1u32, 1u32],
                history_irradiance_resolution: 1,
                history_visibility_resolution: 1,
            }),
    {
        DdgiHistory {
            irradiance_atlas: [1, 1],
            visibility_atlas: [1, 1],
            current_is_a: true,
            frame_index: 0,
            force_full_update: true,
            history_valid: false,
            history_counts: [1, 1, 1],
            history_irradiance_resolution: 1,
            history_visibility_resolution: 1,
        }
    }

    /// Takes new atlas sizes. Where they differ from the current ones, the
    /// atlases must be created anew (the result is `true`): pair A becomes
    /// current, the frame counter restarts, the history is dropped and a
    /// full update is due.
    pub fn resize_atlas_if_needed(&mut self, irradiance: (u32, u32), visibility: (u32, u32)) -> (resized: bool)
        ensures
            resized == !(old(self).irradiance_atlas == [irradiance.0, irradiance.1]
                && old(self).visibility_atlas == [visibility.0, visibility.1]),
            resized ==> *final(self) == (DdgiHistory {
                irradiance_atlas: [irradiance.0, irradiance.1],
                visibility_atlas: [visibility.0, visibility.1],
                current_is_a: true,
                frame_index: 0,
                force_full_update: true,
                history_valid: false,
                ..*old(self)
            }),
            !resized ==> *final(self) == *old(self),
    {
        if self.irradiance_atlas[0] == irradiance.0 && self.irradiance_atlas[1] == irradiance.1
            && self.visibility_atlas[0] == visibility.0 && self.visibility_atlas[1]
            == visibility.1 {
            assert(self.irradiance_atlas =~= [irradiance.0, irradiance.1]);
            assert(self.visibility_atlas =~= [visibility.0, visibility.1]);
            return false;
        }
        self.irradiance_atlas = [irradiance.0, irradiance.1];
        self.visibility_atlas = [visibility.0, visibility.1];
        self.current_is_a = true;
        self.frame_index = 0;
        self.force_full_update = true;
        self.history_valid = false;
        true
    }

    /// Takes the probe volume of this frame. Where there is no history, the
    /// volume moved (`volume_moved`, which compares the floating-point origin
    /// and spacing), or the probe grid or a resolution changed, the history
    /// restarts from this volume: the frame counter restarts and a full
    /// update is due (the result is `true`).
    pub fn invalidate_history_if_volume_changed(
        &mut self,
        volume_moved: bool,
        counts: [u32; 3],
        irradiance_resolution: u32,
        visibility_resolution: u32,
    ) -> (changed: bool)
        ensures
            changed == (!old(self).history_valid || volume_moved || old(self).history_counts
                != counts || old(self).history_irradiance_resolution != irradiance_resolution
                || old(self).history_visibility_resolution != visibility_resolution),
            changed ==> *final(self) == (DdgiHistory {
                history_valid: true,
                history_counts: counts,
                history_irradiance_resolution: irradiance_resolution,
                history_visibility_resolution: visibility_resolution,
                frame_index: 0,
                force_full_update: true,
                ..*old(self)
            }),
            !changed ==> *final(self) == *old(self),
    {
        let same_counts = self.history_counts[0] == counts[0] && self.history_counts[1] == counts[1]
            && self.history_counts[2] == counts[2];
        assert(same_counts == (self.history_counts =~= counts));
        if self.history_valid && !volume_moved && same_counts && self.history_irradiance_resolution
            == irradiance_resolution && self.history_visibility_resolution == visibility_resolution {
            return false;
        }
        self.history_valid = true;
        self.history_counts = counts;
        self.history_irradiance_resolution = irradiance_resolution;
        self.history_visibility_resolution = visibility_resolution;
        self.frame_index = 0;
        self.force_full_update = true;
        true
    }

    /// Turns GI off for this frame: the frame counter restarts, the history
    /// is dropped and a full update is due.
    pub fn disable(&mut self)
        ensures
            *final(self) == (DdgiHistory {
                frame_index: 0,
                force_full_update: true,
                history_valid: false,
                ..*old(self)
            }),
    {
        self.frame_index = 0;
        self.force_full_update = true;
        self.history_valid = false;
    }

    /// Swaps which atlas pair is written and which is read.
    pub fn swap_atlases(&mut self)
        ensures
            *final(self) == (DdgiHistory { current_is_a: !old(self).current_is_a, ..*old(self) }),
    {
        self.current_is_a = !self.current_is_a;
    }

    /// Ends a prepared frame: the counter advances (wrapping) and no full
    /// update is due any more.
    pub fn finish_frame(&mut self)
        ensures
            *final(self) == (DdgiHistory {
                frame_index: if old(self).frame_index < u32::MAX {
                    (old(self).frame_index + 1) as u32
                } else {
                    0
                },
                force_full_update: false,
                ..*old(self)
            }),
    {
        self.frame_index = if self.frame_index < u32::MAX {
            self.frame_index + 1
        } else {
            0
        };
        self.force_full_update = false;
    }
}

/// The probe grid of a volume: every count at least 1.
pub fn ddgi_probe_counts(counts: [u32; 3]) -> (r: [u32; 3])
    ensures
        forall|i: int| 0 <= i < 3 ==> r[i] == if counts[i] >= 1 {
            counts[i]
        } else {
            1
        },
{
    let r = [
        if counts[0] >= 1 {
            counts[0]
        } else {
            1
        },
        if counts[1] >= 1 {
            counts[1]
        } else {
            1
        },
        if counts[2] >= 1 {
            counts[2]
        } else {
            1
        },
    ];
    assert forall|i: int| 0 <= i < 3 implies r[i] == if counts[i] >= 1 {
        counts[i]
    } else {
        1
    } by {
        if i == 0 {
        } else if i == 1 {
        } else {
        }
    }
    r
}

/// A probe resolution clamped to 2..=16 texels.
pub fn ddgi_probe_resolution(resolution: u32) -> (r: u32)
    ensures
        r == if resolution < 2 {
            2
        } else if resolution > 16 {
            16
        } else {
            resolution
        },
{
    if resolution < 2 {
        2
    } else if resolution > 16 {
        16
    } else {
        resolution
    }
}

/// Number of probes of a grid: the product of its counts (saturating), at
/// least 1.
pub fn ddgi_probe_count(counts: [u32; 3]) -> (r: u32)
    ensures
        r == if sat_u32(sat_u32(counts[0] * counts[1]) * counts[2]) >= 1 {
            sat_u32(sat_u32(counts[0] * counts[1]) * counts[2])
        } else {
            1
        },
{
    let n = saturating_mul_u32(saturating_mul_u32(counts[0], counts[1]), counts[2]);
    if n >= 1 {
        n
    } else {
        1
    }
}

/// Probes to update this frame: all of them when a full update is due,
/// else the requested budget (at least 1).
pub fn ddgi_probes_per_frame(force_full_update: bool, probe_count: u32, requested: u32) -> (r: u32)
    ensures
        r == if force_full_update {
            probe_count
        } else if requested >= 1 {
            requested
        } else {
            1
        },
{
    if force_full_update {
        probe_count
    } else if requested >= 1 {
        requested
    } else {
        1
    }
}

/// The number the DDGI shader knows a debug mode by.
pub open spec fn debug_code(mode: DdgiDebugMode) -> u32 {
    match mode {
        DdgiDebugMode::Off => 0u32,
        DdgiDebugMode::Probes => 1u32,
        DdgiDebugMode::Irradiance => 2u32,
        DdgiDebugMode::Visibility => 3u32,
        DdgiDebugMode::RayBudget => 4u32,
    }
}

impl DdgiDebugMode {
    /// The number the DDGI shader knows the mode by.
    pub fn code(self) -> (r: u32)
        ensures
            r == debug_code(self),
    {
        match self {
            DdgiDebugMode::Off => 0,
            DdgiDebugMode::Probes => 1,
            DdgiDebugMode::Irradiance => 2,
            DdgiDebugMode::Visibility => 3,
            DdgiDebugMode::RayBudget => 4,
        }
    }
}

/// The bounce count (1..=4) in the low bits and the debug mode from bit 16.
pub fn ddgi_bounce_params(bounces: u32, debug: DdgiDebugMode) -> (r: u32)
    ensures
        r == (if bounces < 1 {
            1
        } else if bounces > 4 {
            4
        } else {
            bounces
        }) + 65536 * debug_code(debug),
{
    let b: u32 = if bounces < 1 {
        1
    } else if bounces > 4 {
        4
    } else {
        bounces
    };
    let code = debug.code();
    let r = b | (code << 16u32);
    assert(b | (code << 16u32) == b + 65536 * code) by (bit_vector)
        requires
            1 <= b <= 4,
            code <= 4,
    ;
    r
}

/// Workgroups to dispatch for `size` texels on an axis: `size` over the
/// workgroup size (at least 1), rounded up.
pub fn ddgi_workgroup_count(size: u32, workgroup: u32) -> (r: u32)
    ensures
        r == (size + (if workgroup >= 1 {
            workgroup
        } else {
            1
        }) - 1) / (if workgroup >= 1 {
            workgroup
        } else {
            1
        }) as int,
{
    let w: u32 = if workgroup >= 1 {
        workgroup
    } else {
        1
    };
    let q = size / w;
    assert(size % w != 0 ==> q < u32::MAX) by (nonlinear_arith)
        requires
            w >= 1,
            q == size / w,
            size <= u32::MAX,
    ;
    let r = if size % w != 0 {
        q + 1
    } else {
        q
    };
    assert(r == (size + w - 1) / (w as int)) by (nonlinear_arith)
        requires
            w >= 1,
            q == size / w,
            r == if size % w != 0 {
                q + 1
            } else {
                q as int
            },
    ;
    r
}

/// The DDGI update runs only while GI is enabled and the dispatch covers
/// some texels.
pub fn ddgi_update_enabled(enabled: u32, dispatch: (u32, u32)) -> (r: bool)
    ensures
        r == (enabled != 0 && dispatch.0 != 0 && dispatch.1 != 0),
{
    enabled != 0 && dispatch.0 != 0 && dispatch.1 != 0
}

} // verus!
