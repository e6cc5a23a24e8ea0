use vstd::prelude::*;
use crate::text::str_equal;

verus! {

/// What the GI runtime does with its active provider before preparing a frame.
#[derive(Clone, Copy, Debug, PartialEq, Eq, Structural)]
pub enum GiProviderChange {
    /// The active provider stays.
    Keep,
    /// The active provider is replaced by the null provider.
    ResetToNull,
    /// A provider is created from the registered factory of the requested id.
    CreateFromFactory,
}

/// With which settings the active provider prepares the frame.
#[derive(Clone, Copy, Debug, PartialEq, Eq, Structural)]
pub enum GiPrepareSettings {
    /// The empty settings of the null provider.
    Null,
    /// The settings that came with the request.
    Requested,
}

/// One frame's decision of the GI runtime.
#[derive(Clone, Copy, Debug, PartialEq, Eq, Structural)]
pub struct GiPrepareStep {
    pub change: GiProviderChange,
    pub settings: GiPrepareSettings,
    /// The frame index handed to the provider with the scene.
    pub frame_index: u64,
}

/// Which provider is active, and how many frames have been prepared.
pub struct GiRuntimeState {
    pub active_id: Option<&'static str>,
    pub frame_index: u64,
}

/// The active id as characters.
pub open spec fn id_view(id: Option<&'static str>) -> Option<Seq<char>> {
    match id {
        Some(s) => Some(s@),
        None => None,
    }
}

/// The change made for a request: `None` asks for GI off, `Some(id)` for the
/// provider `id`; `registered` says whether a factory for `id` is registered.
pub open spec fn gi_change(active: Option<Seq<char>>, request: Option<Seq<char>>, registered: bool) -> GiProviderChange {
    match request {
        None => if active is Some { GiProviderChange::ResetToNull } else { GiProviderChange::Keep },
        Some(id) => if active == Some(id) {
            GiProviderChange::Keep
        } else if registered {
            GiProviderChange::CreateFromFactory
        } else {
            GiProviderChange::ResetToNull
        },
    }
}

/// The active id after a request.
pub open spec fn gi_next_active(active: Option<Seq<char>>, request: Option<Seq<char>>, registered: bool) -> Option<Seq<char>> {
    match request {
        None => None,
        Some(id) => if active == Some(id) || registered { Some(id) } else { None },
    }
}

/// The settings the active provider is prepared with after a request.
pub open spec fn gi_settings(active: Option<Seq<char>>, request: Option<Seq<char>>, registered: bool) -> GiPrepareSettings {
    if gi_next_active(active, request, registered) is Some {
        GiPrepareSettings::Requested
    } else {
        GiPrepareSettings::Null
    }
}

/// The frame counter after one frame: one more, wrapping to 0.
pub open spec fn next_frame_index(i: u64) -> u64 {
    if i == u64::MAX {
        0
    } else {
        (i + 1) as u64
    }
}

/// The active id and frame counter after the runtime, starting from `active`
/// and `frame`, has prepared a frame for each of `requests` in turn (each a
/// request and whether its id was registered then).
pub open spec fn gi_after(active: Option<Seq<char>>, frame: u64, requests: Seq<(Option<Seq<char>>, bool)>) -> (
    Option<Seq<char>>,
    u64,
)
    decreases requests.len(),
{
    if requests.len() == 0 {
        (active, frame)
    } else {
        let before = gi_after(active, frame, requests.drop_last());
        let last = requests.last();
        (gi_next_active(before.0, last.0, last.1), next_frame_index(before.1))
    }
}

impl GiRuntimeState {
    /// No provider active, no frame prepared.
    pub fn new() -> (r: GiRuntimeState)
        ensures
            r.active_id is None,
            r.frame_index == 0,
    {
        GiRuntimeState { active_id: None, frame_index: 0 }
    }

    /// Decides one frame: `request` is `None` when GI is off and the provider's
    /// id otherwise; `registered` says whether the registry has a factory for it.
    /// The frame index handed out is the current one; the counter then wraps forward.
    pub fn prepare_step(&mut self, request: Option<&'static str>, registered: bool) -> (r: GiPrepareStep)
        ensures
            r.frame_index == old(self).frame_index,
            final(self).frame_index == next_frame_index(old(self).frame_index),
            r.change == gi_change(id_view(old(self).active_id), id_view(request), registered),
            id_view(final(self).active_id) == gi_next_active(id_view(old(self).active_id), id_view(request), registered),
            r.settings == gi_settings(id_view(old(self).active_id), id_view(request), registered),
    {
        let frame_index = self.frame_index;
        self.frame_index = self.frame_index.wrapping_add(1);
        match request {
            None => {
                let change = if self.active_id.is_some() {
                    GiProviderChange::ResetToNull
                } else {
                    GiProviderChange::Keep
                };
                self.active_id = None;
                GiPrepareStep { change, settings: GiPrepareSettings::Null, frame_index }
            },
            Some(id) => {
                let same = match self.active_id {
                    Some(active) => str_equal(active, id),
                    None => false,
                };
                if same {
                    GiPrepareStep { change: GiProviderChange::Keep, settings: GiPrepareSettings::Requested, frame_index }
                } else if registered {
                    self.active_id = Some(id);
                    GiPrepareStep {
                        change: GiProviderChange::CreateFromFactory,
                        settings: GiPrepareSettings::Requested,
                        frame_index,
                    }
                } else {
                    self.active_id = None;
                    GiPrepareStep { change: GiProviderChange::ResetToNull, settings: GiPrepareSettings::Null, frame_index }
                }
            },
        }
    }
}

/// Requesting a registered provider twice in a row creates it once: the second
/// frame keeps it and prepares it with the requested settings.
pub proof fn lemma_gi_request_is_sticky(active: Option<Seq<char>>, id: Seq<char>, registered: bool, still_registered: bool)
    requires
        gi_next_active(active, Some(id), registered) is Some,
    ensures
        gi_next_active(active, Some(id), registered) == Some(id),
        gi_change(gi_next_active(active, Some(id), registered), Some(id), still_registered) == GiProviderChange::Keep,
        gi_settings(gi_next_active(active, Some(id), registered), Some(id), still_registered) == GiPrepareSettings::Requested,
{
}

/// Turning GI off always leaves no provider active, and a second request to
/// turn it off changes nothing.
pub proof fn lemma_gi_off_is_idempotent(active: Option<Seq<char>>, registered: bool, again: bool)
    ensures
        gi_next_active(active, None, registered) is None,
        gi_change(gi_next_active(active, None, registered), None, again) == GiProviderChange::Keep,
        gi_settings(active, None, registered) == GiPrepareSettings::Null,
{
}

/// Over any run of frames the frame counter counts them, wrapping at 2^64,
/// and the active provider follows the last request: none when GI was last
/// turned off, else the last requested id or none, and that id whenever its
/// factory was registered.
pub proof fn lemma_gi_run(active: Option<Seq<char>>, frame: u64, requests: Seq<(Option<Seq<char>>, bool)>)
    ensures
        gi_after(active, frame, requests).1 == (frame + requests.len()) % 0x1_0000_0000_0000_0000,
        requests.len() > 0 ==> match requests.last().0 {
            None => gi_after(active, frame, requests).0 is None,
            Some(id) => {
                &&& gi_after(active, frame, requests).0 is None || gi_after(active, frame, requests).0 == Some(id)
                &&& requests.last().1 ==> gi_after(active, frame, requests).0 == Some(id)
            },
        },
    decreases requests.len(),
{
    if requests.len() > 0 {
        lemma_gi_run(active, frame, requests.drop_last());
        let f = gi_after(active, frame, requests.drop_last()).1;
        let n = requests.len();
        assert(f == (frame + n - 1) % 0x1_0000_0000_0000_0000);
        assert(next_frame_index(f) == (frame + n) % 0x1_0000_0000_0000_0000) by {
            vstd::arithmetic::div_mod::lemma_add_mod_noop(frame + n - 1, 1, 0x1_0000_0000_0000_0000);
        }
    }
}

} // verus!
