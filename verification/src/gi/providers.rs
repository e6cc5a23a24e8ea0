use vstd::prelude::*;

verus! {

/// Identifier of the screen-space GI provider.
pub const SSGI_PROVIDER_ID: &'static str = "sky.ssgi";

/// Identifier of the probe-volume GI provider.
pub const DDGI_PROVIDER_ID: &'static str = "sky.ddgi";

/// How a GI provider's result is composited into the scene.
#[derive(Clone, Copy, Debug, PartialEq, Eq)]
pub struct GiCompositeDescriptor {
    pub label: &'static str,
    pub requires_hdr_input: bool,
}

/// The shader code with which scene shaders sample a GI provider.
#[derive(Clone, Copy, Debug, PartialEq, Eq)]
pub struct GiShaderDescriptor {
    pub key: &'static str,
    pub source: &'static str,
}

/// What the probe-volume GI debug view shows.
#[derive(Clone, Copy, Debug, PartialEq, Eq, Structural)]
pub enum DdgiDebugMode {
    Off,
    Probes,
    Irradiance,
    Visibility,
    RayBudget,
}

impl DdgiDebugMode {
    /// The default debug mode: off.
    pub fn default_mode() -> (r: DdgiDebugMode)
        ensures
            r == DdgiDebugMode::Off,
    {
        DdgiDebugMode::Off
    }
}

/// Creates screen-space GI runtimes.
#[derive(Clone, Copy, Debug, PartialEq, Eq, Structural)]
pub struct SsgiProviderFactory;

impl SsgiProviderFactory {
    pub fn id(&self) -> (r: &'static str)
        ensures
            r@ == SSGI_PROVIDER_ID@,
    {
        SSGI_PROVIDER_ID
    }

    /// The composite of the screen-space provider: it reads HDR scene color.
    pub fn composite_descriptor(&self) -> (r: GiCompositeDescriptor)
        ensures
            r.label@ == "gi_composite"@,
            r.requires_hdr_input,
    {
        GiCompositeDescriptor { label: "gi_composite", requires_hdr_input: true }
    }
}

/// Creates probe-volume GI runtimes.
#[derive(Clone, Copy, Debug, PartialEq, Eq, Structural)]
pub struct DdgiProviderFactory;

impl DdgiProviderFactory {
    pub fn id(&self) -> (r: &'static str)
        ensures
            r@ == DDGI_PROVIDER_ID@,
    {
        DDGI_PROVIDER_ID
    }
}

} // verus!
