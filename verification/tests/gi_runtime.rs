use sky_render::fullscreen::compose_fullscreen_shader;
use sky_render::fullscreen::FullscreenPass;
use sky_render::fullscreen::FULLSCREEN_COMMON;
use sky_render::gi::providers::DDGI_PROVIDER_ID;
use sky_render::gi::providers::SSGI_PROVIDER_ID;
use sky_render::gi::runtime::GiPrepareSettings;
use sky_render::gi::runtime::GiProviderChange;
use sky_render::gi::runtime::GiRuntimeState;

#[test]
fn gi_runtime_creates_a_requested_provider_once() {
    let mut state = GiRuntimeState::new();
    let first = state.prepare_step(Some(SSGI_PROVIDER_ID), true);
    assert_eq!(first.change, GiProviderChange::CreateFromFactory);
    assert_eq!(first.settings, GiPrepareSettings::Requested);
    assert_eq!(first.frame_index, 0);
    assert_eq!(state.active_id, Some(SSGI_PROVIDER_ID));

    let second = state.prepare_step(Some(SSGI_PROVIDER_ID), true);
    assert_eq!(second.change, GiProviderChange::Keep);
    assert_eq!(second.settings, GiPrepareSettings::Requested);
    assert_eq!(second.frame_index, 1);
    assert_eq!(state.frame_index, 2);
}

#[test]
fn gi_runtime_switches_providers_and_turns_off() {
    let mut state = GiRuntimeState::new();
    let _ = state.prepare_step(Some(SSGI_PROVIDER_ID), true);
    let switched = state.prepare_step(Some(DDGI_PROVIDER_ID), true);
    assert_eq!(switched.change, GiProviderChange::CreateFromFactory);
    assert_eq!(state.active_id, Some(DDGI_PROVIDER_ID));

    let off = state.prepare_step(None, false);
    assert_eq!(off.change, GiProviderChange::ResetToNull);
    assert_eq!(off.settings, GiPrepareSettings::Null);
    assert_eq!(state.active_id, None);

    let off_again = state.prepare_step(None, false);
    assert_eq!(off_again.change, GiProviderChange::Keep);
    assert_eq!(off_again.settings, GiPrepareSettings::Null);
}

#[test]
fn gi_runtime_falls_back_to_null_for_an_unknown_provider() {
    let mut state = GiRuntimeState::new();
    let _ = state.prepare_step(Some(SSGI_PROVIDER_ID), true);
    let unknown = state.prepare_step(Some("custom.gi"), false);
    assert_eq!(unknown.change, GiProviderChange::ResetToNull);
    assert_eq!(unknown.settings, GiPrepareSettings::Null);
    assert_eq!(state.active_id, None);
}

#[test]
fn gi_runtime_frame_counter_wraps() {
    let mut state = GiRuntimeState { active_id: None, frame_index: u64::MAX };
    let step = state.prepare_step(None, false);
    assert_eq!(step.frame_index, u64::MAX);
    assert_eq!(state.frame_index, 0);
}

#[test]
fn fullscreen_shader_prepends_the_shared_vertex_stage() {
    let fragment = "@fragment fn fs_main(in: FullscreenOutput) -> @location(0) vec4<f32> { return vec4<f32>(in.uv, 0.0, 1.0); }";
    let composed = compose_fullscreen_shader(fragment);
    assert_eq!(composed.as_ref(), format!("{FULLSCREEN_COMMON}\n{fragment}"));
    assert!(composed.contains("fn vs_fullscreen"));
    assert!(composed.ends_with(fragment));
}

#[test]
fn fullscreen_pass_draws_one_triangle() {
    let (vertices, instances) = FullscreenPass::draw_ranges();
    assert_eq!(vertices, 0..3);
    assert_eq!(instances, 0..1);
}

#[test]
fn gi_runs_count_frames_and_follow_the_last_request() {
    let mut state = GiRuntimeState::new();
    let requests: [(Option<&'static str>, bool); 5] =
        [(Some("ssgi"), true), (Some("ssgi"), false), (None, true), (Some("ddgi"), false), (Some("ddgi"), true)];
    let mut frames = Vec::new();
    for (request, registered) in requests {
        frames.push(state.prepare_step(request, registered).frame_index);
    }
    assert_eq!(frames, vec![0, 1, 2, 3, 4]);
    assert_eq!(state.frame_index, 5);
    assert_eq!(state.active_id, Some("ddgi"));
}
