use sky_render::gi::ddgi::ddgi_atlas_size;
use sky_render::gi::ddgi::ddgi_bounce_params;
use sky_render::gi::ddgi::ddgi_probe_count;
use sky_render::gi::ddgi::ddgi_probe_counts;
use sky_render::gi::ddgi::ddgi_probe_resolution;
use sky_render::gi::ddgi::ddgi_probes_per_frame;
use sky_render::gi::ddgi::ddgi_update_enabled;
use sky_render::gi::ddgi::ddgi_workgroup_count;
use sky_render::gi::ddgi::DdgiHistory;
use sky_render::gi::providers::DdgiDebugMode;
use sky_render::gi::ddgi::ddgi_tile_resolution;
use sky_render::gi::ddgi::grown_capacity;
use sky_render::gi::graph::PassDecl;
use sky_render::gi::graph::RenderGraph;
use sky_render::gi::graph::ResourceRef;
use sky_render::gi::graph::TargetSize;
use sky_render::gi::graph::TextureFormat;
use sky_render::gi::graph::TextureHandle;
use sky_render::gi::graph::TextureSubresource;
use sky_render::gi::graph::TextureUsages;
use sky_render::gi::graph::TEXTURE_USAGE_RENDER_ATTACHMENT;
use sky_render::gi::graph::TEXTURE_USAGE_STORAGE_BINDING;
use sky_render::gi::graph::TEXTURE_USAGE_TEXTURE_BINDING;
use sky_render::gi::ssgi::align_to;
use sky_render::gi::ssgi::create_ssgi_compute_resources;
use sky_render::gi::ssgi::declare_ssgi_compute_passes;
use sky_render::gi::ssgi::pass_nth_read_subresource;
use sky_render::gi::ssgi::pass_nth_write_subresource;
use sky_render::gi::ssgi::ssgi_compute_pass_kind;
use sky_render::gi::ssgi::ssgi_compute_texture_specs;
use sky_render::gi::ssgi::ssgi_pass_descriptor;
use sky_render::gi::ssgi::ssgi_pass_descriptors;
use sky_render::gi::ssgi::subresource_extent;
use sky_render::gi::ssgi::SsgiComputePassKind;
use sky_render::gi::ssgi::SsgiMipLevel;
use sky_render::gi::ssgi::SsgiPassKind;
use sky_render::gi::ssgi::SsgiResources;

#[test]
fn ddgi_atlas_size_uses_requested_probe_resolution() {
    assert_eq!(ddgi_atlas_size([3, 2, 4], 5), (21, 56));
}

#[test]
fn ddgi_atlas_size_saturates_and_stays_nonzero() {
    assert_eq!(ddgi_tile_resolution(u32::MAX), u32::MAX);
    assert_eq!(ddgi_atlas_size([0, 0, 0], 6), (1, 1));
    assert_eq!(ddgi_atlas_size([u32::MAX, 2, 2], 6), (u32::MAX, 32));
}

#[test]
fn ddgi_capacity_grows_to_next_power_of_two() {
    assert_eq!(grown_capacity(8, 5), 8);
    assert_eq!(grown_capacity(4, 5), 8);
    assert_eq!(grown_capacity(0, 1), 1);
    assert_eq!(grown_capacity(16, 17), 32);
}

#[test]
fn ssgi_ssgi_resources_clamp_zero_size_to_one() {
    let mut resources = SsgiResources::default();
    resources.resize(0, 0);
    assert_eq!(resources.target_size(), [1, 1]);
}

#[test]
fn ssgi_ssgi_resources_track_requested_size() {
    let mut resources = SsgiResources::default();
    resources.resize(640, 360);
    assert_eq!(resources.target_size(), [640, 360]);
}

#[test]
fn ssgi_ssgi_resources_match_wicked_aligned_atlas_dimensions() {
    let mut resources = SsgiResources::default();
    resources.resize(641, 359);

    assert_eq!(resources.target_size(), [641, 359]);
    assert_eq!(resources.aligned_size(), [704, 384]);
    assert_eq!(resources.atlas_size(), [88, 48]);
    assert_eq!(resources.atlas_layers(), 16);
    assert_eq!(
        resources.mip_level(0),
        Some(SsgiMipLevel {
            scale: 2,
            atlas_size: [88, 48],
            regular_size: [352, 192],
        })
    );
    assert_eq!(
        resources.mip_level(3),
        Some(SsgiMipLevel {
            scale: 16,
            atlas_size: [11, 6],
            regular_size: [44, 24],
        })
    );
}

#[test]
fn tests_ssgi_resources_clamp_zero_size_to_one() {
    let mut resources = SsgiResources::default();
    resources.resize(0, 0);
    assert_eq!(resources.target_size(), [1, 1]);
}

#[test]
fn tests_ssgi_resources_track_requested_size() {
    let mut resources = SsgiResources::default();
    resources.resize(640, 360);
    assert_eq!(resources.target_size(), [640, 360]);
}

#[test]
fn tests_ssgi_resources_match_wicked_aligned_atlas_dimensions() {
    let mut resources = SsgiResources::default();
    resources.resize(641, 359);

    assert_eq!(resources.target_size(), [641, 359]);
    assert_eq!(resources.aligned_size(), [704, 384]);
    assert_eq!(resources.atlas_size(), [88, 48]);
    assert_eq!(resources.atlas_layers(), 16);
    assert_eq!(
        resources.mip_level(0),
        Some(SsgiMipLevel {
            scale: 2,
            atlas_size: [88, 48],
            regular_size: [352, 192],
        })
    );
    assert_eq!(
        resources.mip_level(3),
        Some(SsgiMipLevel {
            scale: 16,
            atlas_size: [11, 6],
            regular_size: [44, 24],
        })
    );
}

#[test]
fn ssgi_mip_level_beyond_chain_is_none() {
    let mut resources = SsgiResources::default();
    resources.resize(64, 64);
    assert_eq!(resources.mip_level(4), None);
}

#[test]
fn align_to_rounds_up_and_treats_zero_as_one() {
    assert_eq!(align_to(0, 64), 64);
    assert_eq!(align_to(64, 64), 64);
    assert_eq!(align_to(65, 64), 128);
    assert_eq!(align_to(0, 0), 1);
    assert_eq!(align_to(7, 0), 7);
}

#[test]
fn ssgi_compute_layout_and_specs_match_resources() {
    let mut resources = SsgiResources::default();
    resources.resize(1280, 720);
    let layout = resources.compute_texture_layout();
    assert_eq!(layout.atlas_size, [160, 96]);
    assert_eq!(layout.regular_mip_size, [640, 384]);
    assert_eq!(layout.mip_level_count, 4);
    assert_eq!(layout.atlas_layer_count, 16);
    assert_eq!(layout.atlas_color_format, TextureFormat::Rgba16Float);
    assert_eq!(layout.atlas_depth_format, TextureFormat::R32Float);

    let specs = ssgi_compute_texture_specs(resources);
    assert_eq!(specs.atlas_color.name, "ssgi_texture_atlas_color");
    assert_eq!(specs.atlas_color.size, TargetSize::Exact(160, 96));
    assert_eq!(specs.atlas_color.array_layer_count, 16);
    assert_eq!(specs.depth_mips.size, TargetSize::Exact(640, 384));
    assert_eq!(specs.depth_mips.array_layer_count, 1);
    assert_eq!(specs.normal_mips.format, TextureFormat::Rgba16Float);
}

#[test]
fn ssgi_compute_resources_register_named_graph_textures() {
    let mut resources = SsgiResources::default();
    resources.resize(320, 180);
    let mut graph = RenderGraph::new();

    let handles = create_ssgi_compute_resources(&mut graph, resources);

    assert_eq!(
        graph.get_texture("ssgi_texture_atlas_color"),
        Some(handles.atlas_color)
    );
    assert_eq!(
        graph.get_texture("ssgi_texture_atlas_depth"),
        Some(handles.atlas_depth)
    );
    assert_eq!(
        graph.get_texture("ssgi_texture_depth_mips"),
        Some(handles.depth_mips)
    );
    assert_eq!(
        graph.get_texture("ssgi_texture_normal_mips"),
        Some(handles.normal_mips)
    );
    assert_eq!(
        graph.get_texture("ssgi_texture_diffuse_mips"),
        Some(handles.diffuse_mips)
    );
    assert_eq!(
        handles.atlas_color_layer(2, 7),
        TextureSubresource::new(handles.atlas_color, 2, 1, 7, 1)
    );
    assert_eq!(
        handles.diffuse_mip(3),
        TextureSubresource::new(handles.diffuse_mips, 3, 1, 0, 1)
    );
}

#[test]
fn ssgi_compute_pass_declarations_follow_the_compute_chain() {
    let mut resources = SsgiResources::default();
    resources.resize(320, 180);
    let mut graph = RenderGraph::new();
    let handles = create_ssgi_compute_resources(&mut graph, resources);
    let color = TextureHandle(100);
    let depth = TextureHandle(101);
    let normal = TextureHandle(102);
    declare_ssgi_compute_passes(&mut graph, color, depth, normal, handles);

    assert_eq!(graph.pass_count(), 11);
    let names: Vec<&str> = graph.passes.iter().map(|p| p.name.as_str()).collect();
    assert_eq!(names[0], "ssgi_compute_deinterleave_2x");
    assert_eq!(names[4], "ssgi_compute_diffuse_16x");
    assert_eq!(names[10], "ssgi_compute_upsample_4x_to_2x");

    let deinterleave: &PassDecl = &graph.passes[1];
    assert_eq!(deinterleave.reads[0], ResourceRef::Texture(color));
    assert_eq!(
        pass_nth_write_subresource(deinterleave, 2),
        handles.depth_mip(1)
    );
    let upsample = &graph.passes[8];
    assert_eq!(
        pass_nth_read_subresource(upsample, 2),
        handles.diffuse_mip(3)
    );
    assert_eq!(
        pass_nth_write_subresource(upsample, 0),
        handles.diffuse_mip(2)
    );
}

#[test]
fn ssgi_compute_pass_kind_recognizes_wicked_compute_chain() {
    assert!(matches!(
        ssgi_compute_pass_kind("ssgi_compute_deinterleave_16x"),
        Some(SsgiComputePassKind::Deinterleave { mip_index: 3 })
    ));
    assert!(matches!(
        ssgi_compute_pass_kind("ssgi_compute_diffuse_16x"),
        Some(SsgiComputePassKind::Diffuse { mip_index: 3 })
    ));
    assert!(matches!(
        ssgi_compute_pass_kind("ssgi_compute_upsample_16x_to_8x"),
        Some(SsgiComputePassKind::Upsample {
            source_mip_index: 3,
            target_mip_index: 2,
            pass_index: 0,
        })
    ));
}

#[test]
fn ssgi_compute_pass_kind_rejects_other_names_and_scales() {
    assert!(ssgi_compute_pass_kind("ssgi_final_upsample").is_none());
    assert!(ssgi_compute_pass_kind("").is_none());
    let kind = ssgi_compute_pass_kind("ssgi_compute_upsample_8x_to_4x").unwrap();
    assert_eq!(kind.output_scale(), 4);
    assert_eq!(kind.source_scale(), 8);
    assert_eq!(
        SsgiComputePassKind::Deinterleave { mip_index: 0 }.output_scale(),
        2
    );
}

#[test]
fn ssgi_descriptor_order_preserves_wicked_compute_chain() {
    let names: Vec<&str> = ssgi_pass_descriptors()
        .iter()
        .map(|descriptor| descriptor.name)
        .collect();
    assert_eq!(
        names,
        vec![
            "ssgi_compute_deinterleave_2x",
            "ssgi_compute_deinterleave_4x",
            "ssgi_compute_deinterleave_8x",
            "ssgi_compute_deinterleave_16x",
            "ssgi_compute_diffuse_16x",
            "ssgi_compute_diffuse_8x",
            "ssgi_compute_diffuse_4x",
            "ssgi_compute_diffuse_2x",
            "ssgi_compute_upsample_16x_to_8x",
            "ssgi_compute_upsample_8x_to_4x",
            "ssgi_compute_upsample_4x_to_2x",
            "ssgi_final_upsample",
            "ssgi_scene_composite",
        ]
    );
}

#[test]
fn ssgi_pass_names_are_unique_and_lookup_is_total() {
    let descriptors = ssgi_pass_descriptors();
    for (i, descriptor) in descriptors.iter().enumerate() {
        for other in &descriptors[i + 1..] {
            assert_ne!(descriptor.name, other.name);
        }
        assert_eq!(
            ssgi_pass_descriptor(descriptor.name).map(|desc| desc.name),
            Some(descriptor.name)
        );
    }
    assert_eq!(descriptors.len(), 4 * 2 + 5);
    assert!(ssgi_pass_descriptor("missing").is_none());
    assert_eq!(
        ssgi_pass_descriptor("ssgi_scene_composite").map(|d| d.kind),
        Some(SsgiPassKind::SceneComposite)
    );
}

#[test]
fn subresource_extent_halves_per_mip_and_stays_nonzero() {
    let sub = TextureSubresource::new(TextureHandle(0), 2, 1, 0, 1);
    assert_eq!(subresource_extent([640, 383], sub), [160, 96]);
    let deep = TextureSubresource::new(TextureHandle(0), 40, 1, 0, 1);
    assert_eq!(subresource_extent([640, 383], deep), [1, 1]);
}

fn assert_compute_layout_for_641_by_359() {
    let mut resources = SsgiResources::default();
    resources.resize(641, 359);

    let layout = resources.compute_texture_layout();

    assert_eq!(layout.atlas_size, [88, 48]);
    assert_eq!(layout.regular_mip_size, [352, 192]);
    assert_eq!(layout.mip_level_count, 4);
    assert_eq!(layout.atlas_layer_count, 16);
    assert_eq!(layout.atlas_color_format, TextureFormat::Rgba16Float);
    assert_eq!(layout.atlas_depth_format, TextureFormat::R32Float);
    assert_eq!(layout.depth_mip_format, TextureFormat::R32Float);
    assert_eq!(layout.normal_mip_format, TextureFormat::Rgba16Float);
    assert_eq!(layout.diffuse_mip_format, TextureFormat::Rgba16Float);
    assert!(layout.usage.contains(TextureUsages { bits: TEXTURE_USAGE_STORAGE_BINDING }));
    assert!(layout.usage.contains(TextureUsages { bits: TEXTURE_USAGE_TEXTURE_BINDING }));
    assert!(!layout.usage.contains(TextureUsages { bits: TEXTURE_USAGE_RENDER_ATTACHMENT }));
}

#[test]
fn ssgi_ssgi_compute_layout_matches_wicked_texture2d_array_contract() {
    assert_compute_layout_for_641_by_359();
}

#[test]
fn tests_ssgi_compute_layout_matches_wicked_texture2d_array_contract() {
    assert_compute_layout_for_641_by_359();
}

#[test]
fn ssgi_ssgi_compute_texture_specs_allocate_array_atlas_and_mip_chains() {
    let mut resources = SsgiResources::default();
    resources.resize(1280, 720);

    let specs = ssgi_compute_texture_specs(resources);

    assert_eq!(specs.atlas_color.name(), "ssgi_texture_atlas_color");
    assert_eq!(specs.atlas_color.size(), TargetSize::Exact(160, 96));
    assert_eq!(specs.atlas_color.mip_level_count(), 4);
    assert_eq!(specs.atlas_color.array_layer_count(), 16);
    assert_eq!(specs.atlas_color.format(), TextureFormat::Rgba16Float);
    assert!(specs
        .atlas_color
        .usage_flags()
        .contains(TextureUsages { bits: TEXTURE_USAGE_STORAGE_BINDING }));

    assert_eq!(specs.atlas_depth.name(), "ssgi_texture_atlas_depth");
    assert_eq!(specs.atlas_depth.size(), TargetSize::Exact(160, 96));
    assert_eq!(specs.atlas_depth.mip_level_count(), 4);
    assert_eq!(specs.atlas_depth.array_layer_count(), 16);
    assert_eq!(specs.atlas_depth.format(), TextureFormat::R32Float);

    assert_eq!(specs.depth_mips.name(), "ssgi_texture_depth_mips");
    assert_eq!(specs.depth_mips.size(), TargetSize::Exact(640, 384));
    assert_eq!(specs.depth_mips.mip_level_count(), 4);
    assert_eq!(specs.depth_mips.array_layer_count(), 1);
    assert_eq!(specs.depth_mips.format(), TextureFormat::R32Float);

    assert_eq!(specs.normal_mips.name(), "ssgi_texture_normal_mips");
    assert_eq!(specs.normal_mips.size(), TargetSize::Exact(640, 384));
    assert_eq!(specs.normal_mips.format(), TextureFormat::Rgba16Float);

    assert_eq!(specs.diffuse_mips.name(), "ssgi_texture_diffuse_mips");
    assert_eq!(specs.diffuse_mips.size(), TargetSize::Exact(640, 384));
    assert_eq!(specs.diffuse_mips.format(), TextureFormat::Rgba16Float);
}

#[test]
fn ddgi_history_resets_on_resize_and_volume_change() {
    let mut h = DdgiHistory::new();
    assert!(h.force_full_update && !h.history_valid && h.current_is_a);
    assert!(h.resize_atlas_if_needed((48, 36), (64, 48)));
    assert!(!h.resize_atlas_if_needed((48, 36), (64, 48)));
    assert!(h.invalidate_history_if_volume_changed(false, [4, 3, 3], 6, 14));
    assert!(h.history_valid && h.frame_index == 0);
    h.swap_atlases();
    assert!(!h.current_is_a);
    h.finish_frame();
    h.finish_frame();
    assert_eq!((h.frame_index, h.force_full_update), (2, false));
    assert!(!h.invalidate_history_if_volume_changed(false, [4, 3, 3], 6, 14));
    assert_eq!(h.frame_index, 2);
    assert!(h.invalidate_history_if_volume_changed(true, [4, 3, 3], 6, 14));
    assert_eq!((h.frame_index, h.force_full_update), (0, true));
    h.finish_frame();
    h.disable();
    assert_eq!((h.frame_index, h.force_full_update, h.history_valid), (0, true, false));
    h.frame_index = u32::MAX;
    h.finish_frame();
    assert_eq!(h.frame_index, 0);
}

#[test]
fn ddgi_frame_parameters() {
    assert_eq!(ddgi_probe_counts([0, 5, 1]), [1, 5, 1]);
    assert_eq!(ddgi_probe_resolution(1), 2);
    assert_eq!(ddgi_probe_resolution(40), 16);
    assert_eq!(ddgi_probe_resolution(8), 8);
    assert_eq!(ddgi_probe_count([4, 3, 2]), 24);
    assert_eq!(ddgi_probe_count([u32::MAX, 2, 2]), u32::MAX);
    assert_eq!(ddgi_probe_count([0, 3, 2]), 1);
    assert_eq!(ddgi_probes_per_frame(true, 24, 4), 24);
    assert_eq!(ddgi_probes_per_frame(false, 24, 4), 4);
    assert_eq!(ddgi_probes_per_frame(false, 24, 0), 1);
    assert_eq!(ddgi_bounce_params(0, DdgiDebugMode::Off), 1);
    assert_eq!(ddgi_bounce_params(9, DdgiDebugMode::Visibility), 4 | (3 << 16));
    assert_eq!(ddgi_workgroup_count(65, 8), 9);
    assert_eq!(ddgi_workgroup_count(64, 8), 8);
    assert_eq!(ddgi_workgroup_count(5, 0), 5);
    assert!(ddgi_update_enabled(1, (8, 8)));
    assert!(!ddgi_update_enabled(0, (8, 8)));
    assert!(!ddgi_update_enabled(1, (0, 8)));
}
