use sky_render::ecs::World;
use sky_render::frame::pass_first_read_texture;
use sky_render::frame::pass_first_write_texture;
use sky_render::frame::pass_nth_read_texture;
use sky_render::frame::BufferHandle;
use sky_render::frame::PhaseState;
use sky_render::frame::ResourceSlotMap;
use sky_render::frame::SlotResource;
use sky_render::frame::TextureSlot;
use sky_render::gi::graph::PassDecl;
use sky_render::gi::graph::ResourceRef;
use sky_render::gi::graph::TextureFormat;
use sky_render::gi::graph::TextureHandle;
use sky_render::gi::graph::TextureSubresource;
use sky_render::gi::providers::DdgiDebugMode;
use sky_render::gi::providers::DdgiProviderFactory;
use sky_render::gi::providers::SsgiProviderFactory;
use sky_render::mesh::validate_index_range;
use sky_render::mesh::validate_instances;
use sky_render::mesh::validate_vertex_range;
use sky_render::mesh::MeshDraw;
use sky_render::mesh::MeshInfo;
use sky_render::mesh::MeshPassError;
use sky_render::sprite::frame_index_for_phase;
use sky_render::sprite::looped_phase_ms;
use sky_render::sprite::non_repeating_phase_ms;
use sky_render::sprite::SpriteClipTiming;
use sky_render::sprite::SpriteFeature;
use sky_render::tiled::physics::TiledPhysicsInstance;
use sky_render::tiled::physics::TiledPhysicsOptions;
use sky_render::tilemap::draw_data::TilemapDrawData;
use sky_render::tilemap::feature::tilemap_batch_key_for;
use sky_render::tilemap::feature::DrawFunctionId;
use sky_render::tilemap::feature::ExtractTilemaps;
use sky_render::tilemap::feature::TilemapCacheConfig;
use sky_render::tilemap::feature::TilemapFeature;

#[test]
fn slot_map_reads_back_the_last_write() {
    let mut slots = ResourceSlotMap::new();
    assert_eq!(
        slots.insert_texture("color", TextureHandle(1), TextureFormat::Rgba16Float),
        None
    );
    assert_eq!(slots.insert_buffer("lights", BufferHandle(7)), None);
    let previous = slots.insert_texture("color", TextureHandle(2), TextureFormat::R32Float);
    assert_eq!(
        previous,
        Some(TextureSlot::new(TextureHandle(1), TextureFormat::Rgba16Float))
    );
    assert_eq!(
        slots.texture("color"),
        Some(TextureSlot::new(TextureHandle(2), TextureFormat::R32Float))
    );
    assert_eq!(slots.buffer("lights"), Some(BufferHandle(7)));
    assert_eq!(slots.texture("lights"), None);
    assert_eq!(slots.insert_texture("lights", TextureHandle(3), TextureFormat::R32Float), None);
    assert!(matches!(slots.resource("lights"), Some(SlotResource::Texture(_))));
    assert!(!slots.contains("depth"));
}

#[test]
fn phase_state_tracks_current_color() {
    let mut phase = PhaseState::new(TextureFormat::Rgba16Float, true);
    assert_eq!(phase.current_color(), None);
    phase.set_current_color(TextureHandle(5), TextureFormat::Rgba16Float);
    assert_eq!(phase.current_color().map(|s| s.handle()), Some(TextureHandle(5)));
    assert_eq!(
        phase.set_texture_slot("normal", TextureHandle(6), TextureFormat::Rgba16Float),
        None
    );
    assert_eq!(phase.texture_slot("normal").map(|s| s.handle()), Some(TextureHandle(6)));
    assert!(phase.has_surface());
    let slots = phase.into_slots();
    assert!(slots.contains("current_color"));
}

#[test]
fn pass_textures_skip_subresources() {
    let sub = ResourceRef::TextureSubresource(TextureSubresource::new(TextureHandle(9), 0, 1, 0, 1));
    let pass = PassDecl {
        name: "p".to_string(),
        reads: vec![sub, ResourceRef::Texture(TextureHandle(1)), ResourceRef::Texture(TextureHandle(2))],
        writes: vec![sub, ResourceRef::Texture(TextureHandle(3))],
        flags: 0,
    };
    assert_eq!(pass_first_read_texture(&pass), TextureHandle(1));
    assert_eq!(pass_nth_read_texture(&pass, 1), TextureHandle(2));
    assert_eq!(pass_first_write_texture(&pass), TextureHandle(3));
}

#[test]
fn world_spawns_fresh_entities_and_despawns_them() {
    let mut world = World::new();
    let a = world.spawn();
    let b = world.spawn();
    assert_ne!(a, b);
    assert!(world.contains(a));
    assert!(world.despawn(a));
    assert!(!world.contains(a));
    assert!(!world.despawn(a));
    assert!(world.contains(b));
}

#[test]
fn physics_instance_despawn_removes_its_entities() {
    let mut world = World::new();
    let keep = world.spawn();
    let a = world.spawn();
    let b = world.spawn();
    let instance = TiledPhysicsInstance { entities: vec![a, b] };
    instance.despawn(&mut world);
    assert!(world.contains(keep));
    assert!(!world.contains(a));
    assert!(!world.contains(b));
    let options = TiledPhysicsOptions::default();
    assert!(options.spawn_tile_colliders && options.spawn_object_colliders && options.include_invisible_layers);
}

#[test]
fn mesh_draw_builder_and_range_checks() {
    let mesh = MeshInfo {
        label: "quad".to_string(),
        vertex_count: 4,
        index_count: 6,
    };
    let mut pipeline = 0u8;
    let material = 1u16;
    let draw: MeshDraw<'_, u8, u16> = MeshDraw::new(&mesh, &mut pipeline)
        .material(&material)
        .vertices(0..4)
        .indices(0..6)
        .base_vertex(-1)
        .instances(2..5);
    assert_eq!(draw.vertex_range, Some(0..4));
    assert_eq!(draw.index_range, Some(0..6));
    assert_eq!(draw.base_vertex, -1);
    assert_eq!(draw.instances, 2..5);
    assert_eq!(draw.material, Some(&1u16));

    assert_eq!(validate_instances(1..1).unwrap(), 1..1);
    assert!(matches!(
        validate_instances(3..1),
        Err(MeshPassError::InvalidInstanceRange { start: 3, end: 1 })
    ));
    assert_eq!(validate_vertex_range(&mesh, 1..4).unwrap(), 1..4);
    assert!(matches!(
        validate_vertex_range(&mesh, 0..5),
        Err(MeshPassError::VertexRangeOutOfBounds { vertex_count: 4, .. })
    ));
    assert!(matches!(
        validate_index_range(&mesh, 4..2),
        Err(MeshPassError::IndexRangeOutOfBounds { index_count: 6, .. })
    ));
}

#[test]
fn sprite_clip_timing_selects_frames_by_duration() {
    let clip = SpriteClipTiming::new(vec![100, 100, 200]);
    assert_eq!(clip.duration_ms, 400);
    assert_eq!(frame_index_for_phase(&clip.frame_durations, 0), 0);
    assert_eq!(frame_index_for_phase(&clip.frame_durations, 100), 1);
    assert_eq!(frame_index_for_phase(&clip.frame_durations, 200), 2);
    assert_eq!(frame_index_for_phase(&clip.frame_durations, 999), 2);
    assert_eq!(looped_phase_ms(400, clip.duration_ms), 0);
    assert_eq!(looped_phase_ms(450, clip.duration_ms), 50);
    assert_eq!(non_repeating_phase_ms(1000, 400), (399, true));
    assert_eq!(non_repeating_phase_ms(120, 400), (120, false));
    let zero = SpriteClipTiming::new(vec![0, 0]);
    assert_eq!(zero.duration_ms, 2);
    assert_eq!(frame_index_for_phase(&Vec::new(), 5), 0);
    assert_eq!(SpriteFeature::new(), SpriteFeature::unlit());
    assert_eq!(SpriteFeature::lit_hdr().name(), "sprite");
}

#[test]
fn tilemap_feature_and_draw_payloads() {
    let feature = TilemapFeature::new().with_cache_config(TilemapCacheConfig::new());
    assert_eq!(feature, TilemapFeature::unlit());
    assert_eq!(feature.name(), "tilemap");
    let extractor = ExtractTilemaps::new(DrawFunctionId(3));
    assert_eq!(extractor.draw_function_id, DrawFunctionId(3));
    assert!(extractor.extracts_main_views_only());
    assert_eq!(
        tilemap_batch_key_for(DrawFunctionId(0x103), 0xffff_0000_0000_0042),
        (0x03u64 << 56) | 0x00ff_0000_0000_0042
    );

    let mut data = TilemapDrawData::new_chunk_range(7, 2, 3);
    assert_eq!(data.payload_index(), 7);
    assert_eq!(data.instance_range(10), (2, 5));
    assert_eq!(data.instance_range(4), (2, 4));
    assert_eq!(data.instance_range(1), (1, 1));
    data.set_model_slot(9);
    assert_eq!(data.model_slot(), 9);
    let rest = TilemapDrawData::new_chunk_range(0, 3, u32::MAX);
    assert_eq!(rest.instance_range(8), (3, 8));
}

#[test]
fn gi_provider_factories_name_their_providers() {
    assert_eq!(SsgiProviderFactory.id(), "sky.ssgi");
    assert_eq!(DdgiProviderFactory.id(), "sky.ddgi");
    assert!(SsgiProviderFactory.composite_descriptor().requires_hdr_input);
    assert_eq!(DdgiDebugMode::default_mode(), DdgiDebugMode::Off);
}
