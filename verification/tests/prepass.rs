use sky_render::prepass::draw_function_batches;
use sky_render::prepass::normal_prepass_draw;
use sky_render::prepass::prepare_batches;
use sky_render::prepass::sub_mesh_index_range;
use sky_render::prepass::PrepassDraw;
use sky_render::prepass::SubMeshRange;

#[test]
fn prepass_batches_are_maximal_runs_of_mesh_and_sub_mesh() {
    let keys = vec![(7, 0), (7, 0), (7, 1), (3, 1), (3, 1), (7, 0)];
    assert_eq!(prepare_batches(&keys), vec![(0, 2), (2, 3), (3, 5), (5, 6)]);
    assert_eq!(prepare_batches(&vec![]), Vec::<(usize, usize)>::new());
    assert_eq!(prepare_batches(&vec![(1, 1)]), vec![(0, 1)]);
}

#[test]
fn material_prepass_batches_by_draw_function() {
    assert_eq!(draw_function_batches(&vec![2, 2, 2, 5, 2]), vec![(0, 3), (3, 4), (4, 5)]);
    assert_eq!(draw_function_batches(&vec![]), Vec::<(usize, usize)>::new());
}

#[test]
fn sub_mesh_without_indices_draws_the_whole_mesh() {
    assert_eq!(sub_mesh_index_range(36, 12, 0), (0, 36));
    assert_eq!(sub_mesh_index_range(36, 12, 6), (12, 18));
}

#[test]
fn normal_prepass_draw_skips_missing_parts() {
    let sub = SubMeshRange { index_offset: 6, index_count: 3, vertex_offset: -2 };
    assert_eq!(normal_prepass_draw(None, true, true, true, 9, 4, 2), PrepassDraw::Skip);
    assert_eq!(normal_prepass_draw(Some(sub), false, true, true, 9, 4, 2), PrepassDraw::Skip);
    assert_eq!(normal_prepass_draw(Some(sub), true, true, false, 9, 4, 2), PrepassDraw::Skip);
    assert_eq!(
        normal_prepass_draw(Some(sub), true, true, true, 9, 4, 2),
        PrepassDraw::Indexed { start: 6, end: 9, base_vertex: -2, instances: 2 }
    );
    let whole = SubMeshRange { index_count: 0, ..sub };
    assert_eq!(
        normal_prepass_draw(Some(whole), true, true, true, 9, 4, 5),
        PrepassDraw::Indexed { start: 0, end: 9, base_vertex: -2, instances: 5 }
    );
    assert_eq!(
        normal_prepass_draw(Some(sub), true, false, false, 9, 4, 3),
        PrepassDraw::Vertices { vertices: 4, instances: 3 }
    );
}
