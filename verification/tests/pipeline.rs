use sky_render::frame::FrameExecutionStats;
use sky_render::pipeline::ordered_view_indices;
use sky_render::pipeline::plan_frame;
use sky_render::pipeline::DispatchEntry;
use sky_render::pipeline::PassDispatch;

/// Runs a frame plan the way the frame pipeline does, logging each node's
/// setup call: one setup node, a seeding and an observing view node, and one
/// finalize node; `tokens` names the views.
fn setup_log(steps: &[DispatchEntry], tokens: &[u32]) -> Vec<String> {
    steps
        .iter()
        .map(|step| match *step {
            DispatchEntry::Setup { .. } => "setup".to_string(),
            DispatchEntry::View { node_index: 0, view_index } => format!("seed_{}", tokens[view_index]),
            DispatchEntry::View { view_index, .. } => format!("observe_{}", tokens[view_index]),
            DispatchEntry::Finalize { .. } => "finalize".to_string(),
        })
        .collect()
}

#[test]
fn phases_run_in_setup_view_finalize_order_and_views_sort_by_order() {
    // View A (token 7) has order 10, view B (token 3) has order 0.
    let tokens = [7, 3];
    let plan = plan_frame(&vec![true], &vec![true, true], &vec![true], &vec![10, 0]);

    let log = setup_log(&plan.steps, &tokens);
    assert_eq!(
        log,
        vec!["setup", "seed_3", "observe_3", "seed_7", "observe_7", "finalize",]
    );
}

#[test]
fn views_sort_stably_by_order() {
    assert_eq!(ordered_view_indices(&vec![]), Vec::<usize>::new());
    assert_eq!(ordered_view_indices(&vec![5, -1, 5, 0, -1]), vec![1, 4, 3, 0, 2]);
    assert_eq!(ordered_view_indices(&vec![2, 2, 2]), vec![0, 1, 2]);
}

#[test]
fn disabled_nodes_get_no_setup_call() {
    let plan = plan_frame(&vec![false, true], &vec![true, false], &vec![false], &vec![1, 1]);
    assert_eq!(plan.view_order, vec![0, 1]);
    assert_eq!(
        plan.steps,
        vec![
            DispatchEntry::Setup { node_index: 1 },
            DispatchEntry::View { node_index: 0, view_index: 0 },
            DispatchEntry::View { node_index: 0, view_index: 1 },
        ]
    );
}

#[test]
fn passes_dispatch_to_the_node_that_declared_them() {
    let mut dispatch = PassDispatch::new();
    dispatch.register_passes(0, 2, DispatchEntry::Setup { node_index: 0 });
    dispatch.register_passes(2, 2, DispatchEntry::Setup { node_index: 1 });
    dispatch.register_passes(2, 5, DispatchEntry::View { node_index: 1, view_index: 3 });
    assert_eq!(dispatch.dispatch(1), Some(DispatchEntry::Setup { node_index: 0 }));
    assert_eq!(
        dispatch.dispatch(4),
        Some(DispatchEntry::View { node_index: 1, view_index: 3 })
    );
    assert_eq!(dispatch.dispatch(5), None);

    dispatch.register_passes(1, 2, DispatchEntry::Finalize { node_index: 2 });
    assert_eq!(dispatch.dispatch(1), Some(DispatchEntry::Finalize { node_index: 2 }));
    assert_eq!(dispatch.dispatch(0), Some(DispatchEntry::Setup { node_index: 0 }));

    dispatch.clear();
    assert_eq!(dispatch.dispatch(0), None);
}

#[test]
fn frame_stats_count_passes_and_draw_calls() {
    let mut stats = FrameExecutionStats::default();
    stats.record_pass(3);
    stats.record_pass(0);
    assert_eq!(stats, FrameExecutionStats { passes: 2, draw_calls: 3 });
}
