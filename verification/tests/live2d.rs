use sky_render::live2d::Live2DComponents;
use sky_render::live2d::premultiply_rgba8;
use sky_render::live2d::Live2DUpdateScheduler;
use sky_render::live2d::Live2DUpdateStage;

#[test]
fn premultiply_rgba8_matches_expected_rounding() {
    let mut bytes = [200, 100, 50, 128];
    premultiply_rgba8(&mut bytes);
    assert_eq!(bytes, [100, 50, 25, 128]);
}

#[test]
fn premultiply_rgba8_keeps_opaque_pixels_and_trailing_bytes() {
    let mut bytes = [10, 20, 30, 255, 255, 255, 255, 0, 7, 9];
    premultiply_rgba8(&mut bytes);
    assert_eq!(bytes, [10, 20, 30, 255, 0, 0, 0, 0, 7, 9]);
}

#[test]
fn live2d_update_stages_run_in_order() {
    assert!(Live2DUpdateScheduler::is_sorted());
    let stages = Live2DUpdateScheduler::stages();
    assert_eq!(stages[0], Live2DUpdateStage::EyeBlink);
    assert_eq!(stages[6], Live2DUpdateStage::Pose);
    assert_eq!(Live2DUpdateStage::Physics.order(), 600);
}

#[test]
fn update_runs_the_stages_the_model_has() {
    let all = Live2DComponents {
        eye_blink: true,
        expression: true,
        look: true,
        breath: true,
        physics: true,
        lip_sync: true,
        pose: true,
    };
    assert_eq!(Live2DUpdateScheduler::run_plan(all, false).to_vec(), Live2DUpdateScheduler::stages().to_vec());
    assert_eq!(
        Live2DUpdateScheduler::run_plan(all, true),
        vec![
            Live2DUpdateStage::Expression,
            Live2DUpdateStage::Look,
            Live2DUpdateStage::Breath,
            Live2DUpdateStage::Physics,
            Live2DUpdateStage::LipSync,
            Live2DUpdateStage::Pose,
        ]
    );
    let some = Live2DComponents { eye_blink: true, physics: true, pose: true, ..Live2DComponents {
        eye_blink: false,
        expression: false,
        look: false,
        breath: false,
        physics: false,
        lip_sync: false,
        pose: false,
    } };
    assert_eq!(
        Live2DUpdateScheduler::run_plan(some, false),
        vec![Live2DUpdateStage::EyeBlink, Live2DUpdateStage::Physics, Live2DUpdateStage::Pose]
    );
}
