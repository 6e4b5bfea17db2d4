use aviqtl::playback_jobs::{
    audio_queue_position, next_queued_frame, output_retry_due, planner_step,
    preview_frame_needed, waveform_finished, waveform_started, waveform_update, FrameKey,
    PlannerStep, SceneKey, SourceKey, WaveformJobs,
};

#[test]
fn the_audio_queue_continues_only_near_the_playhead() {
    assert_eq!(audio_queue_position(Some(12), 10, 5, false), (12, false));
    assert_eq!(audio_queue_position(Some(15), 10, 5, false), (15, false));
    assert_eq!(audio_queue_position(Some(16), 10, 5, false), (10, true));
    assert_eq!(audio_queue_position(Some(9), 10, 5, false), (10, true));
    assert_eq!(audio_queue_position(None, 10, 5, false), (10, true));
    assert_eq!(audio_queue_position(Some(12), 10, 5, true), (10, true));
    assert_eq!(
        audio_queue_position(Some(i32::MAX), i32::MAX - 1, 10, false),
        (i32::MAX, false)
    );
    assert_eq!(next_queued_frame(41), 42);
    assert_eq!(next_queued_frame(i32::MAX), i32::MAX);
}

#[test]
fn a_lost_audio_output_is_retried_every_five_seconds() {
    assert!(output_retry_due(None));
    assert!(!output_retry_due(Some(4_999)));
    assert!(output_retry_due(Some(5_000)));
}

fn source(revision: u64, path: Option<&str>) -> SourceKey {
    SourceKey {
        project_instance_id: 1,
        document_revision: revision,
        project_path: path.map(str::to_owned),
    }
}

fn scene(revision: u64, scene_id: i32) -> SceneKey {
    SceneKey {
        source: source(revision, Some("/p/a.aviqtl")),
        scene_id,
    }
}

#[test]
fn waveform_builds_follow_the_shown_scene() {
    let mut jobs = WaveformJobs {
        source_key: None,
        pending_key: None,
        completed_key: None,
        has_peaks: false,
    };
    let actions = waveform_update(&mut jobs, Some(scene(1, 0)));
    assert!(actions.cancel_pending && actions.clear_view);
    assert_eq!(actions.start, Some(scene(1, 0)));
    waveform_started(&mut jobs, scene(1, 0), true);
    let actions = waveform_update(&mut jobs, Some(scene(1, 0)));
    assert!(!actions.cancel_pending && !actions.clear_view);
    assert_eq!(actions.start, None);

    let actions = waveform_update(&mut jobs, Some(scene(2, 0)));
    assert!(actions.cancel_pending && actions.clear_view);
    assert_eq!(actions.start, None);
    assert!(!waveform_finished(&mut jobs, Some(scene(1, 0)), true));
    assert!(!jobs.has_peaks);
    let actions = waveform_update(&mut jobs, Some(scene(2, 0)));
    assert_eq!(actions.start, Some(scene(2, 0)));
    waveform_started(&mut jobs, scene(2, 0), true);
    assert!(waveform_finished(&mut jobs, Some(scene(2, 0)), true));
    assert!(jobs.has_peaks);
    assert_eq!(jobs.completed_key, Some(scene(2, 0)));
    assert_eq!(waveform_update(&mut jobs, Some(scene(2, 0))).start, None);

    let actions = waveform_update(&mut jobs, None);
    assert!(actions.cancel_pending && actions.clear_view);
    assert!(jobs.source_key.is_none() && !jobs.has_peaks);
    assert!(!waveform_update(&mut jobs, None).clear_view);
}

#[test]
fn a_build_that_cannot_start_counts_as_complete() {
    let mut jobs = WaveformJobs {
        source_key: None,
        pending_key: None,
        completed_key: None,
        has_peaks: false,
    };
    let actions = waveform_update(&mut jobs, Some(scene(1, 3)));
    waveform_started(&mut jobs, actions.start.expect("a build"), false);
    assert_eq!(jobs.completed_key, Some(scene(1, 3)));
    assert_eq!(waveform_update(&mut jobs, Some(scene(1, 3))).start, None);
}

#[test]
fn planners_follow_the_project_state() {
    let key = source(4, Some("/p/a.aviqtl"));
    assert_eq!(planner_step(&None, &key, false), PlannerStep::Create);
    assert_eq!(planner_step(&None, &key, true), PlannerStep::Rebuild);
    assert_eq!(planner_step(&Some(key.clone()), &key, true), PlannerStep::Keep);
    assert_eq!(
        planner_step(&Some(source(4, None)), &key, true),
        PlannerStep::Rebuild
    );
    assert_eq!(
        planner_step(&Some(source(5, Some("/p/a.aviqtl"))), &key, true),
        PlannerStep::Rebuild
    );
    let frame = FrameKey { scene: scene(4, 0), frame: 10 };
    assert!(preview_frame_needed(&None, &frame));
    assert!(!preview_frame_needed(&Some(frame.clone()), &frame));
    assert!(preview_frame_needed(
        &Some(FrameKey { scene: scene(4, 0), frame: 11 }),
        &frame
    ));
}
