use aviqtl::dispatch::{
    advanced_skimmer_position, shortcut_dispatch, shortcut_target, ShortcutDispatch,
    ShortcutTarget,
};
use aviqtl::file_drop::{
    file_drop_outcome, file_drop_step, DropTarget, FileDropAction, FileDropEvent, FileDropState,
};
use aviqtl::language::UiLanguage;
use aviqtl::layout::{
    fit_to_screen, monitor_work_area, workspace_windows, SavedWorkspaceWindow, StoredGeometry,
    WindowGeometry, WorkspaceWindow,
};
use aviqtl::recent::{
    recent_entry_for_project, recent_project_limit, recent_projects_from_entries,
    StoredRecentEntry,
};
use aviqtl::runtime_settings::{
    preview_runtime_numbers, project_default_numbers, system_theme_index, timeline_maximum_layers,
    timeline_runtime_settings, ProjectDefaultNumbers, TimelineRuntimeSettings,
};
use aviqtl::shortcuts::ShortcutAction;
use aviqtl::system_settings::{
    recovery_interval_seconds, sync_system_settings, system_settings_replacement, undo_limit,
    StoredSystemChoices, SystemSettingsChoices, SystemSettingsNumbers,
};
use aviqtl::timeline_ui::{
    frame_counter_text, grid_mode_index, moved_context_search_selection, timeline_clip_style,
    timeline_layer_rows, LayerRow,
};

fn numbers(v: i32) -> SystemSettingsNumbers {
    SystemSettingsNumbers {
        backup_interval: v,
        recent_project_max_count: v,
        undo_count: v,
        splash_size: v,
        max_image_size: v,
        cache_size: v,
        on_demand_prefetch_frames: v,
        timeline_track_height: v,
        timeline_header_height: v,
        timeline_ruler_height: v,
        timeline_max_layers: v,
        timeline_layer_header_width: v,
        timeline_clip_resize_handle_width: v,
        min_clip_duration_frames: v,
        timeline_zoom_min: v,
        timeline_zoom_max: v,
        timeline_zoom_step: v,
        default_project_width: v,
        default_project_height: v,
        default_project_frames: v,
        default_project_sample_rate: v,
        default_clip_duration: v,
        export_default_bitrate_mbps: v,
        export_default_crf: v,
        export_image_quality: v,
        export_sequence_padding: v,
        export_default_audio_bitrate_kbps: v,
        export_frame_grab_timeout_ms: v,
        export_progress_interval: v,
        export_encoder_queue_mb: v,
        video_decoder_index_reserve: v,
        video_decoder_min_cache_mb: v,
        hw_frame_pool_size: v,
        lua_hook_interval_ms: v,
    }
}

#[test]
fn system_settings_store_numbers_in_range_and_choices_by_value() {
    let choices = SystemSettingsChoices {
        preview_msaa_index: 3,
        bake_strategy_index: 1,
        theme_index: 9,
        language_index: -1,
        export_video_codec_index: 5,
        export_audio_codec_index: 1,
        audio_plugin_block_size_index: 0,
    };
    let (kept, stored) = system_settings_replacement(numbers(0), choices, 128);
    assert_eq!(kept.backup_interval, 1);
    assert_eq!(kept.recent_project_max_count, 1);
    assert_eq!(kept.splash_size, 128);
    assert_eq!(kept.max_image_size, 1_024);
    assert_eq!(kept.cache_size, 64);
    assert_eq!(kept.on_demand_prefetch_frames, 0);
    assert_eq!(kept.timeline_track_height, 16);
    assert_eq!(kept.timeline_max_layers, 1);
    assert_eq!(kept.timeline_layer_header_width, 40);
    assert_eq!(kept.timeline_clip_resize_handle_width, 4);
    assert_eq!(kept.timeline_zoom_min, 1);
    assert_eq!(kept.timeline_zoom_max, 1);
    assert_eq!(kept.default_project_sample_rate, 8_000);
    assert_eq!(kept.export_default_crf, 0);
    assert_eq!(kept.export_sequence_padding, 2);
    assert_eq!(kept.export_default_audio_bitrate_kbps, 32);
    assert_eq!(kept.export_frame_grab_timeout_ms, 100);
    assert_eq!(kept.video_decoder_index_reserve, 1_000);
    assert_eq!(kept.lua_hook_interval_ms, 1);
    assert_eq!(stored.preview_msaa_samples, 8);
    assert_eq!(stored.bake_strategy, "FullBake");
    assert_eq!(stored.theme, "Dark");
    assert_eq!(stored.ui_language, "System");
    assert_eq!(stored.export_default_codec, "libx264");
    assert_eq!(stored.export_default_audio_codec, "opus");
    assert_eq!(stored.audio_plugin_max_block_size, 256);

    let (shown_numbers, shown) = sync_system_settings(kept, &stored, 128);
    assert_eq!(shown_numbers, kept);
    assert_eq!(
        shown,
        SystemSettingsChoices {
            preview_msaa_index: 3,
            bake_strategy_index: 1,
            theme_index: 0,
            language_index: 0,
            export_video_codec_index: 2,
            export_audio_codec_index: 1,
            audio_plugin_block_size_index: 0,
        }
    );
}

#[test]
fn system_settings_upper_limits_and_zoom_order() {
    let mut raw = numbers(2_000_000);
    raw.timeline_zoom_min = 300;
    raw.timeline_zoom_max = 50;
    let (kept, _) = system_settings_replacement(
        raw,
        SystemSettingsChoices {
            preview_msaa_index: 0,
            bake_strategy_index: 0,
            theme_index: 0,
            language_index: 0,
            export_video_codec_index: 0,
            export_audio_codec_index: 0,
            audio_plugin_block_size_index: 0,
        },
        128,
    );
    assert_eq!(kept.timeline_zoom_min, 300);
    assert_eq!(kept.timeline_zoom_max, 300);
    assert_eq!(kept.undo_count, 1_000);
    assert_eq!(kept.timeline_max_layers, 128);
    assert_eq!(kept.default_project_frames, 1_000_000);
    assert_eq!(kept.default_clip_duration, 100_000);
    assert_eq!(kept.video_decoder_index_reserve, 1_000_000);
    assert_eq!(kept.hw_frame_pool_size, 256);

    let mut high = numbers(50);
    high.timeline_zoom_min = 900;
    high.timeline_zoom_max = 2_000;
    let (kept, _) = system_settings_replacement(
        high,
        SystemSettingsChoices {
            preview_msaa_index: 0,
            bake_strategy_index: 0,
            theme_index: 0,
            language_index: 0,
            export_video_codec_index: 0,
            export_audio_codec_index: 0,
            audio_plugin_block_size_index: 0,
        },
        128,
    );
    assert_eq!(kept.timeline_zoom_min, 400);
    assert_eq!(kept.timeline_zoom_max, 1_000);
}

#[test]
fn stored_choices_show_their_positions_and_libopus_shows_as_opus() {
    let stored = StoredSystemChoices {
        preview_msaa_samples: 4,
        bake_strategy: "OnDemand".to_owned(),
        theme: "Light".to_owned(),
        ui_language: "Japanese".to_owned(),
        export_default_codec: "hevc_vaapi".to_owned(),
        export_default_audio_codec: "libopus".to_owned(),
        audio_plugin_max_block_size: 1_000,
    };
    let (_, shown) = sync_system_settings(numbers(10), &stored, 128);
    assert_eq!(
        shown,
        SystemSettingsChoices {
            preview_msaa_index: 2,
            bake_strategy_index: 0,
            theme_index: 1,
            language_index: 3,
            export_video_codec_index: 1,
            export_audio_codec_index: 1,
            audio_plugin_block_size_index: 4,
        }
    );
}

#[test]
fn runtime_backup_interval_and_undo_limit() {
    assert_eq!(recovery_interval_seconds(0), 60);
    assert_eq!(recovery_interval_seconds(5), 300);
    assert_eq!(recovery_interval_seconds(5_000), 1_440 * 60);
    assert_eq!(undo_limit(-3), 1);
    assert_eq!(undo_limit(32), 32);
}

#[test]
fn monitor_work_area_keeps_margins_and_a_pixel() {
    assert_eq!(
        monitor_work_area(0, 0, 1920, 1080),
        WindowGeometry::new(12, 36, 1896, 980)
    );
    assert_eq!(
        monitor_work_area(-1920, 10, 10, 10),
        WindowGeometry::new(-1908, 46, 1, 1)
    );
}

#[test]
fn restored_windows_are_fitted_onto_the_screen() {
    let screen = WindowGeometry::new(0, 0, 1920, 1080);
    let oversized = WindowGeometry {
        x: -50,
        y: 2_000,
        width: 3_000,
        height: 100,
        maximized: true,
    };
    assert_eq!(
        fit_to_screen(oversized, screen),
        WindowGeometry {
            x: 0,
            y: 980,
            width: 1920,
            height: 100,
            maximized: true,
        }
    );
    let inside = WindowGeometry::new(100, 100, 800, 600);
    assert_eq!(fit_to_screen(inside, screen), inside);
    let empty = WindowGeometry::new(5000, 5, 0, -4);
    assert_eq!(
        fit_to_screen(empty, screen),
        WindowGeometry::new(1919, 5, 1, 1)
    );
}

#[test]
fn command_shortcuts_are_dispatched_by_kind() {
    assert_eq!(
        shortcut_dispatch(ShortcutAction::ZoomIn),
        ShortcutDispatch::Zoom { direction: 1 }
    );
    assert_eq!(
        shortcut_dispatch(ShortcutAction::ZoomOut),
        ShortcutDispatch::Zoom { direction: -1 }
    );
    assert_eq!(
        shortcut_dispatch(ShortcutAction::MoveUp),
        ShortcutDispatch::MoveClips { layers: -1, frames: 0 }
    );
    assert_eq!(
        shortcut_dispatch(ShortcutAction::NudgeRight),
        ShortcutDispatch::MoveClips { layers: 0, frames: 1 }
    );
    assert_eq!(shortcut_dispatch(ShortcutAction::Paste), ShortcutDispatch::EditTimeline);
    assert_eq!(shortcut_dispatch(ShortcutAction::JumpEnd), ShortcutDispatch::EditTimeline);
    assert_eq!(shortcut_dispatch(ShortcutAction::Undo), ShortcutDispatch::MainWindow);
    assert_eq!(shortcut_dispatch(ShortcutAction::AddScene), ShortcutDispatch::AddScene);
    assert_eq!(
        shortcut_dispatch(ShortcutAction::SceneSettings),
        ShortcutDispatch::SceneSettings
    );
}

#[test]
fn timeline_edits_by_shortcut_follow_the_visible_skimmer() {
    assert_eq!(
        shortcut_target(true, true, 10, 3, 50, 1),
        ShortcutTarget { skimmer: true, frame: 10, layer: 3 }
    );
    assert_eq!(
        shortcut_target(true, false, 10, 3, 50, 1),
        ShortcutTarget { skimmer: false, frame: 50, layer: 1 }
    );
    assert_eq!(
        shortcut_target(false, true, 10, 3, 50, 1),
        ShortcutTarget { skimmer: false, frame: 50, layer: 1 }
    );
    assert_eq!(advanced_skimmer_position(-5, 200, 128, 128), (0, 127));
    assert_eq!(advanced_skimmer_position(7, -1, 0, 128), (7, 0));
    assert_eq!(advanced_skimmer_position(7, 40, 300, 64), (7, 40));
}

#[test]
fn files_dropped_together_land_one_after_another() {
    let state = FileDropState {
        has_cursor: false,
        shift: false,
        hovered_files: 0,
        next_target: None,
    };
    let (state, action) = file_drop_step(state, FileDropEvent::CursorMoved);
    assert_eq!(action, FileDropAction::Nothing);
    let (state, action) = file_drop_step(state, FileDropEvent::HoveredFile);
    assert_eq!(action, FileDropAction::Hover { shift: false });
    let (state, _) = file_drop_step(state, FileDropEvent::HoveredFile);
    assert_eq!(state.hovered_files, 2);
    let (state, action) = file_drop_step(state, FileDropEvent::ModifiersChanged { shift: true });
    assert_eq!(action, FileDropAction::Hover { shift: true });
    let (state, action) = file_drop_step(state, FileDropEvent::DroppedFile);
    assert_eq!(action, FileDropAction::DropAtCursor { shift: true });
    let (state, over) = file_drop_outcome(state, true, 120, 2);
    assert!(!over);
    let (state, action) = file_drop_step(state, FileDropEvent::DroppedFile);
    assert_eq!(
        action,
        FileDropAction::DropAt {
            target: DropTarget { frame: 120, layer: 2 }
        }
    );
    let (state, over) = file_drop_outcome(state, true, 240, 2);
    assert!(over);
    let (state, _) = file_drop_step(state, FileDropEvent::HoveredFile);
    assert_eq!(state.next_target, None);
    let (state, action) = file_drop_step(state, FileDropEvent::HoveredFileCancelled);
    assert_eq!(action, FileDropAction::Left);
    assert_eq!(state.hovered_files, 0);
}

#[test]
fn a_drop_without_a_cursor_is_not_placed() {
    let state = FileDropState {
        has_cursor: false,
        shift: false,
        hovered_files: 1,
        next_target: None,
    };
    let (state, action) = file_drop_step(state, FileDropEvent::DroppedFile);
    assert_eq!(action, FileDropAction::DropNowhere);
    let (state, over) = file_drop_outcome(state, false, 0, 0);
    assert!(over);
    assert_eq!(state.next_target, None);
}

fn stored(path: Option<&str>, name: Option<&str>, width: i32, height: i32, fps: f64) -> StoredRecentEntry {
    StoredRecentEntry {
        path: path.map(str::to_owned),
        name: name.map(str::to_owned),
        width,
        height,
        fps_bits: fps.to_bits(),
    }
}

#[test]
fn recent_projects_parse_qt_entries_and_respect_the_configured_limit() {
    let entries = [
        stored(Some("C:/projects/one.aviqtl"), Some("One"), 1920, 1080, 60.0),
        stored(Some("C:/projects/two.aviqtl"), Some(""), 1280, 720, 30.0),
        stored(Some(""), Some("Invalid"), 1920, 1080, 60.0),
    ];
    let recent = recent_projects_from_entries(&entries, 2, UiLanguage::English);
    assert_eq!(recent.len(), 2);
    assert_eq!(recent[0].name, "One");
    assert_eq!(recent[1].name, "two.aviqtl");
    assert_eq!(f64::from_bits(recent[1].fps_bits), 30.0);
}

#[test]
fn recent_project_paths_preserve_surrounding_whitespace() {
    let entries = [
        stored(Some("  C:/projects/with-space.aviqtl  "), None, 1920, 1080, 60.0),
        stored(Some(" \t "), None, 1920, 1080, 60.0),
    ];
    let recent = recent_projects_from_entries(&entries, 10, UiLanguage::English);
    assert_eq!(recent.len(), 1);
    assert_eq!(recent[0].path, "  C:/projects/with-space.aviqtl  ");
}

#[test]
fn recent_entries_without_a_name_or_path_fall_back() {
    let entries = [
        stored(None, Some("No path"), 1, 1, 60.0),
        stored(Some("/"), Some("  "), 0, -3, 24.0),
    ];
    let english = recent_projects_from_entries(&entries, 10, UiLanguage::English);
    assert_eq!(english.len(), 1);
    assert_eq!(english[0].name, "Untitled Project");
    assert_eq!((english[0].width, english[0].height), (1, 1));
    let japanese = recent_projects_from_entries(&entries, 10, UiLanguage::Japanese);
    assert_eq!(japanese[0].name, "無題のプロジェクト");
    assert!(recent_projects_from_entries(&entries, 0, UiLanguage::English).is_empty());
}

#[test]
fn a_saved_project_is_recorded_under_its_file_name() {
    assert_eq!(recent_entry_for_project("  ".to_owned(), 1, 1, 0), None);
    let entry = recent_entry_for_project("/work/demo.aviqtl".to_owned(), 1280, 720, 0)
        .expect("a path");
    assert_eq!(entry.name, "demo.aviqtl");
    assert_eq!(entry.path, "/work/demo.aviqtl");
    let root = recent_entry_for_project("/".to_owned(), 1, 1, 0).expect("a path");
    assert_eq!(root.name, "/");
    assert_eq!(recent_project_limit(0), 1);
    assert_eq!(recent_project_limit(10), 10);
    assert_eq!(recent_project_limit(99), 50);
}

#[test]
fn timeline_layers_show_hidden_locked_and_selected_layers() {
    let rows = timeline_layer_rows(3, 128, true, &[1], &[2], 0);
    assert_eq!(
        rows,
        vec![
            LayerRow { index: 0, visible: true, locked: false, selected: true },
            LayerRow { index: 1, visible: false, locked: false, selected: false },
            LayerRow { index: 2, visible: true, locked: true, selected: false },
        ]
    );
    let without_scene = timeline_layer_rows(0, 128, false, &[0], &[0], 5);
    assert_eq!(
        without_scene,
        vec![LayerRow { index: 0, visible: true, locked: false, selected: false }]
    );
    assert_eq!(timeline_layer_rows(500, 64, false, &[], &[], 0).len(), 64);
}

#[test]
fn grid_modes_and_transport_counter() {
    assert_eq!(grid_mode_index("BPM"), 1);
    assert_eq!(grid_mode_index("Frame"), 2);
    assert_eq!(grid_mode_index("Time"), 0);
    assert_eq!(frame_counter_text(5, 120), "005 / 120");
    assert_eq!(frame_counter_text(-4, -1), "0 / 0");
    assert_eq!(frame_counter_text(12345, 99), "12345 / 99");
}

#[test]
fn context_search_selection_moves_and_stays_in_range() {
    assert_eq!(moved_context_search_selection(-1, 0, 1), -1);
    assert_eq!(moved_context_search_selection(-1, 5, 1), 0);
    assert_eq!(moved_context_search_selection(-1, 5, -1), 4);
    assert_eq!(moved_context_search_selection(3, 5, 4), 4);
    assert_eq!(moved_context_search_selection(1, 5, -3), 0);
}

#[test]
fn clip_styles_mark_audio_and_procedural_objects() {
    assert_eq!(timeline_clip_style("audio"), Some(([0xd0, 0x30, 0x30], false)));
    assert_eq!(timeline_clip_style("star"), Some(([0x3b, 0x82, 0xf6], false)));
    assert_eq!(timeline_clip_style("video"), None);
}

#[test]
fn timeline_runs_with_stored_sizes_kept_to_their_ranges() {
    let mut stored = numbers(0);
    stored.timeline_header_height = 28;
    stored.timeline_track_height = 500;
    stored.timeline_ruler_height = 3;
    stored.timeline_max_layers = 300;
    stored.timeline_layer_header_width = 60;
    stored.timeline_clip_resize_handle_width = 41;
    stored.min_clip_duration_frames = -7;
    assert_eq!(
        timeline_runtime_settings(&stored, false, true, 256),
        TimelineRuntimeSettings {
            header_height: 28,
            track_height: 100,
            ruler_height: 16,
            maximum_layers: 256,
            layer_header_width: 60,
            clip_resize_handle_width: 40,
            minimum_clip_duration_frames: 1,
            skimming_enabled: false,
            hides_skimmer: true,
            sidebar_on_right: true,
        }
    );
    let shown = sync_system_settings(stored, &StoredSystemChoices {
        preview_msaa_samples: 0,
        bake_strategy: String::new(),
        theme: String::new(),
        ui_language: String::new(),
        export_default_codec: String::new(),
        export_default_audio_codec: String::new(),
        audio_plugin_max_block_size: 0,
    }, 256).0;
    let running = timeline_runtime_settings(&shown, true, false, 256);
    assert_eq!(running.track_height, shown.timeline_track_height);
    assert_eq!(running.maximum_layers, shown.timeline_max_layers);
    assert!(!running.hides_skimmer);
}

#[test]
fn timeline_layer_count_is_between_one_and_the_editor_limit() {
    assert_eq!(timeline_maximum_layers(128, 256), 128);
    assert_eq!(timeline_maximum_layers(0, 256), 1);
    assert_eq!(timeline_maximum_layers(-5, 256), 1);
    assert_eq!(timeline_maximum_layers(1_000, 256), 256);
}

#[test]
fn new_projects_start_with_stored_defaults_kept_to_their_ranges() {
    let mut stored = numbers(0);
    stored.default_project_width = 1_920;
    stored.default_project_height = 20_000;
    stored.default_project_sample_rate = 4_000;
    stored.default_project_frames = 3_600;
    assert_eq!(
        project_default_numbers(&stored, true, 0),
        ProjectDefaultNumbers {
            width: 1_920,
            height: 16_000,
            sample_rate: 8_000,
            duration: 3_600,
            enable_snap: true,
            magnetic_snap_range: 1,
        }
    );
    assert_eq!(project_default_numbers(&stored, false, 250).magnetic_snap_range, 100);
}

#[test]
fn stored_theme_is_shown_by_its_position() {
    assert_eq!(system_theme_index("Dark"), 0);
    assert_eq!(system_theme_index("Light"), 1);
    assert_eq!(system_theme_index("System"), 2);
    assert_eq!(system_theme_index("Purple"), 0);
    assert_eq!(system_theme_index(""), 0);
}

fn nothing_saved() -> SavedWorkspaceWindow {
    SavedWorkspaceWindow { geometry: None, visible: None }
}

#[test]
fn workspace_modes_lay_out_all_windows_shown() {
    let screen = WindowGeometry::new(0, 0, 1920, 1080);
    let hidden = SavedWorkspaceWindow { geometry: None, visible: Some(false) };
    let windows = workspace_windows(screen, "standard", &[hidden; 3]);
    assert_eq!(
        windows,
        [
            WorkspaceWindow { geometry: WindowGeometry::new(0, 0, 1044, 699), visible: true },
            WorkspaceWindow { geometry: WindowGeometry::new(0, 735, 1920, 345), visible: true },
            WorkspaceWindow { geometry: WindowGeometry::new(1056, 0, 864, 699), visible: true },
        ]
    );
    let audio = workspace_windows(screen, "audio", &[nothing_saved(); 3]);
    assert_eq!(audio[1].geometry, WindowGeometry::new(0, 594, 1920, 486));
}

#[test]
fn workspace_restore_brings_back_saved_windows_on_screen() {
    let screen = WindowGeometry::new(0, 0, 1920, 1080);
    let saved = [
        SavedWorkspaceWindow {
            geometry: Some(StoredGeometry {
                x: Some(-50),
                y: Some(10),
                width: Some(5_000),
                height: None,
                maximized: Some(true),
            }),
            visible: Some(false),
        },
        nothing_saved(),
        SavedWorkspaceWindow {
            geometry: Some(StoredGeometry {
                x: None,
                y: None,
                width: None,
                height: None,
                maximized: None,
            }),
            visible: Some(true),
        },
    ];
    let windows = workspace_windows(screen, "restore", &saved);
    assert_eq!(
        windows[0],
        WorkspaceWindow {
            geometry: WindowGeometry { x: 0, y: 10, width: 1920, height: 699, maximized: true },
            visible: false,
        }
    );
    assert_eq!(
        windows[1],
        WorkspaceWindow { geometry: WindowGeometry::new(0, 735, 1920, 345), visible: true }
    );
    assert_eq!(
        windows[2],
        WorkspaceWindow { geometry: WindowGeometry::new(1056, 0, 864, 699), visible: true }
    );
}

#[test]
fn preview_runs_with_the_stored_cache_and_multisampling() {
    assert_eq!(preview_runtime_numbers(512, 4), (512, 4));
    assert_eq!(preview_runtime_numbers(10, -2), (64, 0));
    assert_eq!(preview_runtime_numbers(100_000, 0), (8_192, 0));
}
