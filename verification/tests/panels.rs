use aviqtl::catalog::{
    timeline_context_catalog_categories, timeline_context_catalog_items, CatalogEffect,
    CatalogItem, CatalogPlugin,
};
use aviqtl::color::{format_qt_color, parse_qt_color};
use aviqtl::easing::{
    easing_catalog_rows, easing_category_at, easing_label, easing_name_at, easing_option_plan,
    EasingParameters,
};
use aviqtl::export::{
    audio_bitrate_enabled, audio_bitrate_index, default_audio_codec, export_choices,
    export_frame_gate, export_progress_label, ExportFrameError, export_runtime_values, filtered_codec_catalog, ExportRuntimeValues,
    AUDIO_CODECS, VIDEO_CODECS,
};
use aviqtl::keyframes::{keyframe_markers, KeyframeMarker};
use aviqtl::language::{configured_ui_language, UiLanguage};
use aviqtl::launch_args::parse_validation_frames;
use aviqtl::layout::WindowGeometry;
use aviqtl::object_rows::{
    audio_plugin_label, catalog_key, catalog_picker_entries, control_row_flags,
    remember_catalog_item, reorder_target, ControlKind, ControlRowFlags,
};
use aviqtl::permissions::plugin_permission_metadata;
use aviqtl::settings::{merge_shortcut_settings, parse_i32_unbounded, parse_required_i32};
use aviqtl::shortcuts::{
    configured_shortcut_action, native_shortcut_parts, record_shortcut, shortcut_binding,
    shortcut_matches, validate_shortcuts, ShortcutAction, ShortcutInput,
};
use aviqtl::translations::TranslationCatalog;

#[test]
fn window_geometry_uses_qt_keys_and_clamps_invalid_sizes() {
    let fallback = WindowGeometry::new(100, 200, 640, 480);
    assert_eq!(
        WindowGeometry::from_stored(Some(-120), Some(45), Some(1280), Some(720), Some(true), fallback),
        WindowGeometry {
            x: -120,
            y: 45,
            width: 1280,
            height: 720,
            maximized: true,
        }
    );
    assert_eq!(
        WindowGeometry::from_stored(None, None, Some(0), Some(-5), None, fallback),
        WindowGeometry {
            width: 1,
            height: 1,
            ..fallback
        }
    );
    assert_eq!(
        WindowGeometry::from_stored(None, None, None, None, None, fallback),
        fallback
    );
}

fn catalog(pairs: &[(&str, &str)]) -> TranslationCatalog {
    let mut entries: Vec<(String, String)> = pairs
        .iter()
        .map(|(source, translation)| (source.to_string(), translation.to_string()))
        .collect();
    entries.sort();
    TranslationCatalog::from_sorted(entries).expect("sorted catalog")
}

fn effect(id: &str, name: &str, categories: &[&str]) -> CatalogEffect {
    CatalogEffect {
        id: id.to_owned(),
        name: name.to_owned(),
        categories: categories.iter().map(|c| c.to_string()).collect(),
    }
}

#[test]
fn searchable_context_catalog_preserves_qt_category_paths() {
    let en = catalog(&[("変形/クロップ", "Transform/Crop"), ("クリッピング", "Clipping")]);
    let zh = catalog(&[("変形/クロップ", "变形/裁剪")]);
    let effects = [
        effect("clipping", "クリッピング", &["変形/クロップ"]),
        effect("blur", "ぼかし", &["フィルタ"]),
    ];
    let items = timeline_context_catalog_items(
        UiLanguage::English,
        &en,
        &zh,
        &effects,
        &[],
        "clipping",
        1,
    );
    let clipping = items
        .iter()
        .find(|item| item.id.as_str() == "clipping")
        .expect("clipping effect remains searchable by technical id");
    assert!(clipping.categories.as_str().contains("Transform/Crop"));
    assert_eq!(items.len(), 1);
}

#[test]
fn context_catalog_groups_effects_and_plugins_by_category() {
    let en = catalog(&[("変形/クロップ", "Transform/Crop"), ("フィルタ", "Filter")]);
    let zh = catalog(&[]);
    let effects = [
        effect("clipping", "クリッピング", &["変形/クロップ"]),
        effect("blur", "ぼかし", &["フィルタ"]),
        effect("resize", "リサイズ", &["変形/クロップ", "フィルタ"]),
        effect("plain", "素", &[]),
    ];
    let groups =
        timeline_context_catalog_categories(UiLanguage::English, &en, &zh, &effects, &[], 1);
    let names: Vec<&str> = groups.iter().map(|g| g.name.as_str()).collect();
    assert_eq!(names, vec!["Transform/Crop", "Filter", ""]);
    let ids: Vec<&str> = groups[0].items.iter().map(|i| i.id.as_str()).collect();
    assert_eq!(ids, vec!["clipping", "resize"]);
    let plugins = [
        CatalogPlugin { id: "a".to_owned(), name: "A".to_owned(), category: "LV2".to_owned() },
        CatalogPlugin { id: "b".to_owned(), name: "B".to_owned(), category: "VST3".to_owned() },
        CatalogPlugin { id: "c".to_owned(), name: "C".to_owned(), category: "LV2".to_owned() },
    ];
    let groups =
        timeline_context_catalog_categories(UiLanguage::English, &en, &zh, &[], &plugins, 2);
    assert_eq!(groups.len(), 2);
    assert_eq!(groups[0].name, "LV2");
    assert_eq!(groups[0].items.len(), 2);
    assert_eq!(groups[1].items[0].id, "b");
    assert!(timeline_context_catalog_categories(UiLanguage::English, &en, &zh, &effects, &plugins, 0)
        .is_empty());
    let plugin_items =
        timeline_context_catalog_items(UiLanguage::English, &en, &zh, &[], &plugins, "ignored", 2);
    assert_eq!(plugin_items.len(), 3);
}

fn easing_names() -> Vec<&'static str> {
    let mut names = Vec::new();
    for index in 0..5 {
        names.extend(easing_category_at(index).1);
    }
    names
}

#[test]
fn easing_catalog_matches_the_qt_categories_and_filtering() {
    let names = easing_names();
    let rows = easing_catalog_rows(UiLanguage::English, &names, "");
    assert_eq!(
        rows.iter()
            .filter(|row| row.header)
            .map(|row| row.label.as_str())
            .collect::<Vec<_>>(),
        vec![
            "Basic",
            "Standard curves",
            "Strong curves",
            "Bounce and elasticity",
            "Special"
        ]
    );
    let mut actual_names = rows
        .iter()
        .filter(|row| !row.header)
        .map(|row| row.name.as_str().to_owned())
        .collect::<Vec<_>>();
    let mut expected_names = names.iter().map(|n| n.to_string()).collect::<Vec<_>>();
    actual_names.sort();
    expected_names.sort();
    assert_eq!(actual_names, expected_names);
    assert!(rows
        .iter()
        .filter(|row| !row.header)
        .all(|row| easing_name_at(&names, row.easing_index) == row.name.as_str()));

    let bounce = easing_catalog_rows(UiLanguage::English, &names, "Bo_Un_Ce");
    assert_eq!(bounce.len(), 5);
    assert!(bounce[0].header);
    assert_eq!(bounce[0].label.as_str(), "Bounce and elasticity");
    assert!(bounce[1..].iter().all(|row| row.name.as_str().contains("bounce")));
    assert!(easing_catalog_rows(UiLanguage::English, &names, "跳ね返り").is_empty());
    assert_eq!(easing_name_at(&names, -1), "none");
    assert_eq!(easing_name_at(&names, 999), "none");
}

#[test]
fn parameter_rows_follow_keyframes_and_interpolation() {
    let flags = control_row_flags(
        ControlKind::Number,
        true,
        false,
        false,
        false,
        true,
        &[0, 20],
        0,
        20,
        10,
        "linear",
    );
    assert_eq!(
        flags,
        ControlRowFlags {
            supports_track: true,
            interactive: false,
            range_mode: true,
            right_interactive: true,
            start_frame: 0,
        }
    );
    let held = control_row_flags(ControlKind::Number, true, false, true, false, true, &[0, 20], 0, 20, 10, "constant");
    assert!(held.range_mode && !held.right_interactive && held.interactive);
    let choice = control_row_flags(ControlKind::Other, true, false, true, false, true, &[], 0, 100, 10, "linear");
    assert!(!choice.supports_track && !choice.range_mode && choice.interactive);
    let audio = control_row_flags(ControlKind::Number, true, true, false, false, true, &[0, 50, 100], 20, 80, 50, "linear");
    assert_eq!(
        audio,
        ControlRowFlags {
            supports_track: true,
            interactive: true,
            range_mode: false,
            right_interactive: false,
            start_frame: 50,
        }
    );
    let no_param = control_row_flags(ControlKind::Color, false, false, true, false, true, &[], 0, 0, 0, "");
    assert!(!no_param.supports_track && !no_param.interactive);
    assert_eq!(audio_plugin_label("Gain", "CLAP"), "Gain (CLAP)");
    assert_eq!(audio_plugin_label("Gain", ""), "Gain");
}

#[test]
fn keyframe_markers_protect_the_first_frame_and_the_clip_end() {
    let markers = keyframe_markers(&[20, 0], 100, false);
    assert_eq!(
        markers,
        vec![
            KeyframeMarker {
                frame: 0,
                minimum_frame: 0,
                maximum_frame: 19,
                virtual_end: false,
                removable: false,
                draggable: false,
            },
            KeyframeMarker {
                frame: 20,
                minimum_frame: 1,
                maximum_frame: 99,
                virtual_end: false,
                removable: true,
                draggable: true,
            },
            KeyframeMarker {
                frame: 100,
                minimum_frame: 21,
                maximum_frame: 100,
                virtual_end: true,
                removable: false,
                draggable: false,
            },
        ]
    );
    let audio = keyframe_markers(&[0, 50, 100, 50], 100, true);
    assert_eq!(audio.len(), 3);
    assert!(!audio[0].removable);
    assert!(audio[1].removable && !audio[1].draggable);
    assert!(!audio[2].removable && !audio[2].virtual_end);
}

#[test]
fn dragged_effects_land_within_the_list() {
    assert_eq!(reorder_target(2, 5, 4), Some(3));
    assert_eq!(reorder_target(2, -9, 4), Some(0));
    assert_eq!(reorder_target(1, 1, 4), Some(2));
    assert_eq!(reorder_target(1, 0, 4), Some(1));
    assert_eq!(reorder_target(0, 0, 0), None);
    assert_eq!(reorder_target(4, 0, 4), None);
}

#[test]
fn favourite_and_recent_catalog_entries() {
    assert_eq!(catalog_key(true, "gain"), "audio:gain");
    assert_eq!(catalog_key(false, "blur"), "effect:blur");
    let favourites = vec!["effect:a".to_owned(), "effect:b".to_owned()];
    assert_eq!(
        remember_catalog_item(favourites.clone(), "effect:c".to_owned(), true),
        vec!["effect:c", "effect:a", "effect:b"]
    );
    assert_eq!(
        remember_catalog_item(favourites, "effect:a".to_owned(), true),
        vec!["effect:b"]
    );
    let recent: Vec<String> = (0..24).map(|i| format!("effect:{i}")).collect();
    let updated = remember_catalog_item(recent, "effect:5".to_owned(), false);
    assert_eq!(updated.len(), 24);
    assert_eq!(updated[0], "effect:5");
    assert_eq!(updated.iter().filter(|i| i.as_str() == "effect:5").count(), 1);
    let full: Vec<String> = (0..24).map(|i| format!("effect:{i}")).collect();
    let pushed = remember_catalog_item(full, "effect:new".to_owned(), false);
    assert_eq!(pushed.len(), 24);
    assert_eq!(pushed[0], "effect:new");
    assert_eq!(pushed[23], "effect:22");
}

fn item(header: bool, id: &str, name: &str, categories: &str) -> CatalogItem {
    CatalogItem {
        header,
        id: id.to_owned(),
        name: name.to_owned(),
        categories: categories.to_owned(),
    }
}

#[test]
fn effect_picker_lists_favourites_and_recent_entries() {
    let items = [
        item(true, "", "Filters", ""),
        item(false, "blur", "Blur", "Filter"),
        item(false, "glow", "Glow", "Light"),
        item(false, "fade", "Fade", "Basic"),
    ];
    let favourites = vec!["effect:glow".to_owned()];
    let recent = vec!["effect:fade".to_owned(), "effect:blur".to_owned()];
    let (all, rows) = catalog_picker_entries(&items, 0, false, &favourites, &recent);
    assert_eq!(
        all.iter().map(|i| i.id.as_str()).collect::<Vec<_>>(),
        vec!["blur", "glow", "fade"]
    );
    assert_eq!(rows, vec!["Blur  Filter", "★ Glow  Light", "Fade  Basic"]);
    let (favs, _) = catalog_picker_entries(&items, 1, false, &favourites, &recent);
    assert_eq!(favs.iter().map(|i| i.id.as_str()).collect::<Vec<_>>(), vec!["glow"]);
    let (latest, rows) = catalog_picker_entries(&items, 2, false, &favourites, &recent);
    assert_eq!(
        latest.iter().map(|i| i.id.as_str()).collect::<Vec<_>>(),
        vec!["fade", "blur"]
    );
    assert_eq!(rows, vec!["Fade  Basic", "Blur  Filter"]);
    let (audio, _) = catalog_picker_entries(&items, 2, true, &favourites, &recent);
    assert!(audio.is_empty());
}

#[test]
fn export_choices_fall_back_to_defaults() {
    let choices = export_choices(1, 1, 4, 3, 4);
    assert!(choices.image_sequence && choices.jpeg);
    assert_eq!(choices.preset, "veryslow");
    assert_eq!(choices.profile, "high");
    assert_eq!(choices.audio_bitrate_kbps, 320);
    let fallback = export_choices(0, 0, 9, 9, 9);
    assert!(!fallback.image_sequence && !fallback.jpeg);
    assert_eq!(fallback.preset, "medium");
    assert_eq!(fallback.profile, "");
    assert_eq!(fallback.audio_bitrate_kbps, 192);
    let negative = export_choices(2, 2, -3, -1, -7);
    assert_eq!(negative.preset, "ultrafast");
    assert_eq!(negative.profile, "");
    assert_eq!(negative.audio_bitrate_kbps, 96);
    assert_eq!(default_audio_codec("opus"), "libopus");
    assert_eq!(default_audio_codec("flac"), "flac");
    assert!(!audio_bitrate_enabled("flac"));
    assert!(!audio_bitrate_enabled("pcm_s16le"));
    assert!(audio_bitrate_enabled("libopus"));
    assert_eq!(audio_bitrate_index(256), 3);
    assert_eq!(audio_bitrate_index(200), 2);
    assert_eq!(
        export_runtime_values(0, 6, -2, 10_000),
        ExportRuntimeValues {
            image_quality: 1,
            sequence_padding: 6,
            progress_interval: 1,
            max_plugin_block_size: 8_192,
        }
    );
    assert_eq!(export_runtime_values(95, 4, 5, 1_024).image_quality, 95);
}

#[test]
fn codec_catalogs_keep_the_available_encoders() {
    let available = vec!["libx265".to_owned(), "libx264".to_owned()];
    let (labels, values) = filtered_codec_catalog(&available, &VIDEO_CODECS);
    assert_eq!(values, vec!["libx264", "libx265"]);
    assert_eq!(labels, vec!["H.264 – libx264 (SW)", "HEVC – libx265 (SW)"]);
    let (labels, values) = filtered_codec_catalog(&[], &AUDIO_CODECS);
    assert_eq!(values.len(), 5);
    assert_eq!(labels[1], "Opus");
}

#[test]
fn export_progress_labels_count_frames_and_time() {
    assert_eq!(
        export_progress_label(UiLanguage::English, 10, 100, 75),
        "10 / 100 frames (1m 15s remaining)"
    );
    assert_eq!(
        export_progress_label(UiLanguage::English, 1, 2, 7_384),
        "1 / 2 frames (2h 3m remaining)"
    );
    assert_eq!(export_progress_label(UiLanguage::Japanese, 0, 0, -1), "0 / 0 フレーム");
    assert_eq!(
        export_progress_label(UiLanguage::SimplifiedChinese, 3, 9, 42),
        "3 / 9 帧（剩余 42 秒）"
    );
}

#[test]
fn shortcut_sets_are_checked_for_conflicts() {
    let ok = vec!["Ctrl+S".to_owned(), "".to_owned(), "Ctrl+Shift+S".to_owned()];
    assert_eq!(validate_shortcuts(&ok, UiLanguage::English, false), Ok(()));
    let conflict = vec!["Ctrl+S".to_owned(), "ctrl + s".to_owned()];
    assert_eq!(
        validate_shortcuts(&conflict, UiLanguage::English, false),
        Err("A shortcut is assigned to more than one command.")
    );
    let invalid = vec!["Hyper+S".to_owned()];
    assert_eq!(
        validate_shortcuts(&invalid, UiLanguage::English, false),
        Err("Invalid shortcut. Record a key combination or clear the binding.")
    );
    let plus = vec!["Ctrl++".to_owned(), "Ctrl+Shift++".to_owned()];
    assert!(validate_shortcuts(&plus, UiLanguage::Japanese, false).is_err());
}

fn input(text: &str, alt: bool, control: bool, shift: bool, meta: bool) -> ShortcutInput {
    ShortcutInput {
        text: text.to_owned(),
        alt,
        control,
        shift,
        meta,
    }
}

#[test]
fn recorded_shortcuts_name_keys_and_modifiers() {
    assert_eq!(
        record_shortcut(input("s", false, true, true, false), false),
        Some("Ctrl+Shift+S".to_owned())
    );
    assert_eq!(
        record_shortcut(input("+", false, true, true, false), false),
        Some("Ctrl++".to_owned())
    );
    assert_eq!(record_shortcut(input("", false, true, false, false), false), None);
    assert_eq!(record_shortcut(input("ab", false, false, false, false), false), None);
    assert_eq!(
        record_shortcut(input(" ", false, false, false, false), false),
        Some("Space".to_owned())
    );
    assert_eq!(
        native_shortcut_parts("Ctrl+Alt+Shift+K", false),
        Some(vec![
            "Control".to_owned(),
            "Alt".to_owned(),
            "Shift".to_owned(),
            "k".to_owned()
        ])
    );
    assert_eq!(native_shortcut_parts("nonsense+k", false), None);
}

#[test]
fn configured_shortcuts_select_their_commands() {
    let mut configured: Vec<String> = (0..34)
        .map(|i| shortcut_binding(i).fallback.to_owned())
        .collect();
    assert_eq!(
        configured_shortcut_action(&configured, &input("s", false, true, false, false), false, false),
        Some(ShortcutAction::SaveProject)
    );
    assert_eq!(
        configured_shortcut_action(&configured, &input("z", false, false, false, false), false, false),
        None
    );
    let split = (0..34)
        .find(|i| shortcut_binding(*i).action == ShortcutAction::Split)
        .expect("split binding");
    assert!(shortcut_binding(split).editor_only);
    assert_eq!(
        configured_shortcut_action(&configured, &input("s", false, false, false, false), false, false),
        None
    );
    assert_eq!(
        configured_shortcut_action(&configured, &input("s", false, false, false, false), true, false),
        Some(ShortcutAction::Split)
    );
    configured[split] = String::new();
    assert_eq!(
        configured_shortcut_action(&configured, &input("s", false, false, false, false), true, false),
        None
    );
}

#[test]
fn qt_colors_round_trip_through_their_text() {
    for (r, g, b, a) in [(0, 0, 0, 0), (255, 128, 1, 255), (16, 32, 48, 64)] {
        let text = format_qt_color(r, g, b, a);
        assert_eq!(parse_qt_color(&text), [a as u8, r as u8, g as u8, b as u8]);
    }
    assert_eq!(format_qt_color(300, -4, 15, 255), "#ff000f");
}

#[test]
fn integer_fields_and_launch_arguments() {
    assert_eq!(parse_required_i32(UiLanguage::English, " 42 ", "Width", 1, 100), Ok(42));
    assert_eq!(
        parse_required_i32(UiLanguage::English, "4.2", "Width", 1, 100),
        Err("Enter an integer for Width.".to_owned())
    );
    assert_eq!(
        parse_required_i32(UiLanguage::English, "0", "Width", 1, 100),
        Err("Enter Width in the range 1 to 100.".to_owned())
    );
    assert_eq!(
        parse_required_i32(UiLanguage::Japanese, "x", "幅", 1, 100),
        Err("幅には整数を入力してください".to_owned())
    );
    assert_eq!(parse_i32_unbounded(" -7 ", 3), -7);
    assert_eq!(parse_i32_unbounded("seven", 3), 3);
    let args = |v: &[&str]| v.iter().map(|s| s.to_string()).collect::<Vec<_>>();
    assert_eq!(parse_validation_frames(&args(&[])), Ok(None));
    assert_eq!(parse_validation_frames(&args(&["--validate-gpu"])), Ok(Some(120)));
    assert_eq!(parse_validation_frames(&args(&["--frames", "0"])), Ok(Some(1)));
    assert_eq!(
        parse_validation_frames(&args(&["--frames"])),
        Err("--frames requires a value".to_owned())
    );
    assert_eq!(
        parse_validation_frames(&args(&["--frames", "x"])),
        Err("invalid --frames value".to_owned())
    );
}

#[test]
fn plugin_permissions_and_configured_language() {
    assert_eq!(
        plugin_permission_metadata(UiLanguage::English, "transport.control"),
        ("Playback control", "Play, pause, and seek")
    );
    assert_eq!(plugin_permission_metadata(UiLanguage::English, "unknown"), ("", ""));
    assert_eq!(configured_ui_language("Japanese"), Some(UiLanguage::Japanese));
    assert_eq!(configured_ui_language("English"), Some(UiLanguage::English));
    assert_eq!(configured_ui_language("System"), None);
    assert_eq!(configured_ui_language("klingon"), None);
}

#[test]
fn translation_catalogs_must_be_sorted() {
    let unsorted = vec![
        ("b".to_owned(), "B".to_owned()),
        ("a".to_owned(), "A".to_owned()),
    ];
    assert!(TranslationCatalog::from_sorted(unsorted).is_none());
    let sorted = catalog(&[("a", "A"), ("b", "B")]);
    assert_eq!(sorted.translation("b"), Some("B".to_owned()));
    assert_eq!(sorted.translation("c"), None);
}

#[test]
fn recorded_shortcuts_fire_for_the_recorded_event() {
    for event in [
        input("s", false, true, true, false),
        input("+", false, true, true, false),
        input("+", true, false, false, false),
        input(" ", false, false, false, true),
        input("\u{F702}", true, true, false, false),
        input("é", false, false, true, false),
        input("1", false, true, false, false),
        input("\t", false, false, true, false),
        input("\u{7f}", false, true, false, false),
        input("\u{F70F}", true, false, true, true),
        input("\u{8}", false, false, false, false),
    ] {
        let recorded = record_shortcut(event.clone(), false).expect("a recordable event");
        assert!(shortcut_matches(&recorded, &event, false), "{recorded}");
        assert!(shortcut_matches(&recorded, &event, true), "{recorded}");
    }
    assert_eq!(
        record_shortcut(input("\u{F702}", true, true, false, false), false),
        Some("Ctrl+Alt+Left".to_owned())
    );
}

#[test]
fn easing_options_match_the_qt_parameter_contracts() {
    let en = UiLanguage::English;
    assert_eq!(easing_label(en, "ease_in_out_elastic"), "Elastic Ease in/out");
    assert_eq!(easing_label(en, "ease_out_sine"), "Sine Ease out");
    assert_eq!(easing_label(en, "ease_in_quad"), "Quadratic Ease in");
    assert_eq!(easing_label(en, "ease_out_in_circ"), "Circular Ease out/in");
    assert_eq!(easing_label(en, "ease_in_bounce"), "Bounce Ease in");
    let names = easing_names();
    assert_eq!(easing_name_at(&names, 0), "none");
    assert_eq!(easing_name_at(&names, -1), "none");

    let (random, random_parameters) = easing_option_plan("random", &names, 0);
    assert_eq!(random, "random");
    assert_eq!(random_parameters, EasingParameters::StepFrames(1));

    let (elastic, elastic_parameters) = easing_option_plan("ease_out_elastic", &names, 1);
    assert_eq!(elastic, "ease_out_elastic");
    assert_eq!(elastic_parameters, EasingParameters::Elastic);

    let (custom, custom_parameters) = easing_option_plan("custom", &names, 1);
    assert_eq!(custom, "custom");
    assert_eq!(custom_parameters, EasingParameters::Points);

    assert_eq!(easing_option_plan("unknown", &names, 1).0, "none");
}

#[test]
fn easing_option_plans_follow_the_interpolation() {
    let names = easing_names();
    assert_eq!(
        easing_option_plan("alternate", &names, 7),
        ("alternate".to_owned(), EasingParameters::StepFrames(7))
    );
    assert_eq!(
        easing_option_plan("random", &names, -3),
        ("random".to_owned(), EasingParameters::StepFrames(1))
    );
    assert_eq!(
        easing_option_plan("ease_in_out_elastic", &names, 1),
        ("ease_in_out_elastic".to_owned(), EasingParameters::Elastic)
    );
    assert_eq!(
        easing_option_plan("linear", &names, 1),
        ("linear".to_owned(), EasingParameters::Plain)
    );
    assert_eq!(
        easing_option_plan("elastic_custom", &names, 1),
        ("none".to_owned(), EasingParameters::Plain)
    );
    assert_eq!(
        easing_option_plan("custom", &[], 1),
        ("none".to_owned(), EasingParameters::Plain)
    );
}

#[test]
fn export_frame_gate_rejects_a_project_tab_change() {
    let export_project = 1;
    let second_project = 2;
    let error = match export_frame_gate(Some(second_project), export_project, true) {
        Ok(()) => panic!("another project must not render the active export frame"),
        Err(error) => error,
    };
    assert_eq!(
        error.message(),
        "Frame render error: project tab changed during export"
    );
    assert!(export_frame_gate(Some(export_project), export_project, true).is_ok());
}

#[test]
fn export_frame_gate_needs_the_open_export_project() {
    assert_eq!(
        export_frame_gate(None, 4, true),
        Err(ExportFrameError::ProjectTabChanged)
    );
    assert_eq!(
        export_frame_gate(Some(4), 4, false),
        Err(ExportFrameError::ProjectUnavailable)
    );
    assert_eq!(
        ExportFrameError::ProjectUnavailable.message(),
        "Frame render error: export project is no longer available"
    );
}

fn pair(key: &str, value: &str) -> (String, String) {
    (key.to_owned(), value.to_owned())
}

#[test]
fn saved_shortcut_rows_replace_only_their_own_actions() {
    let stored = vec![pair("file.save", "Ctrl+S"), pair("custom.tool", "Alt+T"), pair("edit.undo", "Ctrl+Z")];
    let rows = vec![pair("edit.undo", "Ctrl+Y"), pair("view.timeline", "F3"), pair("view.timeline", "F5")];
    let mut merged = merge_shortcut_settings(&stored, &rows);
    merged.sort();
    assert_eq!(
        merged,
        vec![
            pair("custom.tool", "Alt+T"),
            pair("edit.undo", "Ctrl+Y"),
            pair("file.save", "Ctrl+S"),
            pair("view.timeline", "F5"),
        ]
    );
    assert!(merge_shortcut_settings(&[], &[]).is_empty());
    assert_eq!(merge_shortcut_settings(&stored, &[]).len(), 3);
}
