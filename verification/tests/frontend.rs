use aviqtl::color::{format_qt_color, parse_qt_color};
use aviqtl::easing::parameter_button_label;
use aviqtl::export::{selected_codec, selected_codec_index};
use aviqtl::file_filters::qt_file_filters;
use aviqtl::fonts::filtered_font_families;
use aviqtl::language::{ui_language_from_locale, UiLanguage};
use aviqtl::recent::{merge_recent_project, RecentProject};
use aviqtl::settings::{
    choice_i32, choice_str, plugin_paths_value, SYSTEM_AUDIO_BLOCK_SIZES,
    SYSTEM_EXPORT_AUDIO_CODECS, SYSTEM_EXPORT_VIDEO_CODECS, SYSTEM_PLUGIN_FORMATS,
    SYSTEM_SHORTCUT_ROWS, SYSTEM_THEME_VALUES, SYSTEM_UI_LANGUAGE_VALUES,
};
use aviqtl::shortcuts::{parse_shortcut, shortcut_matches, ShortcutInput};
use aviqtl::translations::{localized_effect_metadata, TranslationCatalog};

fn catalog(pairs: &[(&str, &str)]) -> TranslationCatalog {
    let mut entries: Vec<(String, String)> = pairs
        .iter()
        .map(|(source, translation)| (source.to_string(), translation.to_string()))
        .collect();
    entries.sort();
    TranslationCatalog::from_sorted(entries).expect("sorted catalog")
}

fn english_catalog() -> TranslationCatalog {
    catalog(&[
        ("テキスト", "Text"),
        ("変形/クロップ", "Transform/Crop"),
        ("標準描画", "Standard Drawing"),
        ("拡大率", "Scale"),
        ("X軸回転", "X Rotation"),
        ("中心X", "Center X"),
        ("不透明度", "Opacity"),
        ("合成モード", "Blend Mode"),
        ("通常", "Normal"),
    ])
}

fn chinese_catalog() -> TranslationCatalog {
    catalog(&[
        ("テキスト", "文本"),
        ("変形/クロップ", "变形/裁剪"),
        ("標準描画", "标准绘制"),
        ("拡大率", "缩放率"),
        ("X軸回転", "X 轴旋转"),
        ("中心X", "中心 X"),
        ("不透明度", "不透明度"),
        ("合成モード", "混合模式"),
        ("通常", "正常"),
    ])
}

#[test]
fn ui_locale_selection_uses_english_as_the_fallback() {
    assert_eq!(
        ui_language_from_locale("zh-CN"),
        UiLanguage::SimplifiedChinese
    );
    assert_eq!(
        ui_language_from_locale("zh_Hans_CN.UTF-8"),
        UiLanguage::SimplifiedChinese
    );
    assert_eq!(ui_language_from_locale("ja-JP"), UiLanguage::Japanese);
    assert_eq!(ui_language_from_locale("en-US"), UiLanguage::English);
    assert_eq!(ui_language_from_locale("fr-FR"), UiLanguage::English);
    assert_eq!(ui_language_from_locale(""), UiLanguage::English);
}

#[test]
fn effect_metadata_follows_the_selected_ui_language() {
    let en = english_catalog();
    let zh = chinese_catalog();
    let english = |value: &str| localized_effect_metadata(UiLanguage::English, &en, &zh, value);
    assert_eq!(english("テキスト"), "Text");
    assert_eq!(english("変形/クロップ"), "Transform/Crop");
    assert_eq!(english("標準描画"), "Standard Drawing");
    assert_eq!(english("拡大率"), "Scale");
    assert_eq!(english("X軸回転"), "X Rotation");
    assert_eq!(english("中心X"), "Center X");
    assert_eq!(english("不透明度"), "Opacity");
    assert_eq!(english("合成モード"), "Blend Mode");
    assert_eq!(english("通常"), "Normal");

    let chinese =
        |value: &str| localized_effect_metadata(UiLanguage::SimplifiedChinese, &en, &zh, value);
    assert_eq!(chinese("テキスト"), "文本");
    assert_eq!(chinese("変形/クロップ"), "变形/裁剪");
    assert_eq!(chinese("標準描画"), "标准绘制");
    assert_eq!(chinese("拡大率"), "缩放率");
    assert_eq!(chinese("X軸回転"), "X 轴旋转");
    assert_eq!(chinese("中心X"), "中心 X");
    assert_eq!(chinese("不透明度"), "不透明度");
    assert_eq!(chinese("合成モード"), "混合模式");
    assert_eq!(chinese("通常"), "正常");

    let japanese = |value: &str| localized_effect_metadata(UiLanguage::Japanese, &en, &zh, value);
    assert_eq!(japanese("テキスト"), "テキスト");
    assert_eq!(japanese("変形/クロップ"), "変形/クロップ");
    assert_eq!(japanese("標準描画"), "標準描画");
}

#[test]
fn dual_slider_button_uses_the_localized_property_and_easing_names() {
    let en = english_catalog();
    let zh = chinese_catalog();
    for (language, expected) in [
        (UiLanguage::English, "Scale (Linear)"),
        (UiLanguage::SimplifiedChinese, "缩放率 (线性)"),
        (UiLanguage::Japanese, "拡大率 (直線)"),
    ] {
        let label = localized_effect_metadata(language, &en, &zh, "拡大率");
        assert_eq!(
            parameter_button_label(language, &label, true, "linear"),
            expected
        );
    }
}

#[test]
fn codec_selection_matches_the_qt_fallback_contract() {
    let codecs = vec!["libx264".to_owned(), "libx265".to_owned()];
    assert_eq!(selected_codec_index(&codecs, "libx265"), 1);
    assert_eq!(selected_codec_index(&codecs, "missing"), 0);
    assert_eq!(selected_codec_index(&[], "libx264"), -1);
    assert_eq!(selected_codec(&codecs, 1, "fallback"), "libx265");
    assert_eq!(selected_codec(&codecs, -1, "fallback"), "fallback");
    assert_eq!(selected_codec(&codecs, 9, "fallback"), "fallback");
}

#[test]
fn shortcut_matching_uses_slint_command_and_physical_control_semantics() {
    let command_save = ShortcutInput {
        text: "s".to_owned(),
        alt: false,
        control: true,
        shift: false,
        meta: false,
    };
    let physical_control_save = ShortcutInput {
        control: false,
        meta: true,
        ..command_save.clone()
    };
    for macos in [true, false] {
        assert!(shortcut_matches("Ctrl+S", &command_save, macos));
        assert!(shortcut_matches("Meta+S", &physical_control_save, macos));
        if macos {
            assert!(shortcut_matches("Command+S", &command_save, macos));
            assert!(!shortcut_matches("Control+S", &command_save, macos));
            assert!(shortcut_matches("Control+S", &physical_control_save, macos));
        } else {
            assert!(shortcut_matches("Control+S", &command_save, macos));
            assert!(!shortcut_matches("Command+S", &command_save, macos));
            assert!(shortcut_matches("Command+S", &physical_control_save, macos));
        }
    }
}

#[test]
fn shortcut_parser_preserves_qt_cross_platform_names_and_punctuation() {
    let undo = parse_shortcut("Ctrl+Shift+Z", false).expect("undo shortcut parses");
    assert!(undo.control);
    assert!(undo.shift);
    assert_eq!(undo.text, "z");

    let settings = parse_shortcut("Alt+Enter", false).expect("settings shortcut parses");
    assert!(settings.alt);
    assert_eq!(
        settings.text,
        char::from(slint::platform::Key::Return).to_string()
    );

    let zoom = parse_shortcut("Ctrl++", false).expect("plus shortcut parses");
    assert!(zoom.control);
    assert!(zoom.ignore_shift);
    assert_eq!(zoom.text, "+");
    assert!(parse_shortcut("Ctrl+UnknownKey", false).is_none());
}

#[test]
fn parameter_picker_helpers_preserve_qt_value_contracts() {
    assert_eq!(
        qt_file_filters("Video Files (*.mp4 *.mov);;Images (*.png *.jpg)"),
        vec![
            (
                "Video Files".to_owned(),
                vec!["mp4".to_owned(), "mov".to_owned()]
            ),
            (
                "Images".to_owned(),
                vec!["png".to_owned(), "jpg".to_owned()]
            )
        ]
    );
    assert!(qt_file_filters("").is_empty());
    assert_eq!(parse_qt_color("#abc"), [255, 0xaa, 0xbb, 0xcc]);
    assert_eq!(parse_qt_color("#80ff0000"), [0x80, 0xff, 0, 0]);
    assert_eq!(parse_qt_color("invalid"), [255; 4]);
    assert_eq!(format_qt_color(255, 0, 16, 255), "#ff0010");
    assert_eq!(format_qt_color(300, -1, 16, 128), "#80ff0010");
}

#[test]
fn font_picker_filter_is_case_insensitive_and_stable() {
    let families = vec![
        "Arial".to_owned(),
        "Noto Sans CJK JP".to_owned(),
        "Noto Serif".to_owned(),
    ];
    assert_eq!(
        filtered_font_families(&families, "  NOTO "),
        vec!["Noto Sans CJK JP", "Noto Serif"]
    );
    assert_eq!(filtered_font_families(&families, "").len(), 3);
}

#[test]
fn recent_project_updates_move_duplicates_to_the_front_atomically() {
    let one = RecentProject {
        name: "One".to_owned(),
        path: "one.aviqtl".to_owned(),
        width: 1920,
        height: 1080,
        fps_bits: 60.0f64.to_bits(),
    };
    let two = RecentProject {
        name: "Two".to_owned(),
        path: "two.aviqtl".to_owned(),
        width: 1280,
        height: 720,
        fps_bits: 30.0f64.to_bits(),
    };
    let updated = merge_recent_project(vec![one.clone(), two.clone()], two.clone(), 2);

    assert_eq!(updated, [two, one]);
}

#[test]
fn system_settings_choices_and_plugin_paths_match_the_qt_schema() {
    assert_eq!(choice_str(&SYSTEM_THEME_VALUES, 2, 0), "System");
    assert_eq!(
        choice_str(&SYSTEM_UI_LANGUAGE_VALUES, 2, 0),
        "SimplifiedChinese"
    );
    assert_eq!(choice_str(&SYSTEM_EXPORT_VIDEO_CODECS, 1, 2), "hevc_vaapi");
    assert_eq!(choice_str(&SYSTEM_EXPORT_AUDIO_CODECS, 1, 0), "opus");
    assert_eq!(choice_i32(&SYSTEM_AUDIO_BLOCK_SIZES, 5, 4), 8192);
    assert_eq!(choice_str(&SYSTEM_THEME_VALUES, -1, 0), "Dark");
    assert_eq!(choice_i32(&SYSTEM_AUDIO_BLOCK_SIZES, 99, 4), 4096);
    assert_eq!(
        plugin_paths_value(" /plugins/one \n\n/plugins/two "),
        vec!["/plugins/one", "/plugins/two"]
    );
    assert_eq!(SYSTEM_PLUGIN_FORMATS.len(), 11);
    assert_eq!(SYSTEM_SHORTCUT_ROWS.len(), 34);
}
