use aviqtl::blend::BlendMode;
use aviqtl::fonts::{
    face_match_score, ignorable_for_font_matching, requested_family, FontStyle, RequestedFamily,
};
use aviqtl::raster::{
    straight_alpha_rgba, ProceduralRasterError, ShapeRasterError, TextRasterError,
};

#[test]
fn persisted_blend_names_map_to_supported_gpu_modes() {
    let cases = [
        ("通常", BlendMode::Normal),
        ("スクリーン", BlendMode::Screen),
        ("乗算", BlendMode::Multiply),
        ("オーバーレイ", BlendMode::Overlay),
        ("加算", BlendMode::Add),
        ("減算", BlendMode::Subtract),
        ("比較（明）", BlendMode::Lighten),
        ("比較（暗）", BlendMode::Darken),
        ("色反転", BlendMode::Invert),
        ("ソフトライト", BlendMode::SoftLight),
        ("ハードライト", BlendMode::HardLight),
        ("差の絶対値", BlendMode::Difference),
        ("色相", BlendMode::Hue),
        ("彩度", BlendMode::Saturation),
        ("カラー", BlendMode::Color),
        ("輝度", BlendMode::Luminosity),
    ];
    for (id, (name, expected)) in cases.into_iter().enumerate() {
        assert_eq!(BlendMode::from_aviqtl_name(name), expected);
        assert_eq!(expected.shader_id(), id as u32);
    }
    assert_eq!(BlendMode::from_aviqtl_name("unknown"), BlendMode::Normal);
}

#[test]
fn english_blend_aliases_select_the_same_modes() {
    assert_eq!(BlendMode::from_aviqtl_name("screen"), BlendMode::Screen);
    assert_eq!(BlendMode::from_aviqtl_name("比較明"), BlendMode::Lighten);
    assert_eq!(BlendMode::from_aviqtl_name("soft light"), BlendMode::SoftLight);
    assert_eq!(BlendMode::from_aviqtl_name("soft_light"), BlendMode::SoftLight);
    assert_eq!(BlendMode::from_aviqtl_name("hardlight"), BlendMode::HardLight);
    assert_eq!(BlendMode::from_aviqtl_name("Screen"), BlendMode::Normal);
    assert_eq!(BlendMode::default(), BlendMode::Normal);
}

#[test]
fn straight_alpha_unpremultiplies_each_whole_pixel() {
    let pixels = [
        0, 0, 0, 0, // transparent
        10, 20, 30, 0, // transparent with stray colour
        64, 32, 0, 128, // half transparent
        200, 100, 50, 255, // opaque
        255, 255, 255, 100, // premultiplied value above alpha saturates
        7, 8, // incomplete trailing pixel
    ];
    let straight = straight_alpha_rgba(&pixels);
    assert_eq!(
        straight,
        vec![
            0, 0, 0, 0, 0, 0, 0, 0, 128, 64, 0, 128, 200, 100, 50, 255, 255, 255, 255, 100, 7, 8,
        ]
    );
    assert!(straight_alpha_rgba(&[]).is_empty());
}

#[test]
fn raster_errors_describe_the_failure() {
    assert_eq!(
        ProceduralRasterError::InvalidDimensions.message(),
        "procedural object dimensions are invalid or exceed 8192 pixels"
    );
    assert_eq!(
        ShapeRasterError::AllocationFailed.message(),
        "shape pixel buffer could not be allocated"
    );
    assert_eq!(
        TextRasterError::FontNotFound.message(),
        "no usable system font was found"
    );
    assert_eq!(
        TextRasterError::InvalidPath.message(),
        "text glyph outlines could not be constructed"
    );
}

#[test]
fn font_matching_ignores_spacing_joiners_and_selectors() {
    assert!(ignorable_for_font_matching(' '));
    assert!(ignorable_for_font_matching('\u{3000}'));
    assert!(ignorable_for_font_matching('\n'));
    assert!(ignorable_for_font_matching('\u{200d}'));
    assert!(ignorable_for_font_matching('\u{fe0f}'));
    assert!(ignorable_for_font_matching('\u{e0100}'));
    assert!(!ignorable_for_font_matching('a'));
    assert!(!ignorable_for_font_matching('テ'));
}

#[test]
fn generic_families_are_recognised_without_ascii_case() {
    assert_eq!(requested_family("Serif"), RequestedFamily::Serif);
    assert_eq!(requested_family(""), RequestedFamily::SansSerif);
    assert_eq!(requested_family("SANS-SERIF"), RequestedFamily::SansSerif);
    assert_eq!(requested_family("monospace"), RequestedFamily::Monospace);
    assert_eq!(requested_family("Cursive"), RequestedFamily::Cursive);
    assert_eq!(requested_family("fantasy"), RequestedFamily::Fantasy);
    assert_eq!(
        requested_family("Noto Sans"),
        RequestedFamily::Name("Noto Sans".to_owned())
    );
}

#[test]
fn face_scores_prefer_the_style_then_the_nearest_weight() {
    assert_eq!(
        face_match_score(FontStyle::Normal, 700, FontStyle::Normal, 400),
        (0, 300)
    );
    assert_eq!(
        face_match_score(FontStyle::Italic, 300, FontStyle::Normal, 400),
        (1, 100)
    );
    assert_eq!(
        face_match_score(FontStyle::Oblique, 400, FontStyle::Oblique, 400),
        (0, 0)
    );
}
