use aviqtl::effect_passes::{
    any_sequential, effect_pass_plan, matches_effects, EffectKind, EffectPassPlan,
};
use aviqtl::fonts::{
    font_family_names, has_visible_text, select_face, text_lines, FaceCandidate, FaceChoice,
    FontStyle, FALLBACK_FAMILIES,
};
use aviqtl::layer_cache::{
    layer_update, FrameStamp, LayerCache, LayerRequest, LayerUpdate, MaskStamp,
};

#[test]
fn neighborhood_effects_request_ordered_render_passes() {
    let color_only = EffectKind::Fade;
    let sharpen = EffectKind::Sharpen;
    let edge = EffectKind::EdgeDetection;
    assert!(!color_only.requires_sequential_passes());
    assert!(sharpen.requires_sequential_passes());
    assert!(edge.requires_sequential_passes());
}

#[test]
fn compute_style_effects_encode_each_qt_dispatch_pass() {
    let blur = EffectKind::Blur;
    let border_blur = EffectKind::BorderBlur;
    assert_eq!(blur.pass_count(), 2);
    assert_eq!(border_blur.pass_count(), 3);
}

#[test]
fn coordinate_and_stylize_effects_run_as_passes() {
    for kind in [
        EffectKind::ChromaticAberration,
        EffectKind::ImageLoop,
        EffectKind::Ripple,
        EffectKind::DisplacementMap,
        EffectKind::Glitch,
        EffectKind::PixelSorter,
    ] {
        assert!(kind.requires_sequential_passes());
        assert_eq!(kind.pass_count(), 1);
    }
    assert_eq!(EffectKind::Glow.pass_count(), 2);
    assert_eq!(EffectKind::DropShadow.pass_count(), 2);
    assert!(!any_sequential(&[EffectKind::Fade, EffectKind::ChromaKey]));
    assert!(any_sequential(&[EffectKind::Fade, EffectKind::Mosaic]));
    assert!(!any_sequential(&[]));
}

#[test]
fn effect_passes_preserve_each_multi_pass_effect_original() {
    let effects = [EffectKind::Fade, EffectKind::Blur, EffectKind::BorderBlur];
    assert_eq!(
        effect_pass_plan(&effects),
        vec![
            EffectPassPlan {
                effect_index: 0,
                pass_index: 0,
                source: None,
                original: None,
                destination: 0,
            },
            EffectPassPlan {
                effect_index: 1,
                pass_index: 0,
                source: Some(0),
                original: Some(0),
                destination: 1,
            },
            EffectPassPlan {
                effect_index: 1,
                pass_index: 1,
                source: Some(1),
                original: Some(0),
                destination: 2,
            },
            EffectPassPlan {
                effect_index: 2,
                pass_index: 0,
                source: Some(2),
                original: Some(2),
                destination: 0,
            },
            EffectPassPlan {
                effect_index: 2,
                pass_index: 1,
                source: Some(0),
                original: Some(2),
                destination: 1,
            },
            EffectPassPlan {
                effect_index: 2,
                pass_index: 2,
                source: Some(1),
                original: Some(2),
                destination: 0,
            },
        ]
    );
    assert!(effect_pass_plan(&[]).is_empty());
}

#[test]
fn prepared_passes_fit_only_the_same_pass_counts() {
    let effects = [EffectKind::Blur, EffectKind::Sharpen];
    assert!(matches_effects(&[2, 1], &effects));
    assert!(!matches_effects(&[2, 2], &effects));
    assert!(!matches_effects(&[2], &effects));
    assert!(matches_effects(&[], &[]));
}

fn stamp(width: u32, height: u32, seconds: f64) -> FrameStamp {
    FrameStamp {
        width,
        height,
        timestamp_bits: seconds.to_bits(),
    }
}

#[test]
fn frame_stamp_changes_only_for_a_new_decoded_frame_or_size() {
    let first = stamp(100, 50, 0.0);
    let same_frame = stamp(100, 50, 0.0);
    let next_frame = stamp(100, 50, 1.0 / 60.0);
    assert_eq!(first, same_frame);
    assert_ne!(first, next_frame);
    assert_ne!(first, stamp(200, 50, 0.0));
    assert_eq!(first.size(), (100, 50));
    assert_eq!(
        FrameStamp::of_texture((640, 360), 9),
        FrameStamp { width: 640, height: 360, timestamp_bits: 9 }
    );
}

fn cache() -> LayerCache {
    LayerCache {
        frame_stamp: stamp(100, 50, 0.0),
        mask_stamp: None,
        effect_uniform_len: 8,
        has_effect_passes: false,
        owns_texture: true,
    }
}

fn request(frame_stamp: FrameStamp) -> LayerRequest {
    LayerRequest {
        frame_stamp,
        mask_stamp: None,
        effect_uniform_len: 8,
        requires_sequential_passes: false,
        passes_match_effects: true,
        source_is_frame: true,
    }
}

#[test]
fn layers_upload_new_frames_and_rebuild_on_shape_changes() {
    assert_eq!(layer_update(&cache(), &request(stamp(100, 50, 0.0))), LayerUpdate::Keep);
    assert_eq!(
        layer_update(&cache(), &request(stamp(100, 50, 1.0 / 60.0))),
        LayerUpdate::UploadFrame
    );
    assert_eq!(
        layer_update(&cache(), &request(stamp(200, 50, 0.0))),
        LayerUpdate::Rebuild
    );
    let mut masked = request(stamp(100, 50, 0.0));
    masked.mask_stamp = Some(MaskStamp { cache_key: 3, width: 10, height: 10 });
    assert_eq!(layer_update(&cache(), &masked), LayerUpdate::Rebuild);
    let mut texture = request(stamp(100, 50, 5.0));
    texture.source_is_frame = false;
    assert_eq!(layer_update(&cache(), &texture), LayerUpdate::Rebuild);
    let mut passes = cache();
    passes.has_effect_passes = true;
    let mut changed = request(stamp(100, 50, 0.0));
    changed.requires_sequential_passes = true;
    changed.passes_match_effects = false;
    assert_eq!(layer_update(&passes, &changed), LayerUpdate::Rebuild);
    changed.passes_match_effects = true;
    assert_eq!(layer_update(&passes, &changed), LayerUpdate::Keep);
}

fn face(style: FontStyle, weight: u16, name: &str, supports_text: bool) -> FaceCandidate {
    FaceCandidate {
        style,
        weight,
        post_script_name: name.to_owned(),
        supports_text,
    }
}

#[test]
fn faces_are_chosen_by_family_then_fallback_then_rank() {
    let faces = [
        face(FontStyle::Italic, 400, "A-Italic", true),
        face(FontStyle::Normal, 700, "C-Bold", true),
        face(FontStyle::Normal, 700, "B-Bold", true),
        face(FontStyle::Normal, 400, "D-Regular", false),
    ];
    assert_eq!(
        select_face(Some(true), &[Some(true)], &faces, FontStyle::Normal, 400),
        FaceChoice::Primary
    );
    assert_eq!(
        select_face(Some(false), &[None, Some(false), Some(true)], &faces, FontStyle::Normal, 400),
        FaceChoice::Fallback(2)
    );
    assert_eq!(
        select_face(Some(false), &[None], &faces, FontStyle::Normal, 400),
        FaceChoice::Candidate(2)
    );
    assert_eq!(
        select_face(None, &[], &faces, FontStyle::Italic, 400),
        FaceChoice::Candidate(0)
    );
    let unusable = [face(FontStyle::Normal, 400, "X", false)];
    assert_eq!(
        select_face(Some(false), &[], &unusable, FontStyle::Normal, 400),
        FaceChoice::Primary
    );
    assert_eq!(select_face(None, &[], &unusable, FontStyle::Normal, 400), FaceChoice::NoFace);
    assert_eq!(FALLBACK_FAMILIES.len(), 7);
    assert_eq!(FALLBACK_FAMILIES[0], "Hiragino Sans");
}

#[test]
fn equal_ranked_faces_keep_their_order() {
    let faces = [
        face(FontStyle::Normal, 500, "Same", true),
        face(FontStyle::Normal, 300, "Same", true),
    ];
    assert_eq!(
        select_face(None, &[], &faces, FontStyle::Normal, 400),
        FaceChoice::Candidate(0)
    );
}

#[test]
fn text_objects_split_into_lines_without_carriage_returns() {
    assert_eq!(text_lines("one\r\ntwo\n\nthree\r"), vec!["one", "two", "", "three"]);
    assert_eq!(text_lines(""), vec![""]);
    assert_eq!(text_lines("a\r\r"), vec!["a\r"]);
    assert!(has_visible_text(" a "));
    assert!(!has_visible_text(" \t\u{200d}\u{fe0f}\n"));
    assert!(!has_visible_text(""));
}

#[test]
fn font_families_are_trimmed_unique_and_sorted() {
    let installed: Vec<String> = [" Noto Sans ", "Arial", "", "Noto Sans", "  ", "DejaVu Serif"]
        .iter()
        .map(|s| s.to_string())
        .collect();
    assert_eq!(
        font_family_names(&installed),
        vec!["Arial", "DejaVu Serif", "Noto Sans"]
    );
    assert!(font_family_names(&[]).is_empty());
}
