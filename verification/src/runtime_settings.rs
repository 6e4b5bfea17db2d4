//! The stored settings that the editor applies while it runs: the timeline's
//! sizes and limits, the values a new project starts with, and the theme.
//! Each number is kept to the range that the system settings dialog keeps
//! it to, so the editor runs with what the dialog shows.
use crate::settings::{choice_index_str, choice_position, choice_texts, SYSTEM_THEME_VALUES};
use crate::system_settings::{
    clamp_i32, clamped, numbers_in_range, position_or, SystemSettingsNumbers,
};
use vstd::prelude::*;

verus! {

/// The sizes and limits the timeline runs with.
#[derive(Debug, Clone, Copy, PartialEq, Eq, Structural)]
pub struct TimelineRuntimeSettings {
    pub header_height: i32,
    pub track_height: i32,
    pub ruler_height: i32,
    pub maximum_layers: i32,
    pub layer_header_width: i32,
    pub clip_resize_handle_width: i32,
    pub minimum_clip_duration_frames: i32,
    pub skimming_enabled: bool,
    /// The skimmer is hidden now: skimming was switched off.
    pub hides_skimmer: bool,
    pub sidebar_on_right: bool,
}

/// The timeline settings for the stored numbers and switches.
pub open spec fn timeline_settings_for(
    n: SystemSettingsNumbers,
    skimming_enabled: bool,
    sidebar_on_right: bool,
    max_layers: int,
) -> TimelineRuntimeSettings {
    TimelineRuntimeSettings {
        header_height: clamped(n.timeline_header_height, 16, 100),
        track_height: clamped(n.timeline_track_height, 16, 100),
        ruler_height: clamped(n.timeline_ruler_height, 16, 100),
        maximum_layers: clamped(n.timeline_max_layers, 1, max_layers),
        layer_header_width: clamped(n.timeline_layer_header_width, 40, 300),
        clip_resize_handle_width: clamped(n.timeline_clip_resize_handle_width, 4, 40),
        minimum_clip_duration_frames: clamped(n.min_clip_duration_frames, 1, 100),
        skimming_enabled,
        hides_skimmer: !skimming_enabled,
        sidebar_on_right,
    }
}

/// The number of timeline layers for the stored `timelineMaxLayers`: at
/// least one and at most `max_layers`, the most the editor has.
pub fn timeline_maximum_layers(stored: i32, max_layers: i32) -> (r: i32)
    requires
        1 <= max_layers,
    ensures
        r == clamped(stored, 1, max_layers as int),
        1 <= r <= max_layers,
{
    clamp_i32(stored, 1, max_layers)
}

/// The timeline settings for the stored numbers (the stored timeline values,
/// with their defaults where none is stored), whether skimming is enabled and
/// whether the object settings sidebar stands on the right.
pub fn timeline_runtime_settings(
    numbers: &SystemSettingsNumbers,
    skimming_enabled: bool,
    sidebar_on_right: bool,
    max_layers: i32,
) -> (r: TimelineRuntimeSettings)
    requires
        1 <= max_layers,
    ensures
        r == timeline_settings_for(*numbers, skimming_enabled, sidebar_on_right, max_layers as int),
{
    TimelineRuntimeSettings {
        header_height: clamp_i32(numbers.timeline_header_height, 16, 100),
        track_height: clamp_i32(numbers.timeline_track_height, 16, 100),
        ruler_height: clamp_i32(numbers.timeline_ruler_height, 16, 100),
        maximum_layers: timeline_maximum_layers(numbers.timeline_max_layers, max_layers),
        layer_header_width: clamp_i32(numbers.timeline_layer_header_width, 40, 300),
        clip_resize_handle_width: clamp_i32(numbers.timeline_clip_resize_handle_width, 4, 40),
        minimum_clip_duration_frames: clamp_i32(numbers.min_clip_duration_frames, 1, 100),
        skimming_enabled,
        hides_skimmer: !skimming_enabled,
        sidebar_on_right,
    }
}

/// The preview's decoder cache in megabytes, for the stored `cacheSize`
/// kept to `64..=8192`, and its multisample count, for the stored
/// `previewMsaaSamples` (none for a negative count).
pub fn preview_runtime_numbers(cache_size: i32, msaa_samples: i32) -> (r: (usize, u32))
    ensures
        r.0 == clamped(cache_size, 64, 8_192),
        r.1 == if msaa_samples < 0 {
            0
        } else {
            msaa_samples as int
        },
{
    let cache = clamp_i32(cache_size, 64, 8_192);
    let samples: u32 = if msaa_samples < 0 {
        0
    } else {
        msaa_samples as u32
    };
    (cache as usize, samples)
}

/// The integer values a new project starts with.
#[derive(Debug, Clone, Copy, PartialEq, Eq, Structural)]
pub struct ProjectDefaultNumbers {
    pub width: i32,
    pub height: i32,
    pub sample_rate: i32,
    pub duration: i32,
    pub enable_snap: bool,
    pub magnetic_snap_range: i32,
}

/// The project defaults for the stored numbers and snap settings.
pub open spec fn project_numbers_for(
    n: SystemSettingsNumbers,
    enable_snap: bool,
    magnetic_snap_range: i32,
) -> ProjectDefaultNumbers {
    ProjectDefaultNumbers {
        width: clamped(n.default_project_width, 1, 16_000),
        height: clamped(n.default_project_height, 1, 16_000),
        sample_rate: clamped(n.default_project_sample_rate, 8_000, 192_000),
        duration: clamped(n.default_project_frames, 1, 1_000_000),
        enable_snap,
        magnetic_snap_range: clamped(magnetic_snap_range, 1, 100),
    }
}

/// The size, sample rate, length and snapping a new project starts with,
/// for the stored numbers (with their defaults where none is stored) and the
/// stored `enableSnap` and `magneticSnapRange`.
pub fn project_default_numbers(
    numbers: &SystemSettingsNumbers,
    enable_snap: bool,
    magnetic_snap_range: i32,
) -> (r: ProjectDefaultNumbers)
    ensures
        r == project_numbers_for(*numbers, enable_snap, magnetic_snap_range),
{
    ProjectDefaultNumbers {
        width: clamp_i32(numbers.default_project_width, 1, 16_000),
        height: clamp_i32(numbers.default_project_height, 1, 16_000),
        sample_rate: clamp_i32(numbers.default_project_sample_rate, 8_000, 192_000),
        duration: clamp_i32(numbers.default_project_frames, 1, 1_000_000),
        enable_snap,
        magnetic_snap_range: clamp_i32(magnetic_snap_range, 1, 100),
    }
}

/// The position of the stored theme among the themes, the first (dark) one
/// for a theme that is not among them.
pub fn system_theme_index(theme: &str) -> (r: i32)
    ensures
        r == position_or(choice_texts(SYSTEM_THEME_VALUES@), theme@, 0),
        0 <= r < 3,
{
    let r = choice_index_str(theme, &SYSTEM_THEME_VALUES, 0);
    proof {
        lemma_choice_position_in_range(choice_texts(SYSTEM_THEME_VALUES@), theme@, 0);
    }
    r
}

proof fn lemma_choice_position_in_range<T>(choices: Seq<T>, value: T, from: int)
    requires
        0 <= from,
    ensures
        choice_position(choices, value, from) matches Some(i) ==> from <= i < choices.len(),
    decreases choices.len() - from,
{
    if from < choices.len() && choices[from] != value {
        lemma_choice_position_in_range(choices, value, from + 1);
    }
}

/// The timeline runs with the values the system settings dialog shows for
/// the same stored settings, a project starts with the size, rate and
/// length the dialog shows, and the preview caches as much as the dialog
/// shows.
pub proof fn editor_runs_with_the_dialog_values(
    n: SystemSettingsNumbers,
    skimming_enabled: bool,
    sidebar_on_right: bool,
    enable_snap: bool,
    magnetic_snap_range: i32,
    max_layers: int,
)
    requires
        1 <= max_layers <= i32::MAX,
    ensures
        ({
            let shown = numbers_in_range(n, max_layers);
            let t = timeline_settings_for(n, skimming_enabled, sidebar_on_right, max_layers);
            let p = project_numbers_for(n, enable_snap, magnetic_snap_range);
            &&& t.header_height == shown.timeline_header_height
            &&& t.track_height == shown.timeline_track_height
            &&& t.ruler_height == shown.timeline_ruler_height
            &&& t.maximum_layers == shown.timeline_max_layers
            &&& t.layer_header_width == shown.timeline_layer_header_width
            &&& t.clip_resize_handle_width == shown.timeline_clip_resize_handle_width
            &&& t.minimum_clip_duration_frames == shown.min_clip_duration_frames
            &&& p.width == shown.default_project_width
            &&& p.height == shown.default_project_height
            &&& p.sample_rate == shown.default_project_sample_rate
            &&& p.duration == shown.default_project_frames
            &&& clamped(n.cache_size, 64, 8_192) == shown.cache_size
        }),
{
}

/// What the dialog stores, the editor applies unchanged: the timeline and
/// project values for the stored numbers are those for the numbers the
/// dialog saves back.
pub proof fn saved_settings_apply_unchanged(
    n: SystemSettingsNumbers,
    skimming_enabled: bool,
    sidebar_on_right: bool,
    enable_snap: bool,
    magnetic_snap_range: i32,
    max_layers: int,
)
    requires
        1 <= max_layers <= i32::MAX,
    ensures
        timeline_settings_for(numbers_in_range(n, max_layers), skimming_enabled, sidebar_on_right, max_layers)
            == timeline_settings_for(n, skimming_enabled, sidebar_on_right, max_layers),
        project_numbers_for(numbers_in_range(n, max_layers), enable_snap, magnetic_snap_range)
            == project_numbers_for(n, enable_snap, magnetic_snap_range),
{
}

} // verus!
