//! The system settings dialog: the values it shows for the stored settings,
//! and the settings it stores for what the dialog holds. Every number is
//! kept to its own range, in both directions; every choice is stored by its
//! value and shown by its position in the choice list.
use crate::settings::{
    choice_i32, choice_index_i32, choice_index_str, choice_position, choice_str, choice_texts,
    SYSTEM_AUDIO_BLOCK_SIZES, SYSTEM_BAKE_STRATEGIES, SYSTEM_EXPORT_AUDIO_CODECS,
    SYSTEM_EXPORT_VIDEO_CODECS, SYSTEM_PREVIEW_MSAA_SAMPLES, SYSTEM_THEME_VALUES,
    SYSTEM_UI_LANGUAGE_VALUES,
};
use crate::layout::clamp_int;
use vstd::prelude::*;

verus! {

/// The numeric system settings, each under its stored key.
#[derive(Debug, Clone, Copy, PartialEq, Eq, Structural)]
pub struct SystemSettingsNumbers {
    pub backup_interval: i32,
    pub recent_project_max_count: i32,
    pub undo_count: i32,
    pub splash_size: i32,
    pub max_image_size: i32,
    pub cache_size: i32,
    pub on_demand_prefetch_frames: i32,
    pub timeline_track_height: i32,
    pub timeline_header_height: i32,
    pub timeline_ruler_height: i32,
    pub timeline_max_layers: i32,
    pub timeline_layer_header_width: i32,
    pub timeline_clip_resize_handle_width: i32,
    pub min_clip_duration_frames: i32,
    pub timeline_zoom_min: i32,
    pub timeline_zoom_max: i32,
    pub timeline_zoom_step: i32,
    pub default_project_width: i32,
    pub default_project_height: i32,
    pub default_project_frames: i32,
    pub default_project_sample_rate: i32,
    pub default_clip_duration: i32,
    pub export_default_bitrate_mbps: i32,
    pub export_default_crf: i32,
    pub export_image_quality: i32,
    pub export_sequence_padding: i32,
    pub export_default_audio_bitrate_kbps: i32,
    pub export_frame_grab_timeout_ms: i32,
    pub export_progress_interval: i32,
    pub export_encoder_queue_mb: i32,
    pub video_decoder_index_reserve: i32,
    pub video_decoder_min_cache_mb: i32,
    pub hw_frame_pool_size: i32,
    pub lua_hook_interval_ms: i32,
}

/// The positions chosen in the dialog's choice lists.
#[derive(Debug, Clone, Copy, PartialEq, Eq, Structural)]
pub struct SystemSettingsChoices {
    pub preview_msaa_index: i32,
    pub bake_strategy_index: i32,
    pub theme_index: i32,
    pub language_index: i32,
    pub export_video_codec_index: i32,
    pub export_audio_codec_index: i32,
    pub audio_plugin_block_size_index: i32,
}

/// The stored values of the choice settings.
#[derive(Debug, Clone, PartialEq, Eq)]
pub struct StoredSystemChoices {
    pub preview_msaa_samples: i32,
    pub bake_strategy: String,
    pub theme: String,
    pub ui_language: String,
    pub export_default_codec: String,
    pub export_default_audio_codec: String,
    pub audio_plugin_max_block_size: i32,
}

/// The content of the stored choice settings.
pub struct StoredChoicesModel {
    pub preview_msaa_samples: i32,
    pub bake_strategy: Seq<char>,
    pub theme: Seq<char>,
    pub ui_language: Seq<char>,
    pub export_default_codec: Seq<char>,
    pub export_default_audio_codec: Seq<char>,
    pub audio_plugin_max_block_size: i32,
}

impl StoredSystemChoices {
    /// The stored values.
    pub open spec fn model(&self) -> StoredChoicesModel {
        StoredChoicesModel {
            preview_msaa_samples: self.preview_msaa_samples,
            bake_strategy: self.bake_strategy@,
            theme: self.theme@,
            ui_language: self.ui_language@,
            export_default_codec: self.export_default_codec@,
            export_default_audio_codec: self.export_default_audio_codec@,
            audio_plugin_max_block_size: self.audio_plugin_max_block_size,
        }
    }
}

/// `v` limited to `low..=high`, as an `i32`.
pub open spec fn clamped(v: i32, low: int, high: int) -> i32 {
    clamp_int(v as int, low, high) as i32
}

/// Each number kept to its range. The zoom maximum is at least the zoom
/// minimum; the layer count is at most `max_layers`.
pub open spec fn numbers_in_range(n: SystemSettingsNumbers, max_layers: int) -> SystemSettingsNumbers {
    let zoom_min = clamped(n.timeline_zoom_min, 1, 400);
    SystemSettingsNumbers {
        backup_interval: clamped(n.backup_interval, 1, 60),
        recent_project_max_count: clamped(n.recent_project_max_count, 1, 50),
        undo_count: clamped(n.undo_count, 1, 1_000),
        splash_size: clamped(n.splash_size, 128, 2_048),
        max_image_size: clamped(n.max_image_size, 1_024, 16_384),
        cache_size: clamped(n.cache_size, 64, 8_192),
        on_demand_prefetch_frames: clamped(n.on_demand_prefetch_frames, 0, 600),
        timeline_track_height: clamped(n.timeline_track_height, 16, 100),
        timeline_header_height: clamped(n.timeline_header_height, 16, 100),
        timeline_ruler_height: clamped(n.timeline_ruler_height, 16, 100),
        timeline_max_layers: clamped(n.timeline_max_layers, 1, max_layers),
        timeline_layer_header_width: clamped(n.timeline_layer_header_width, 40, 300),
        timeline_clip_resize_handle_width: clamped(n.timeline_clip_resize_handle_width, 4, 40),
        min_clip_duration_frames: clamped(n.min_clip_duration_frames, 1, 100),
        timeline_zoom_min: zoom_min,
        timeline_zoom_max: clamped(n.timeline_zoom_max, zoom_min as int, 1_000),
        timeline_zoom_step: clamped(n.timeline_zoom_step, 1, 100),
        default_project_width: clamped(n.default_project_width, 1, 16_000),
        default_project_height: clamped(n.default_project_height, 1, 16_000),
        default_project_frames: clamped(n.default_project_frames, 1, 1_000_000),
        default_project_sample_rate: clamped(n.default_project_sample_rate, 8_000, 192_000),
        default_clip_duration: clamped(n.default_clip_duration, 1, 100_000),
        export_default_bitrate_mbps: clamped(n.export_default_bitrate_mbps, 1, 500),
        export_default_crf: clamped(n.export_default_crf, 0, 51),
        export_image_quality: clamped(n.export_image_quality, 0, 100),
        export_sequence_padding: clamped(n.export_sequence_padding, 2, 10),
        export_default_audio_bitrate_kbps: clamped(n.export_default_audio_bitrate_kbps, 32, 1_536),
        export_frame_grab_timeout_ms: clamped(n.export_frame_grab_timeout_ms, 100, 10_000),
        export_progress_interval: clamped(n.export_progress_interval, 1, 60),
        export_encoder_queue_mb: clamped(n.export_encoder_queue_mb, 16, 1_024),
        video_decoder_index_reserve: clamped(n.video_decoder_index_reserve, 1_000, 1_000_000),
        video_decoder_min_cache_mb: clamped(n.video_decoder_min_cache_mb, 16, 4_096),
        hw_frame_pool_size: clamped(n.hw_frame_pool_size, 1, 256),
        lua_hook_interval_ms: clamped(n.lua_hook_interval_ms, 1, 1_000),
    }
}

/// `v` limited to `low..=high` (`low <= high`).
pub fn clamp_i32(v: i32, low: i32, high: i32) -> (r: i32)
    requires
        low <= high,
    ensures
        r == clamp_int(v as int, low as int, high as int),
{
    if v < low {
        low
    } else if v > high {
        high
    } else {
        v
    }
}

/// The numbers kept to their ranges; `max_layers` is the most timeline
/// layers the editor has.
pub fn numbers_kept_in_range(n: SystemSettingsNumbers, max_layers: i32) -> (r: SystemSettingsNumbers)
    requires
        1 <= max_layers,
    ensures
        r == numbers_in_range(n, max_layers as int),
{
    let zoom_min = clamp_i32(n.timeline_zoom_min, 1, 400);
    SystemSettingsNumbers {
        backup_interval: clamp_i32(n.backup_interval, 1, 60),
        recent_project_max_count: clamp_i32(n.recent_project_max_count, 1, 50),
        undo_count: clamp_i32(n.undo_count, 1, 1_000),
        splash_size: clamp_i32(n.splash_size, 128, 2_048),
        max_image_size: clamp_i32(n.max_image_size, 1_024, 16_384),
        cache_size: clamp_i32(n.cache_size, 64, 8_192),
        on_demand_prefetch_frames: clamp_i32(n.on_demand_prefetch_frames, 0, 600),
        timeline_track_height: clamp_i32(n.timeline_track_height, 16, 100),
        timeline_header_height: clamp_i32(n.timeline_header_height, 16, 100),
        timeline_ruler_height: clamp_i32(n.timeline_ruler_height, 16, 100),
        timeline_max_layers: clamp_i32(n.timeline_max_layers, 1, max_layers),
        timeline_layer_header_width: clamp_i32(n.timeline_layer_header_width, 40, 300),
        timeline_clip_resize_handle_width: clamp_i32(n.timeline_clip_resize_handle_width, 4, 40),
        min_clip_duration_frames: clamp_i32(n.min_clip_duration_frames, 1, 100),
        timeline_zoom_min: zoom_min,
        timeline_zoom_max: clamp_i32(n.timeline_zoom_max, zoom_min, 1_000),
        timeline_zoom_step: clamp_i32(n.timeline_zoom_step, 1, 100),
        default_project_width: clamp_i32(n.default_project_width, 1, 16_000),
        default_project_height: clamp_i32(n.default_project_height, 1, 16_000),
        default_project_frames: clamp_i32(n.default_project_frames, 1, 1_000_000),
        default_project_sample_rate: clamp_i32(n.default_project_sample_rate, 8_000, 192_000),
        default_clip_duration: clamp_i32(n.default_clip_duration, 1, 100_000),
        export_default_bitrate_mbps: clamp_i32(n.export_default_bitrate_mbps, 1, 500),
        export_default_crf: clamp_i32(n.export_default_crf, 0, 51),
        export_image_quality: clamp_i32(n.export_image_quality, 0, 100),
        export_sequence_padding: clamp_i32(n.export_sequence_padding, 2, 10),
        export_default_audio_bitrate_kbps: clamp_i32(n.export_default_audio_bitrate_kbps, 32, 1_536),
        export_frame_grab_timeout_ms: clamp_i32(n.export_frame_grab_timeout_ms, 100, 10_000),
        export_progress_interval: clamp_i32(n.export_progress_interval, 1, 60),
        export_encoder_queue_mb: clamp_i32(n.export_encoder_queue_mb, 16, 1_024),
        video_decoder_index_reserve: clamp_i32(n.video_decoder_index_reserve, 1_000, 1_000_000),
        video_decoder_min_cache_mb: clamp_i32(n.video_decoder_min_cache_mb, 16, 4_096),
        hw_frame_pool_size: clamp_i32(n.hw_frame_pool_size, 1, 256),
        lua_hook_interval_ms: clamp_i32(n.lua_hook_interval_ms, 1, 1_000),
    }
}

/// The text choice at `index`, or the one at `fallback`.
pub open spec fn text_choice(choices: Seq<&str>, index: i32, fallback: int) -> Seq<char> {
    if 0 <= index < choices.len() {
        choices[index as int]@
    } else {
        choices[fallback]@
    }
}

/// The integer choice at `index`, or the one at `fallback`.
pub open spec fn number_choice(choices: Seq<i32>, index: i32, fallback: int) -> i32 {
    if 0 <= index < choices.len() {
        choices[index as int]
    } else {
        choices[fallback]
    }
}

/// The position of a value among choices, or `fallback`.
pub open spec fn position_or<T>(choices: Seq<T>, value: T, fallback: int) -> i32 {
    (match choice_position(choices, value, 0) {
        Some(i) => i,
        None => fallback,
    }) as i32
}

/// The stored values for the positions chosen in the dialog.
pub open spec fn stored_values(c: SystemSettingsChoices) -> StoredChoicesModel {
    StoredChoicesModel {
        preview_msaa_samples: number_choice(SYSTEM_PREVIEW_MSAA_SAMPLES@, c.preview_msaa_index, 0),
        bake_strategy: text_choice(SYSTEM_BAKE_STRATEGIES@, c.bake_strategy_index, 0),
        theme: text_choice(SYSTEM_THEME_VALUES@, c.theme_index, 0),
        ui_language: text_choice(SYSTEM_UI_LANGUAGE_VALUES@, c.language_index, 0),
        export_default_codec: text_choice(SYSTEM_EXPORT_VIDEO_CODECS@, c.export_video_codec_index, 2),
        export_default_audio_codec: text_choice(
            SYSTEM_EXPORT_AUDIO_CODECS@,
            c.export_audio_codec_index,
            0,
        ),
        audio_plugin_max_block_size: number_choice(
            SYSTEM_AUDIO_BLOCK_SIZES@,
            c.audio_plugin_block_size_index,
            4,
        ),
    }
}

/// The positions the dialog shows for stored values: a value that is not
/// one of the choices shows the default choice, and the older codec name
/// `libopus` shows as Opus.
pub open spec fn shown_positions(v: StoredChoicesModel) -> SystemSettingsChoices {
    SystemSettingsChoices {
        preview_msaa_index: position_or(SYSTEM_PREVIEW_MSAA_SAMPLES@, v.preview_msaa_samples, 0),
        bake_strategy_index: position_or(choice_texts(SYSTEM_BAKE_STRATEGIES@), v.bake_strategy, 0),
        theme_index: position_or(choice_texts(SYSTEM_THEME_VALUES@), v.theme, 0),
        language_index: position_or(choice_texts(SYSTEM_UI_LANGUAGE_VALUES@), v.ui_language, 0),
        export_video_codec_index: position_or(
            choice_texts(SYSTEM_EXPORT_VIDEO_CODECS@),
            v.export_default_codec,
            2,
        ),
        export_audio_codec_index: if v.export_default_audio_codec == "libopus"@ {
            1
        } else {
            position_or(choice_texts(SYSTEM_EXPORT_AUDIO_CODECS@), v.export_default_audio_codec, 0)
        },
        audio_plugin_block_size_index: position_or(
            SYSTEM_AUDIO_BLOCK_SIZES@,
            v.audio_plugin_max_block_size,
            4,
        ),
    }
}

/// The settings to store for what the dialog holds: the numbers kept to
/// their ranges and the chosen values (the default choice for a position out
/// of range). `max_layers` is the most timeline layers the editor has.
pub fn system_settings_replacement(
    numbers: SystemSettingsNumbers,
    choices: SystemSettingsChoices,
    max_layers: i32,
) -> (r: (SystemSettingsNumbers, StoredSystemChoices))
    requires
        1 <= max_layers,
    ensures
        r.0 == numbers_in_range(numbers, max_layers as int),
        r.1.model() == stored_values(choices),
{
    let kept = numbers_kept_in_range(numbers, max_layers);
    let stored = StoredSystemChoices {
        preview_msaa_samples: choice_i32(&SYSTEM_PREVIEW_MSAA_SAMPLES, choices.preview_msaa_index, 0),
        bake_strategy: String::from_str(
            choice_str(&SYSTEM_BAKE_STRATEGIES, choices.bake_strategy_index, 0),
        ),
        theme: String::from_str(choice_str(&SYSTEM_THEME_VALUES, choices.theme_index, 0)),
        ui_language: String::from_str(
            choice_str(&SYSTEM_UI_LANGUAGE_VALUES, choices.language_index, 0),
        ),
        export_default_codec: String::from_str(
            choice_str(&SYSTEM_EXPORT_VIDEO_CODECS, choices.export_video_codec_index, 2),
        ),
        export_default_audio_codec: String::from_str(
            choice_str(&SYSTEM_EXPORT_AUDIO_CODECS, choices.export_audio_codec_index, 0),
        ),
        audio_plugin_max_block_size: choice_i32(
            &SYSTEM_AUDIO_BLOCK_SIZES,
            choices.audio_plugin_block_size_index,
            4,
        ),
    };
    (kept, stored)
}

/// The positions the dialog shows for the stored settings, and the stored
/// numbers kept to their ranges. `max_layers` is the most timeline layers
/// the editor has.
pub fn sync_system_settings(
    numbers: SystemSettingsNumbers,
    stored: &StoredSystemChoices,
    max_layers: i32,
) -> (r: (SystemSettingsNumbers, SystemSettingsChoices))
    requires
        1 <= max_layers,
    ensures
        r.0 == numbers_in_range(numbers, max_layers as int),
        r.1 == shown_positions(stored.model()),
{
    let kept = numbers_kept_in_range(numbers, max_layers);
    let audio_codec = stored.export_default_audio_codec.as_str();
    let audio_index = if crate::text::str_eq(audio_codec, "libopus") {
        1
    } else {
        choice_index_str(audio_codec, &SYSTEM_EXPORT_AUDIO_CODECS, 0)
    };
    let shown = SystemSettingsChoices {
        preview_msaa_index: choice_index_i32(stored.preview_msaa_samples, &SYSTEM_PREVIEW_MSAA_SAMPLES, 0),
        bake_strategy_index: choice_index_str(stored.bake_strategy.as_str(), &SYSTEM_BAKE_STRATEGIES, 0),
        theme_index: choice_index_str(stored.theme.as_str(), &SYSTEM_THEME_VALUES, 0),
        language_index: choice_index_str(stored.ui_language.as_str(), &SYSTEM_UI_LANGUAGE_VALUES, 0),
        export_video_codec_index: choice_index_str(
            stored.export_default_codec.as_str(),
            &SYSTEM_EXPORT_VIDEO_CODECS,
            2,
        ),
        export_audio_codec_index: audio_index,
        audio_plugin_block_size_index: choice_index_i32(
            stored.audio_plugin_max_block_size,
            &SYSTEM_AUDIO_BLOCK_SIZES,
            4,
        ),
    };
    (kept, shown)
}

/// A position kept when it is in `0..len`, else `fallback`.
pub open spec fn position_in_range(index: i32, len: int, fallback: int) -> i32 {
    if 0 <= index < len {
        index
    } else {
        fallback as i32
    }
}

/// Each chosen position kept when it names a choice, else the default one.
pub open spec fn positions_in_range(c: SystemSettingsChoices) -> SystemSettingsChoices {
    SystemSettingsChoices {
        preview_msaa_index: position_in_range(c.preview_msaa_index, 4, 0),
        bake_strategy_index: position_in_range(c.bake_strategy_index, 2, 0),
        theme_index: position_in_range(c.theme_index, 3, 0),
        language_index: position_in_range(c.language_index, 4, 0),
        export_video_codec_index: position_in_range(c.export_video_codec_index, 3, 2),
        export_audio_codec_index: position_in_range(c.export_audio_codec_index, 4, 0),
        audio_plugin_block_size_index: position_in_range(c.audio_plugin_block_size_index, 6, 4),
    }
}

/// The elements of `s` are pairwise different.
pub open spec fn all_distinct<T>(s: Seq<T>) -> bool {
    forall|i: int, j: int| 0 <= i < s.len() && 0 <= j < s.len() && i != j ==> s[i] != s[j]
}

proof fn lemma_position_of_distinct<T>(s: Seq<T>, i: int, from: int)
    requires
        all_distinct(s),
        0 <= from <= i < s.len(),
    ensures
        choice_position(s, s[i], from) == Some(i),
    decreases i - from,
{
    if from < i {
        assert(s[from] != s[i]);
        lemma_position_of_distinct(s, i, from + 1);
    }
}

proof fn lemma_choice_lists_distinct()
    ensures
        all_distinct(SYSTEM_PREVIEW_MSAA_SAMPLES@),
        all_distinct(choice_texts(SYSTEM_BAKE_STRATEGIES@)),
        all_distinct(choice_texts(SYSTEM_THEME_VALUES@)),
        all_distinct(choice_texts(SYSTEM_UI_LANGUAGE_VALUES@)),
        all_distinct(choice_texts(SYSTEM_EXPORT_VIDEO_CODECS@)),
        all_distinct(choice_texts(SYSTEM_EXPORT_AUDIO_CODECS@)),
        all_distinct(SYSTEM_AUDIO_BLOCK_SIZES@),
        forall|i: int| 0 <= i < 4 ==> choice_texts(SYSTEM_EXPORT_AUDIO_CODECS@)[i] != "libopus"@,
{
    reveal_strlit("OnDemand");
    reveal_strlit("FullBake");
    reveal_strlit("Dark");
    reveal_strlit("Light");
    reveal_strlit("System");
    reveal_strlit("English");
    reveal_strlit("SimplifiedChinese");
    reveal_strlit("Japanese");
    reveal_strlit("h264_vaapi");
    reveal_strlit("hevc_vaapi");
    reveal_strlit("libx264");
    reveal_strlit("aac");
    reveal_strlit("opus");
    reveal_strlit("flac");
    reveal_strlit("pcm_s16le");
    reveal_strlit("libopus");
    let bake = choice_texts(SYSTEM_BAKE_STRATEGIES@);
    assert(bake[0][0] != bake[1][0]);
    let theme = choice_texts(SYSTEM_THEME_VALUES@);
    assert(theme[0].len() == 4 && theme[1].len() == 5 && theme[2].len() == 6);
    let language = choice_texts(SYSTEM_UI_LANGUAGE_VALUES@);
    assert(language[0].len() == 6 && language[1].len() == 7 && language[2].len() == 17
        && language[3].len() == 8);
    let video = choice_texts(SYSTEM_EXPORT_VIDEO_CODECS@);
    assert(video[0].len() == 10 && video[1].len() == 10 && video[2].len() == 7);
    assert(video[0][2] != video[1][2]);
    let audio = choice_texts(SYSTEM_EXPORT_AUDIO_CODECS@);
    assert(audio[0].len() == 3 && audio[1].len() == 4 && audio[2].len() == 4
        && audio[3].len() == 9 && "libopus"@.len() == 7);
    assert(audio[1][0] != audio[2][0]);
}

proof fn lemma_shown_text_position(choices: Seq<&str>, index: i32, fallback: int)
    requires
        all_distinct(choice_texts(choices)),
        0 <= fallback < choices.len(),
        choices.len() < 0x7fff_ffff,
    ensures
        position_or(choice_texts(choices), text_choice(choices, index, fallback), fallback)
            == position_in_range(index, choices.len() as int, fallback),
{
    let texts = choice_texts(choices);
    if 0 <= index < choices.len() {
        lemma_position_of_distinct(texts, index as int, 0);
    } else {
        lemma_position_of_distinct(texts, fallback, 0);
    }
}

proof fn lemma_shown_number_position(choices: Seq<i32>, index: i32, fallback: int)
    requires
        all_distinct(choices),
        0 <= fallback < choices.len(),
        choices.len() < 0x7fff_ffff,
    ensures
        position_or(choices, number_choice(choices, index, fallback), fallback)
            == position_in_range(index, choices.len() as int, fallback),
{
    if 0 <= index < choices.len() {
        lemma_position_of_distinct(choices, index as int, 0);
    } else {
        lemma_position_of_distinct(choices, fallback, 0);
    }
}

/// What the dialog stores it shows again: reopened after a save, it shows
/// each number as it was stored (the ranges change nothing a second time)
/// and each chosen position that names a choice, the default choice for one
/// that does not.
pub proof fn saved_system_settings_reopen_unchanged(
    numbers: SystemSettingsNumbers,
    choices: SystemSettingsChoices,
    max_layers: int,
)
    requires
        1 <= max_layers <= i32::MAX,
    ensures
        numbers_in_range(numbers_in_range(numbers, max_layers), max_layers) == numbers_in_range(
            numbers,
            max_layers,
        ),
        shown_positions(stored_values(choices)) == positions_in_range(choices),
{
    lemma_choice_lists_distinct();
    reveal_strlit("libopus");
    lemma_shown_number_position(SYSTEM_PREVIEW_MSAA_SAMPLES@, choices.preview_msaa_index, 0);
    lemma_shown_text_position(SYSTEM_BAKE_STRATEGIES@, choices.bake_strategy_index, 0);
    lemma_shown_text_position(SYSTEM_THEME_VALUES@, choices.theme_index, 0);
    lemma_shown_text_position(SYSTEM_UI_LANGUAGE_VALUES@, choices.language_index, 0);
    lemma_shown_text_position(SYSTEM_EXPORT_VIDEO_CODECS@, choices.export_video_codec_index, 2);
    lemma_shown_text_position(SYSTEM_EXPORT_AUDIO_CODECS@, choices.export_audio_codec_index, 0);
    lemma_shown_number_position(SYSTEM_AUDIO_BLOCK_SIZES@, choices.audio_plugin_block_size_index, 4);
    let stored = stored_values(choices);
    let audio = choice_texts(SYSTEM_EXPORT_AUDIO_CODECS@);
    if 0 <= choices.export_audio_codec_index < 4 {
        assert(stored.export_default_audio_codec == audio[choices.export_audio_codec_index as int]);
    } else {
        assert(stored.export_default_audio_codec == audio[0]);
    }
}

/// The interval between automatic backups, in seconds: the stored minutes
/// kept to `1..=1440` (one day).
pub fn recovery_interval_seconds(backup_interval: i32) -> (r: u64)
    ensures
        r == clamp_int(backup_interval as int, 1, 1_440) * 60,
{
    let minutes = clamp_i32(backup_interval, 1, 1_440);
    (minutes as u64) * 60
}

/// The number of undo steps kept: the stored count, at least one.
pub fn undo_limit(undo_count: i32) -> (r: usize)
    ensures
        r == if undo_count < 1 {
            1
        } else {
            undo_count as int
        },
{
    if undo_count < 1 {
        1
    } else {
        undo_count as usize
    }
}

} // verus!
