//! Export dialog logic: codec choice and the progress label.
use crate::language::{localized, pick, UiLanguage};
use crate::text::{decimal_text, i64_text};
use vstd::prelude::*;

verus! {

/// The first position of `value` among `values`.
pub open spec fn position_of(values: Seq<Seq<char>>, value: Seq<char>, from: int) -> Option<int>
    decreases values.len() - from,
{
    if from < 0 || from >= values.len() {
        None
    } else if values[from] == value {
        Some(from)
    } else {
        position_of(values, value, from + 1)
    }
}

/// The characters of each string.
pub open spec fn string_texts(v: Seq<String>) -> Seq<Seq<char>> {
    v.map_values(|s: String| s@)
}

/// The index that selects `selected` among the codecs: its first position,
/// the first codec when it is missing, and -1 when there is no codec.
pub open spec fn codec_index(values: Seq<Seq<char>>, selected: Seq<char>) -> i32 {
    if values.len() == 0 {
        -1i32
    } else {
        match position_of(values, selected, 0) {
            Some(i) => i as i32,
            None => 0,
        }
    }
}

/// Index of the selected codec in the list shown by the export dialog.
pub fn selected_codec_index(values: &[String], selected: &str) -> (r: i32)
    ensures
        r == codec_index(string_texts(values@), selected@),
{
    let ghost texts = string_texts(values@);
    if values.len() == 0 {
        return -1;
    }
    let mut i: usize = 0;
    while i < values.len()
        invariant
            i <= values@.len(),
            texts == string_texts(values@),
            position_of(texts, selected@, 0) == position_of(texts, selected@, i as int),
        decreases values@.len() - i,
    {
        assert(texts[i as int] == values@[i as int]@);
        if crate::text::str_eq(values[i].as_str(), selected) {
            return i as i32;
        }
        i = i + 1;
    }
    0
}

/// The codec at `index`, or `fallback` when the index is out of range.
pub fn selected_codec<'a>(values: &'a [String], index: i32, fallback: &'a str) -> (r: &'a str)
    ensures
        r@ == (if 0 <= index < values@.len() {
            values@[index as int]@
        } else {
            fallback@
        }),
{
    if index >= 0 && (index as usize) < values.len() {
        values[index as usize].as_str()
    } else {
        fallback
    }
}

/// The catalog entries whose codec is available (every entry when nothing
/// is reported as available), in catalog order.
pub open spec fn available_entries(
    available: Seq<Seq<char>>,
    catalog: Seq<(Seq<char>, Seq<char>)>,
) -> Seq<(Seq<char>, Seq<char>)>
    decreases catalog.len(),
{
    if catalog.len() == 0 {
        seq![]
    } else {
        let rest = available_entries(available, catalog.drop_last());
        if available.len() == 0 || available.contains(catalog.last().1) {
            rest.push(catalog.last())
        } else {
            rest
        }
    }
}

/// The texts of a catalog of `(label, codec)` pairs.
pub open spec fn catalog_texts(v: Seq<(&str, &str)>) -> Seq<(Seq<char>, Seq<char>)> {
    v.map_values(|e: (&str, &str)| (e.0@, e.1@))
}

/// Labels and codec names of the catalog entries that are available.
pub fn filtered_codec_catalog(available: &[String], catalog: &[(&str, &str)]) -> (r: (
    Vec<String>,
    Vec<String>,
))
    ensures
        r.0@.len() == r.1@.len(),
        string_texts(r.0@).zip_with(string_texts(r.1@)) == available_entries(
            string_texts(available@),
            catalog_texts(catalog@),
        ),
{
    let ghost avail = string_texts(available@);
    let ghost entries = catalog_texts(catalog@);
    let mut labels: Vec<String> = Vec::new();
    let mut codecs: Vec<String> = Vec::new();
    let mut i: usize = 0;
    while i < catalog.len()
        invariant
            i <= catalog@.len(),
            avail == string_texts(available@),
            entries == catalog_texts(catalog@),
            labels@.len() == codecs@.len(),
            string_texts(labels@).zip_with(string_texts(codecs@)) == available_entries(
                avail,
                entries.take(i as int),
            ),
        decreases catalog@.len() - i,
    {
        let (label, codec) = catalog[i];
        proof {
            assert(entries.take(i + 1).drop_last() =~= entries.take(i as int));
            assert(entries.take(i + 1).last() == (label@, codec@));
        }
        let mut present = available.len() == 0;
        let mut k: usize = 0;
        while k < available.len() && !present
            invariant
                k <= available@.len(),
                avail == string_texts(available@),
                present ==> (available@.len() == 0 || avail.contains(codec@)),
                !present ==> available@.len() > 0 && forall|m: int| 0 <= m < k ==> avail[m]
                    != codec@,
            decreases available@.len() - k,
        {
            assert(avail[k as int] == available@[k as int]@);
            if crate::text::str_eq(available[k].as_str(), codec) {
                present = true;
            }
            k = k + 1;
        }
        proof {
            if !present {
                assert(!avail.contains(codec@));
            }
        }
        if present {
            labels.push(String::from_str(label));
            codecs.push(String::from_str(codec));
            proof {
                assert(string_texts(labels@).zip_with(string_texts(codecs@)) =~= available_entries(
                    avail,
                    entries.take(i as int),
                ).push((label@, codec@)));
            }
        }
        i = i + 1;
    }
    assert(entries.take(catalog@.len() as int) =~= entries);
    (labels, codecs)
}

/// The remaining-time suffix of the progress label.
pub open spec fn eta_text(language: UiLanguage, seconds: int) -> Seq<char> {
    if seconds <= 0 {
        Seq::empty()
    } else if seconds >= 3600 {
        let h = decimal_text(seconds / 3600);
        let m = decimal_text(seconds % 3600 / 60);
        match language {
            UiLanguage::English => " ("@ + h + "h "@ + m + "m remaining)"@,
            UiLanguage::SimplifiedChinese => "（剩余 "@ + h + " 小时 "@ + m + " 分钟）"@,
            UiLanguage::Japanese => " (残り "@ + h + "時間"@ + m + "分)"@,
        }
    } else if seconds >= 60 {
        let m = decimal_text(seconds / 60);
        let s = decimal_text(seconds % 60);
        match language {
            UiLanguage::English => " ("@ + m + "m "@ + s + "s remaining)"@,
            UiLanguage::SimplifiedChinese => "（剩余 "@ + m + " 分 "@ + s + " 秒）"@,
            UiLanguage::Japanese => " (残り "@ + m + "分"@ + s + "秒)"@,
        }
    } else {
        let s = decimal_text(seconds);
        match language {
            UiLanguage::English => " ("@ + s + "s remaining)"@,
            UiLanguage::SimplifiedChinese => "（剩余 "@ + s + " 秒）"@,
            UiLanguage::Japanese => " (残り "@ + s + "秒)"@,
        }
    }
}

/// The export progress label: `current / total frames` and the remaining
/// time, in the UI language.
pub open spec fn progress_text(
    language: UiLanguage,
    current_frame: int,
    total_frames: int,
    eta_seconds: int,
) -> Seq<char> {
    decimal_text(current_frame) + " / "@ + decimal_text(total_frames) + " "@ + pick(
        language,
        "frames"@,
        "帧"@,
        "フレーム"@,
    ) + eta_text(language, eta_seconds)
}

fn join3(a: &str, b: &str, c: &str, d: &str, e: &str) -> (r: String)
    ensures
        r@ == a@ + b@ + c@ + d@ + e@,
{
    let mut out = String::from_str(a);
    out.append(b);
    out.append(c);
    out.append(d);
    out.append(e);
    out
}

fn eta_label(language: UiLanguage, seconds: i64) -> (r: String)
    ensures
        r@ == eta_text(language, seconds as int),
{
    if seconds <= 0 {
        String::new()
    } else if seconds >= 3600 {
        let h = i64_text(seconds / 3600);
        let m = i64_text(seconds % 3600 / 60);
        match language {
            UiLanguage::English => join3(" (", h.as_str(), "h ", m.as_str(), "m remaining)"),
            UiLanguage::SimplifiedChinese => join3(
                "（剩余 ",
                h.as_str(),
                " 小时 ",
                m.as_str(),
                " 分钟）",
            ),
            UiLanguage::Japanese => join3(" (残り ", h.as_str(), "時間", m.as_str(), "分)"),
        }
    } else if seconds >= 60 {
        let m = i64_text(seconds / 60);
        let s = i64_text(seconds % 60);
        match language {
            UiLanguage::English => join3(" (", m.as_str(), "m ", s.as_str(), "s remaining)"),
            UiLanguage::SimplifiedChinese => join3("（剩余 ", m.as_str(), " 分 ", s.as_str(), " 秒）"),
            UiLanguage::Japanese => join3(" (残り ", m.as_str(), "分", s.as_str(), "秒)"),
        }
    } else {
        let s = i64_text(seconds);
        let mut out = match language {
            UiLanguage::English => String::from_str(" ("),
            UiLanguage::SimplifiedChinese => String::from_str("（剩余 "),
            UiLanguage::Japanese => String::from_str(" (残り "),
        };
        out.append(s.as_str());
        match language {
            UiLanguage::English => out.append("s remaining)"),
            UiLanguage::SimplifiedChinese => out.append(" 秒）"),
            UiLanguage::Japanese => out.append("秒)"),
        }
        out
    }
}

/// Formats the export progress: frames done of the total, and the estimated
/// remaining time (hours and minutes from an hour on, minutes and seconds
/// from a minute on, seconds below; nothing when the estimate is not
/// positive).
pub fn export_progress_label(
    language: UiLanguage,
    current_frame: i64,
    total_frames: i64,
    eta_seconds: i64,
) -> (r: String)
    ensures
        r@ == progress_text(language, current_frame as int, total_frames as int, eta_seconds as int),
{
    let current = i64_text(current_frame);
    let total = i64_text(total_frames);
    let frames = localized(language, "frames", "帧", "フレーム");
    let mut out = join3(current.as_str(), " / ", total.as_str(), " ", frames);
    let eta = eta_label(language, eta_seconds);
    out.append(eta.as_str());
    out
}

/// The video codecs the export window offers: label and encoder name.
pub const VIDEO_CODECS: [(&'static str, &'static str); 14] = [
    ("H.264 – libx264 (SW)", "libx264"),
    ("H.264 – NVENC (NVIDIA)", "h264_nvenc"),
    ("H.264 – AMF (AMD)", "h264_amf"),
    ("H.264 – QSV (Intel)", "h264_qsv"),
    ("H.264 – VAAPI (Linux)", "h264_vaapi"),
    ("HEVC – libx265 (SW)", "libx265"),
    ("HEVC – NVENC (NVIDIA)", "hevc_nvenc"),
    ("HEVC – AMF (AMD)", "hevc_amf"),
    ("HEVC – QSV (Intel)", "hevc_qsv"),
    ("HEVC – VAAPI (Linux)", "hevc_vaapi"),
    ("AV1 – libaom (SW)", "libaom-av1"),
    ("AV1 – NVENC (NVIDIA)", "av1_nvenc"),
    ("AV1 – AMF (AMD)", "av1_amf"),
    ("AV1 – VAAPI (Linux)", "av1_vaapi"),
];

/// The audio codecs the export window offers: label and encoder name.
pub const AUDIO_CODECS: [(&'static str, &'static str); 5] = [
    ("AAC", "aac"),
    ("Opus", "libopus"),
    ("MP3", "libmp3lame"),
    ("FLAC (Lossless)", "flac"),
    ("PCM 16-bit", "pcm_s16le"),
];

/// The encoder presets, fastest first.
pub const PRESET_VALUES: [&'static str; 5] = ["ultrafast", "fast", "medium", "slow", "veryslow"];

/// The encoder profiles; the first leaves the choice to the encoder.
pub const PROFILE_VALUES: [&'static str; 4] = ["", "baseline", "main", "high"];

/// The audio bitrates offered, in kbit/s.
pub const AUDIO_BITRATES: [i32; 5] = [96, 128, 192, 256, 320];

/// The text at `index` (a negative index read as zero), or `fallback`.
pub open spec fn text_at_or(values: Seq<&str>, index: i32, fallback: Seq<char>) -> Seq<char> {
    let i: int = if index < 0 {
        0
    } else {
        index as int
    };
    if i < values.len() {
        values[i]@
    } else {
        fallback
    }
}

fn text_at<'a>(values: &[&'a str], index: i32, fallback: &'a str) -> (r: &'a str)
    ensures
        r@ == text_at_or(values@, index, fallback@),
{
    let i: usize = if index < 0 {
        0
    } else {
        index as usize
    };
    if i < values.len() {
        values[i]
    } else {
        fallback
    }
}

/// What the export window's choices ask for, besides codecs and numbers.
#[derive(Debug, Clone, PartialEq, Eq)]
pub struct ExportChoices {
    /// An image sequence rather than a video.
    pub image_sequence: bool,
    /// JPEG rather than PNG images.
    pub jpeg: bool,
    pub preset: String,
    pub profile: String,
    pub audio_bitrate_kbps: i32,
}

/// The export choices for the positions chosen in the window: format 1 is
/// an image sequence, image format 1 is JPEG; a preset, profile or bitrate
/// position out of range gives `medium`, no profile and 192 kbit/s.
pub fn export_choices(
    format_index: i32,
    image_format_index: i32,
    preset_index: i32,
    profile_index: i32,
    audio_bitrate_index: i32,
) -> (r: ExportChoices)
    ensures
        r.image_sequence == (format_index == 1),
        r.jpeg == (image_format_index == 1),
        r.preset@ == text_at_or(PRESET_VALUES@, preset_index, "medium"@),
        r.profile@ == text_at_or(PROFILE_VALUES@, profile_index, ""@),
        r.audio_bitrate_kbps == ({
            let i: int = if audio_bitrate_index < 0 {
                0
            } else {
                audio_bitrate_index as int
            };
            if i < 5 {
                AUDIO_BITRATES@[i]
            } else {
                192
            }
        }),
{
    let bitrate_index: usize = if audio_bitrate_index < 0 {
        0
    } else {
        audio_bitrate_index as usize
    };
    let bitrates = AUDIO_BITRATES;
    let audio_bitrate_kbps = if bitrate_index < 5 {
        bitrates[bitrate_index]
    } else {
        192
    };
    ExportChoices {
        image_sequence: format_index == 1,
        jpeg: image_format_index == 1,
        preset: String::from_str(text_at(&PRESET_VALUES, preset_index, "medium")),
        profile: String::from_str(text_at(&PROFILE_VALUES, profile_index, "")),
        audio_bitrate_kbps,
    }
}

/// The audio codec preselected for a stored default: the older name `opus`
/// stands for `libopus`.
pub fn default_audio_codec(stored: &str) -> (r: String)
    ensures
        r@ == if stored@ == "opus"@ {
            "libopus"@
        } else {
            stored@
        },
{
    if crate::text::str_eq(stored, "opus") {
        String::from_str("libopus")
    } else {
        String::from_str(stored)
    }
}

/// Whether a bitrate can be chosen for an audio codec: not for the
/// lossless ones.
pub fn audio_bitrate_enabled(codec: &str) -> (r: bool)
    ensures
        r == (codec@ != "flac"@ && codec@ != "pcm_s16le"@),
{
    !crate::text::str_eq(codec, "flac") && !crate::text::str_eq(codec, "pcm_s16le")
}

/// The position of an audio bitrate among those offered, or that of
/// 192 kbit/s.
pub fn audio_bitrate_index(bitrate: i32) -> (r: i32)
    ensures
        0 <= r < 5,
        AUDIO_BITRATES@.contains(bitrate) ==> AUDIO_BITRATES@[r as int] == bitrate,
        !AUDIO_BITRATES@.contains(bitrate) ==> r == 2,
{
    let bitrates = AUDIO_BITRATES;
    let mut i: usize = 0;
    while i < 5
        invariant
            i <= 5,
            bitrates@ == AUDIO_BITRATES@,
            forall|k: int| 0 <= k < i ==> AUDIO_BITRATES@[k] != bitrate,
        decreases 5 - i,
    {
        if bitrates[i] == bitrate {
            return i as i32;
        }
        i = i + 1;
    }
    2
}

/// The numbers an export runs with, from the stored settings.
#[derive(Debug, Clone, Copy, PartialEq, Eq, Structural)]
pub struct ExportRuntimeValues {
    pub image_quality: u8,
    pub sequence_padding: i32,
    pub progress_interval: i32,
    pub max_plugin_block_size: usize,
}

/// The export's numbers: the image quality kept to `1..=100`, the progress
/// interval at least one, the plugin block size kept to `1..=8192`.
pub fn export_runtime_values(
    image_quality: i32,
    sequence_padding: i32,
    progress_interval: i32,
    max_plugin_block_size: i32,
) -> (r: ExportRuntimeValues)
    ensures
        r.image_quality == crate::layout::clamp_int(image_quality as int, 1, 100),
        r.sequence_padding == sequence_padding,
        r.progress_interval == if progress_interval < 1 {
            1
        } else {
            progress_interval as int
        },
        r.max_plugin_block_size == crate::layout::clamp_int(max_plugin_block_size as int, 1, 8_192),
{
    let quality: u8 = if image_quality < 1 {
        1
    } else if image_quality > 100 {
        100
    } else {
        image_quality as u8
    };
    let block: usize = if max_plugin_block_size < 1 {
        1
    } else if max_plugin_block_size > 8_192 {
        8_192
    } else {
        max_plugin_block_size as usize
    };
    ExportRuntimeValues {
        image_quality: quality,
        sequence_padding,
        progress_interval: if progress_interval < 1 {
            1
        } else {
            progress_interval
        },
        max_plugin_block_size: block,
    }
}

/// Why a frame of a running export cannot be rendered.
#[derive(Debug, Clone, Copy, PartialEq, Eq, Structural)]
pub enum ExportFrameError {
    /// Another project tab is the current one.
    ProjectTabChanged,
    /// The export's project is no longer open.
    ProjectUnavailable,
}

impl ExportFrameError {
    /// The message shown for the error.
    pub fn message(&self) -> (r: String)
        ensures
            r@ == match *self {
                ExportFrameError::ProjectTabChanged => "Frame render error: project tab changed during export"@,
                ExportFrameError::ProjectUnavailable => "Frame render error: export project is no longer available"@,
            },
    {
        match self {
            ExportFrameError::ProjectTabChanged => String::from_str(
                "Frame render error: project tab changed during export",
            ),
            ExportFrameError::ProjectUnavailable => String::from_str(
                "Frame render error: export project is no longer available",
            ),
        }
    }
}

/// Whether a frame of the export of project `export_project` may be
/// rendered: only while that project is the current one and its workspace
/// is open.
pub fn export_frame_gate(
    current_project: Option<u64>,
    export_project: u64,
    workspace_open: bool,
) -> (r: Result<(), ExportFrameError>)
    ensures
        current_project != Some(export_project) ==> r == Err::<(), ExportFrameError>(
            ExportFrameError::ProjectTabChanged,
        ),
        current_project == Some(export_project) && !workspace_open ==> r == Err::<
            (),
            ExportFrameError,
        >(ExportFrameError::ProjectUnavailable),
        current_project == Some(export_project) && workspace_open ==> r is Ok,
{
    match current_project {
        Some(current) if current == export_project => {
            if workspace_open {
                Ok(())
            } else {
                Err(ExportFrameError::ProjectUnavailable)
            }
        },
        _ => Err(ExportFrameError::ProjectTabChanged),
    }
}

} // verus!
