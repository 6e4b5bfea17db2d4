//! Small presentation rules of the timeline and its context menu.
use crate::text::{decimal_text, i64_text, str_eq, string_of};
use vstd::prelude::*;

verus! {

/// `n` zero digits.
pub open spec fn zeros(n: nat) -> Seq<char> {
    Seq::new(n, |i: int| '0')
}

/// `digits` padded on the left with zeros to at least `width` characters.
pub open spec fn zero_padded(digits: Seq<char>, width: int) -> Seq<char> {
    if digits.len() >= width {
        digits
    } else {
        zeros((width - digits.len()) as nat) + digits
    }
}

/// The transport's frame counter: the playhead zero-padded to the width of
/// the duration, a slash, and the duration; negative values count as zero.
pub open spec fn frame_counter(playhead: i32, duration: i32) -> Seq<char> {
    let total: int = if duration < 0 {
        0
    } else {
        duration as int
    };
    let current: int = if playhead < 0 {
        0
    } else {
        playhead as int
    };
    zero_padded(decimal_text(current), decimal_text(total).len() as int) + " / "@ + decimal_text(
        total,
    )
}

/// Formats the frame counter of the transport bar.
pub fn frame_counter_text(playhead: i32, duration: i32) -> (r: String)
    ensures
        r@ == frame_counter(playhead, duration),
{
    let total: i64 = if duration < 0 {
        0
    } else {
        duration as i64
    };
    let current: i64 = if playhead < 0 {
        0
    } else {
        playhead as i64
    };
    let total_text = i64_text(total);
    let current_text = i64_text(current);
    let width = crate::text::chars_of(total_text.as_str()).len();
    let digits = crate::text::chars_of(current_text.as_str());
    let pad: usize = if width > digits.len() {
        width - digits.len()
    } else {
        0
    };
    let mut padded: Vec<char> = Vec::new();
    let mut z: usize = 0;
    while z < pad
        invariant
            z <= pad,
            padded@ == zeros(z as nat),
        decreases pad - z,
    {
        padded.push('0');
        z = z + 1;
        assert(padded@ =~= zeros(z as nat));
    }
    let mut i: usize = 0;
    let ghost leading = padded@;
    while i < digits.len()
        invariant
            i <= digits@.len(),
            padded@ == leading + digits@.take(i as int),
        decreases digits@.len() - i,
    {
        padded.push(digits[i]);
        i = i + 1;
        assert(padded@ =~= leading + digits@.take(i as int));
    }
    assert(digits@.take(digits@.len() as int) =~= digits@);
    proof {
        if digits@.len() >= width {
            assert(leading =~= Seq::<char>::empty());
            assert(padded@ =~= digits@);
        }
    }
    let mut out = string_of(padded.as_slice());
    out.append(" / ");
    out.append(total_text.as_str());
    out
}

/// The selection after moving `step` rows through `count` search results:
/// with nothing selected, moving down starts before the first row and
/// moving up after the last; the result stays within the rows, and is -1
/// when there are none.
pub open spec fn moved_selection(selected: i32, count: int, step: i32) -> int {
    if count == 0 {
        -1
    } else {
        let last = count - 1;
        let start: int = if selected < 0 {
            if step > 0 {
                -1
            } else {
                count
            }
        } else {
            selected as int
        };
        let target = start + step;
        if target < 0 {
            0
        } else if target > last {
            last
        } else {
            target
        }
    }
}

/// Moves the keyboard selection in the searchable context menu.
pub fn moved_context_search_selection(selected: i32, count: usize, step: i32) -> (r: i32)
    requires
        count <= i32::MAX,
        selected >= 0 ==> i32::MIN <= selected + step <= i32::MAX,
        selected < 0 && step <= 0 ==> i32::MIN <= count + step,
    ensures
        r == moved_selection(selected, count as int, step),
{
    if count == 0 {
        return -1;
    }
    let last = count as i32 - 1;
    let start: i32 = if selected < 0 {
        if step > 0 {
            -1
        } else {
            count as i32
        }
    } else {
        selected
    };
    let target = start + step;
    if target < 0 {
        0
    } else if target > last {
        last
    } else {
        target
    }
}

/// The fill colour of a timeline clip of the given type and whether its
/// label uses dark text (luma above 60% of white); `None` for clip types that
/// keep the theme colour.
pub open spec fn clip_style(clip_type: Seq<char>) -> Option<(Seq<u8>, bool)> {
    let audio = seq![0xd0u8, 0x30u8, 0x30u8];
    let object = seq![0x3bu8, 0x82u8, 0xf6u8];
    if clip_type == "audio"@ {
        Some((audio, luma_is_light(audio)))
    } else if clip_type == "counter"@ || clip_type == "flare"@ || clip_type
        == "lens_flare_object"@ || clip_type == "pie_shape"@ || clip_type == "polygon_shape"@
        || clip_type == "radial_lines"@ || clip_type == "star"@ || clip_type == "track_line"@ {
        Some((object, luma_is_light(object)))
    } else {
        None
    }
}

/// The Rec. 601 luma of an RGB colour exceeds 60% of white
/// (`0.299 r + 0.587 g + 0.114 b > 0.6 * 255`), in thousandths.
pub open spec fn luma_is_light(rgb: Seq<u8>) -> bool {
    299 * rgb[0] + 587 * rgb[1] + 114 * rgb[2] > 153000
}

fn light_luma(rgb: [u8; 3]) -> (r: bool)
    ensures
        r == luma_is_light(rgb@),
{
    299 * (rgb[0] as u32) + 587 * (rgb[1] as u32) + 114 * (rgb[2] as u32) > 153000
}

/// The timeline colour of a clip type (see `clip_style`).
pub fn timeline_clip_style(clip_type: &str) -> (r: Option<([u8; 3], bool)>)
    ensures
        r matches Some(s) ==> clip_style(clip_type@) == Some((s.0@, s.1)),
        r is None ==> clip_style(clip_type@) is None,
{
    let rgb: [u8; 3] = if str_eq(clip_type, "audio") {
        [0xd0, 0x30, 0x30]
    } else if str_eq(clip_type, "counter") || str_eq(clip_type, "flare") || str_eq(
        clip_type,
        "lens_flare_object",
    ) || str_eq(clip_type, "pie_shape") || str_eq(clip_type, "polygon_shape") || str_eq(
        clip_type,
        "radial_lines",
    ) || str_eq(clip_type, "star") || str_eq(clip_type, "track_line") {
        [0x3b, 0x82, 0xf6]
    } else {
        return None;
    };
    assert(rgb@ =~= seq![0xd0u8, 0x30u8, 0x30u8] || rgb@ =~= seq![0x3bu8, 0x82u8, 0xf6u8]);
    Some((rgb, light_luma(rgb)))
}

/// A layer row of the timeline's header.
#[derive(Debug, Clone, Copy, PartialEq, Eq, Structural)]
pub struct LayerRow {
    pub index: i32,
    pub visible: bool,
    pub locked: bool,
    pub selected: bool,
}

/// The layer rows of a timeline that shows `maximum_layers` layers (kept to
/// `1..=max_layers`): each visible unless the scene hides it, locked when the
/// scene locks it, selected when it is the selected layer. Without a scene
/// every layer is visible and none locked.
pub open spec fn layer_rows(
    maximum_layers: i32,
    max_layers: int,
    has_scene: bool,
    hidden: Seq<i32>,
    locked: Seq<i32>,
    selected_layer: i32,
) -> Seq<LayerRow> {
    Seq::new(
        crate::layout::clamp_int(maximum_layers as int, 1, max_layers) as nat,
        |i: int|
            LayerRow {
                index: i as i32,
                visible: !has_scene || !hidden.contains(i as i32),
                locked: has_scene && locked.contains(i as i32),
                selected: i == selected_layer,
            },
    )
}

fn holds_layer(layers: &[i32], index: i32) -> (r: bool)
    ensures
        r == layers@.contains(index),
{
    let mut i: usize = 0;
    while i < layers.len()
        invariant
            i <= layers@.len(),
            forall|k: int| 0 <= k < i ==> layers@[k] != index,
        decreases layers@.len() - i,
    {
        if layers[i] == index {
            assert(layers@[i as int] == index);
            return true;
        }
        i = i + 1;
    }
    false
}

/// The layer rows of the timeline's header; `max_layers` is the most
/// layers the editor has.
pub fn timeline_layer_rows(
    maximum_layers: i32,
    max_layers: i32,
    has_scene: bool,
    hidden: &[i32],
    locked: &[i32],
    selected_layer: i32,
) -> (r: Vec<LayerRow>)
    requires
        1 <= max_layers,
    ensures
        r@ == layer_rows(maximum_layers, max_layers as int, has_scene, hidden@, locked@, selected_layer),
{
    let count: i32 = if maximum_layers < 1 {
        1
    } else if maximum_layers > max_layers {
        max_layers
    } else {
        maximum_layers
    };
    let ghost rows = layer_rows(maximum_layers, max_layers as int, has_scene, hidden@, locked@, selected_layer);
    let mut out: Vec<LayerRow> = Vec::new();
    let mut index: i32 = 0;
    while index < count
        invariant
            0 <= index <= count,
            count == rows.len(),
            rows == layer_rows(maximum_layers, max_layers as int, has_scene, hidden@, locked@, selected_layer),
            out@ == rows.take(index as int),
        decreases count - index,
    {
        let visible = !has_scene || !holds_layer(hidden, index);
        let is_locked = has_scene && holds_layer(locked, index);
        out.push(LayerRow { index, visible, locked: is_locked, selected: index == selected_layer });
        index = index + 1;
        proof {
            assert(out@ =~= rows.take(index as int));
        }
    }
    proof {
        assert(rows.take(count as int) =~= rows);
    }
    out
}

/// The position of a scene's grid mode in the scene settings: `BPM` 1,
/// `Frame` 2, anything else 0.
pub fn grid_mode_index(mode: &str) -> (r: i32)
    ensures
        r == if mode@ == "BPM"@ {
            1i32
        } else if mode@ == "Frame"@ {
            2i32
        } else {
            0i32
        },
{
    if str_eq(mode, "BPM") {
        1
    } else if str_eq(mode, "Frame") {
        2
    } else {
        0
    }
}

} // verus!
