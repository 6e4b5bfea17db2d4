//! Layer blend modes and the names under which projects store them.
use crate::text::str_eq;
use vstd::prelude::*;

verus! {

/// AviQtl layer blend modes.
#[derive(Debug, Clone, Copy, Default, PartialEq, Eq, Structural)]
pub enum BlendMode {
    #[default]
    Normal,
    Screen,
    Multiply,
    Overlay,
    Add,
    Subtract,
    Lighten,
    Darken,
    Invert,
    SoftLight,
    HardLight,
    Difference,
    Hue,
    Saturation,
    Color,
    Luminosity,
}

impl BlendMode {
    /// The mode that a persisted name selects: the Japanese label or an
    /// English alias of a mode, and `Normal` for every other name.
    pub open spec fn named(name: Seq<char>) -> BlendMode {
        if name == "スクリーン"@ || name == "screen"@ {
            BlendMode::Screen
        } else if name == "乗算"@ || name == "multiply"@ {
            BlendMode::Multiply
        } else if name == "オーバーレイ"@ || name == "overlay"@ {
            BlendMode::Overlay
        } else if name == "加算"@ || name == "add"@ {
            BlendMode::Add
        } else if name == "減算"@ || name == "subtract"@ {
            BlendMode::Subtract
        } else if name == "比較（明）"@ || name == "比較明"@ || name == "lighten"@ {
            BlendMode::Lighten
        } else if name == "比較（暗）"@ || name == "比較暗"@ || name == "darken"@ {
            BlendMode::Darken
        } else if name == "色反転"@ || name == "invert"@ {
            BlendMode::Invert
        } else if name == "ソフトライト"@ || name == "soft light"@ || name == "soft_light"@
            || name == "softlight"@ {
            BlendMode::SoftLight
        } else if name == "ハードライト"@ || name == "hard light"@ || name == "hard_light"@
            || name == "hardlight"@ {
            BlendMode::HardLight
        } else if name == "差の絶対値"@ || name == "difference"@ {
            BlendMode::Difference
        } else if name == "色相"@ || name == "hue"@ {
            BlendMode::Hue
        } else if name == "彩度"@ || name == "saturation"@ {
            BlendMode::Saturation
        } else if name == "カラー"@ || name == "color"@ {
            BlendMode::Color
        } else if name == "輝度"@ || name == "luminosity"@ {
            BlendMode::Luminosity
        } else {
            BlendMode::Normal
        }
    }

    /// Maps AviQtl's persisted transform labels to a supported blend mode.
    pub fn from_aviqtl_name(name: &str) -> (mode: Self)
        ensures
            mode == Self::named(name@),
    {
        if str_eq(name, "スクリーン") || str_eq(name, "screen") {
            BlendMode::Screen
        } else if str_eq(name, "乗算") || str_eq(name, "multiply") {
            BlendMode::Multiply
        } else if str_eq(name, "オーバーレイ") || str_eq(name, "overlay") {
            BlendMode::Overlay
        } else if str_eq(name, "加算") || str_eq(name, "add") {
            BlendMode::Add
        } else if str_eq(name, "減算") || str_eq(name, "subtract") {
            BlendMode::Subtract
        } else if str_eq(name, "比較（明）") || str_eq(name, "比較明") || str_eq(name, "lighten") {
            BlendMode::Lighten
        } else if str_eq(name, "比較（暗）") || str_eq(name, "比較暗") || str_eq(name, "darken") {
            BlendMode::Darken
        } else if str_eq(name, "色反転") || str_eq(name, "invert") {
            BlendMode::Invert
        } else if str_eq(name, "ソフトライト") || str_eq(name, "soft light") || str_eq(
            name,
            "soft_light",
        ) || str_eq(name, "softlight") {
            BlendMode::SoftLight
        } else if str_eq(name, "ハードライト") || str_eq(name, "hard light") || str_eq(
            name,
            "hard_light",
        ) || str_eq(name, "hardlight") {
            BlendMode::HardLight
        } else if str_eq(name, "差の絶対値") || str_eq(name, "difference") {
            BlendMode::Difference
        } else if str_eq(name, "色相") || str_eq(name, "hue") {
            BlendMode::Hue
        } else if str_eq(name, "彩度") || str_eq(name, "saturation") {
            BlendMode::Saturation
        } else if str_eq(name, "カラー") || str_eq(name, "color") {
            BlendMode::Color
        } else if str_eq(name, "輝度") || str_eq(name, "luminosity") {
            BlendMode::Luminosity
        } else {
            BlendMode::Normal
        }
    }

    /// The index of the mode in the compositor shader's blend switch.
    pub open spec fn shader_index(self) -> u32 {
        match self {
            BlendMode::Normal => 0,
            BlendMode::Screen => 1,
            BlendMode::Multiply => 2,
            BlendMode::Overlay => 3,
            BlendMode::Add => 4,
            BlendMode::Subtract => 5,
            BlendMode::Lighten => 6,
            BlendMode::Darken => 7,
            BlendMode::Invert => 8,
            BlendMode::SoftLight => 9,
            BlendMode::HardLight => 10,
            BlendMode::Difference => 11,
            BlendMode::Hue => 12,
            BlendMode::Saturation => 13,
            BlendMode::Color => 14,
            BlendMode::Luminosity => 15,
        }
    }

    /// The value that selects this mode in the compositor shader.
    pub fn shader_id(self) -> (id: u32)
        ensures
            id == self.shader_index(),
    {
        match self {
            BlendMode::Normal => 0,
            BlendMode::Screen => 1,
            BlendMode::Multiply => 2,
            BlendMode::Overlay => 3,
            BlendMode::Add => 4,
            BlendMode::Subtract => 5,
            BlendMode::Lighten => 6,
            BlendMode::Darken => 7,
            BlendMode::Invert => 8,
            BlendMode::SoftLight => 9,
            BlendMode::HardLight => 10,
            BlendMode::Difference => 11,
            BlendMode::Hue => 12,
            BlendMode::Saturation => 13,
            BlendMode::Color => 14,
            BlendMode::Luminosity => 15,
        }
    }
}

/// Distinct blend modes select distinct shader values, and each shader value
/// is below the number of modes.
pub proof fn shader_ids_are_distinct(a: BlendMode, b: BlendMode)
    ensures
        a.shader_index() < 16,
        a.shader_index() == b.shader_index() <==> a == b,
{
}

} // verus!
