//! What a command shortcut does: which part of the editor carries it out,
//! and where on the timeline an edit by shortcut acts.
use crate::layout::clamp_int;
use crate::shortcuts::ShortcutAction;
use vstd::prelude::*;

verus! {

/// How a command shortcut is carried out.
#[derive(Debug, Clone, Copy, PartialEq, Eq, Structural)]
pub enum ShortcutDispatch {
    /// The main window's command of the same name.
    MainWindow,
    /// The timeline window's dialog for a new scene.
    AddScene,
    /// The settings of the selected scene.
    SceneSettings,
    /// One zoom step of the timeline, in (`1`) or out (`-1`).
    Zoom { direction: i32 },
    /// The selected clips moved by layers and frames.
    MoveClips { layers: i32, frames: i32 },
    /// Another edit of the current workspace, at the shortcut's target.
    EditTimeline,
}

/// How each command is carried out.
pub open spec fn dispatch_of(action: ShortcutAction) -> ShortcutDispatch {
    match action {
        ShortcutAction::AddScene => ShortcutDispatch::AddScene,
        ShortcutAction::SceneSettings => ShortcutDispatch::SceneSettings,
        ShortcutAction::ZoomIn => ShortcutDispatch::Zoom { direction: 1 },
        ShortcutAction::ZoomOut => ShortcutDispatch::Zoom { direction: -1i32 },
        ShortcutAction::MoveUp => ShortcutDispatch::MoveClips { layers: -1i32, frames: 0 },
        ShortcutAction::MoveDown => ShortcutDispatch::MoveClips { layers: 1, frames: 0 },
        ShortcutAction::NudgeLeft => ShortcutDispatch::MoveClips { layers: 0, frames: -1i32 },
        ShortcutAction::NudgeRight => ShortcutDispatch::MoveClips { layers: 0, frames: 1 },
        ShortcutAction::Copy | ShortcutAction::Cut | ShortcutAction::Paste
        | ShortcutAction::Delete | ShortcutAction::Duplicate | ShortcutAction::JumpStart
        | ShortcutAction::JumpEnd | ShortcutAction::Split | ShortcutAction::RemoveScene
        | ShortcutAction::ToggleLayerLock | ShortcutAction::ToggleLayerVisibility => {
            ShortcutDispatch::EditTimeline
        },
        _ => ShortcutDispatch::MainWindow,
    }
}

/// How a command shortcut is carried out: window commands by the main
/// window, scene dialogs by the timeline window, zoom steps and clip moves
/// with their direction, and the other timeline edits on the workspace.
pub fn shortcut_dispatch(action: ShortcutAction) -> (r: ShortcutDispatch)
    ensures
        r == dispatch_of(action),
{
    match action {
        ShortcutAction::AddScene => ShortcutDispatch::AddScene,
        ShortcutAction::SceneSettings => ShortcutDispatch::SceneSettings,
        ShortcutAction::ZoomIn => ShortcutDispatch::Zoom { direction: 1 },
        ShortcutAction::ZoomOut => ShortcutDispatch::Zoom { direction: -1 },
        ShortcutAction::MoveUp => ShortcutDispatch::MoveClips { layers: -1, frames: 0 },
        ShortcutAction::MoveDown => ShortcutDispatch::MoveClips { layers: 1, frames: 0 },
        ShortcutAction::NudgeLeft => ShortcutDispatch::MoveClips { layers: 0, frames: -1 },
        ShortcutAction::NudgeRight => ShortcutDispatch::MoveClips { layers: 0, frames: 1 },
        ShortcutAction::Copy | ShortcutAction::Cut | ShortcutAction::Paste
        | ShortcutAction::Delete | ShortcutAction::Duplicate | ShortcutAction::JumpStart
        | ShortcutAction::JumpEnd | ShortcutAction::Split | ShortcutAction::RemoveScene
        | ShortcutAction::ToggleLayerLock | ShortcutAction::ToggleLayerVisibility => {
            ShortcutDispatch::EditTimeline
        },
        _ => ShortcutDispatch::MainWindow,
    }
}

/// Where a timeline edit by shortcut acts: at the skimmer when the binding
/// follows it and the skimmer is shown, else at the playhead on the
/// selected layer.
#[derive(Debug, Clone, Copy, PartialEq, Eq, Structural)]
pub struct ShortcutTarget {
    pub skimmer: bool,
    pub frame: i32,
    pub layer: i32,
}

/// The target of a timeline edit by shortcut.
pub fn shortcut_target(
    use_skimmer: bool,
    skimmer_visible: bool,
    skimmer_frame: i32,
    skimmer_layer: i32,
    playhead: i32,
    selected_layer: i32,
) -> (r: ShortcutTarget)
    ensures
        r.skimmer == (use_skimmer && skimmer_visible),
        r.frame == if r.skimmer {
            skimmer_frame
        } else {
            playhead
        },
        r.layer == if r.skimmer {
            skimmer_layer
        } else {
            selected_layer
        },
{
    let skimmer = use_skimmer && skimmer_visible;
    ShortcutTarget {
        skimmer,
        frame: if skimmer { skimmer_frame } else { playhead },
        layer: if skimmer { skimmer_layer } else { selected_layer },
    }
}

/// The last layer of a timeline that shows `maximum_layers` layers, the
/// count kept to `1..=max_layers`.
pub open spec fn last_layer(maximum_layers: i32, max_layers: int) -> int {
    clamp_int(maximum_layers as int, 1, max_layers) - 1
}

/// The skimmer position after a paste or a duplicate at the skimmer: the
/// frame at least zero, the layer kept to the timeline's layers.
/// `maximum_layers` is the timeline's layer count and `max_layers` the most
/// layers the editor has.
pub fn advanced_skimmer_position(frame: i32, layer: i32, maximum_layers: i32, max_layers: i32) -> (r: (
    i32,
    i32,
))
    requires
        1 <= max_layers,
    ensures
        r.0 == if frame < 0 {
            0
        } else {
            frame as int
        },
        r.1 == clamp_int(layer as int, 0, last_layer(maximum_layers, max_layers as int)),
{
    let shown = if maximum_layers < 1 {
        1
    } else if maximum_layers > max_layers {
        max_layers
    } else {
        maximum_layers
    };
    let last = shown - 1;
    let next_layer = if layer < 0 {
        0
    } else if layer > last {
        last
    } else {
        layer
    };
    (if frame < 0 { 0 } else { frame }, next_layer)
}

} // verus!
