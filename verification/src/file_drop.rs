//! Dropping files from the desktop onto the timeline. The window reports
//! the cursor, the modifier keys and the files hovering and dropping; this
//! state machine decides what the timeline is told. Files dropped together
//! are placed one after another: each lands where the previous one ended.
use vstd::prelude::*;

verus! {

/// A frame and layer on the timeline.
#[derive(Debug, Clone, Copy, PartialEq, Eq, Structural)]
pub struct DropTarget {
    pub frame: i32,
    pub layer: i32,
}

/// What the drop handler remembers between window events.
#[derive(Debug, Clone, Copy, PartialEq, Eq, Structural)]
pub struct FileDropState {
    /// The cursor's position is known (the window keeps the coordinates).
    pub has_cursor: bool,
    /// Shift is held.
    pub shift: bool,
    /// The number of files hovering over the window.
    pub hovered_files: usize,
    /// Where the next dropped file of the current drop goes.
    pub next_target: Option<DropTarget>,
}

/// A window event that concerns dropping files.
#[derive(Debug, Clone, Copy, PartialEq, Eq, Structural)]
pub enum FileDropEvent {
    CursorMoved,
    ModifiersChanged { shift: bool },
    HoveredFile,
    HoveredFileCancelled,
    DroppedFile,
}

/// What the timeline is told.
#[derive(Debug, Clone, Copy, PartialEq, Eq, Structural)]
pub enum FileDropAction {
    /// Nothing.
    Nothing,
    /// Files hover at the cursor (with Shift held or not).
    Hover { shift: bool },
    /// The hovering files left.
    Left,
    /// Drop the file at this target, without snapping.
    DropAt { target: DropTarget },
    /// Drop the file at the cursor (with Shift held or not).
    DropAtCursor { shift: bool },
    /// The file cannot be placed: it is not imported.
    DropNowhere,
}

/// The handler before any event.
pub open spec fn initial_drop_state() -> FileDropState {
    FileDropState { has_cursor: false, shift: false, hovered_files: 0, next_target: None }
}

/// The state after an event, and what the timeline is told.
pub open spec fn drop_step(s: FileDropState, e: FileDropEvent) -> (FileDropState, FileDropAction) {
    match e {
        FileDropEvent::CursorMoved => {
            let t = FileDropState { has_cursor: true, ..s };
            (t, if s.hovered_files > 0 {
                FileDropAction::Hover { shift: s.shift }
            } else {
                FileDropAction::Nothing
            })
        },
        FileDropEvent::ModifiersChanged { shift } => {
            let t = FileDropState { shift, ..s };
            (t, if s.hovered_files > 0 && s.has_cursor {
                FileDropAction::Hover { shift }
            } else {
                FileDropAction::Nothing
            })
        },
        FileDropEvent::HoveredFile => {
            let t = FileDropState {
                hovered_files: if s.hovered_files == usize::MAX {
                    usize::MAX
                } else {
                    (s.hovered_files + 1) as usize
                },
                next_target: if s.hovered_files == 0 {
                    None
                } else {
                    s.next_target
                },
                ..s
            };
            (t, if s.has_cursor {
                FileDropAction::Hover { shift: s.shift }
            } else {
                FileDropAction::Nothing
            })
        },
        FileDropEvent::HoveredFileCancelled => {
            (FileDropState { hovered_files: 0, next_target: None, ..s }, FileDropAction::Left)
        },
        FileDropEvent::DroppedFile => {
            let t = FileDropState {
                hovered_files: if s.hovered_files == 0 {
                    0
                } else {
                    (s.hovered_files - 1) as usize
                },
                ..s
            };
            (t, match s.next_target {
                Some(target) => FileDropAction::DropAt { target },
                None => if s.has_cursor {
                    FileDropAction::DropAtCursor { shift: s.shift }
                } else {
                    FileDropAction::DropNowhere
                },
            })
        },
    }
}

/// Handles one window event.
pub fn file_drop_step(s: FileDropState, e: FileDropEvent) -> (r: (FileDropState, FileDropAction))
    ensures
        r == drop_step(s, e),
{
    match e {
        FileDropEvent::CursorMoved => {
            let t = FileDropState { has_cursor: true, ..s };
            (t, if s.hovered_files > 0 {
                FileDropAction::Hover { shift: s.shift }
            } else {
                FileDropAction::Nothing
            })
        },
        FileDropEvent::ModifiersChanged { shift } => {
            let t = FileDropState { shift, ..s };
            (t, if s.hovered_files > 0 && s.has_cursor {
                FileDropAction::Hover { shift }
            } else {
                FileDropAction::Nothing
            })
        },
        FileDropEvent::HoveredFile => {
            let t = FileDropState {
                hovered_files: s.hovered_files.saturating_add(1),
                next_target: if s.hovered_files == 0 {
                    None
                } else {
                    s.next_target
                },
                ..s
            };
            (t, if s.has_cursor {
                FileDropAction::Hover { shift: s.shift }
            } else {
                FileDropAction::Nothing
            })
        },
        FileDropEvent::HoveredFileCancelled => {
            (FileDropState { hovered_files: 0, next_target: None, ..s }, FileDropAction::Left)
        },
        FileDropEvent::DroppedFile => {
            let t = FileDropState { hovered_files: s.hovered_files.saturating_sub(1), ..s };
            (t, match s.next_target {
                Some(target) => FileDropAction::DropAt { target },
                None => if s.has_cursor {
                    FileDropAction::DropAtCursor { shift: s.shift }
                } else {
                    FileDropAction::DropNowhere
                },
            })
        },
    }
}

/// After a drop: an imported file makes the next file of the drop go where
/// it ended. The second result says whether the drop is over (no file
/// hovers any more).
pub open spec fn drop_outcome(
    s: FileDropState,
    imported: bool,
    next_frame: i32,
    next_layer: i32,
) -> (FileDropState, bool) {
    (
        if imported {
            FileDropState {
                next_target: Some(DropTarget { frame: next_frame, layer: next_layer }),
                ..s
            }
        } else {
            s
        },
        s.hovered_files == 0,
    )
}

/// Takes in what the timeline did with a dropped file.
pub fn file_drop_outcome(s: FileDropState, imported: bool, next_frame: i32, next_layer: i32) -> (r: (
    FileDropState,
    bool,
))
    ensures
        r == drop_outcome(s, imported, next_frame, next_layer),
{
    let t = if imported {
        FileDropState {
            next_target: Some(DropTarget { frame: next_frame, layer: next_layer }),
            ..s
        }
    } else {
        s
    };
    (t, s.hovered_files == 0)
}

/// Of several files dropped together, each after the first lands where the
/// one before it ended; a new hover after the drop is over starts afresh.
pub proof fn dropped_files_follow_one_another(
    s: FileDropState,
    next_frame: i32,
    next_layer: i32,
)
    ensures
        drop_step(drop_outcome(s, true, next_frame, next_layer).0, FileDropEvent::DroppedFile).1
            == (FileDropAction::DropAt {
            target: DropTarget { frame: next_frame, layer: next_layer },
        }),
        s.hovered_files == 0 ==> drop_step(s, FileDropEvent::HoveredFile).0.next_target is None,
        drop_step(s, FileDropEvent::HoveredFileCancelled).0.next_target is None,
{
}

} // verus!
