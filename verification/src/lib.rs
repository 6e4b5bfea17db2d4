//! Verified editing and presentation logic of the AviQtl Plus video editor:
//! colour and file-filter parsing; keyboard shortcuts (parsing, matching,
//! recording, validation and dispatch); UI language selection and
//! translation lookup; window layout and workspaces; the settings dialogs
//! and the settings the editor runs with; recent-project lists; export
//! choices and labels; the timeline's context menu, layer rows and file
//! drops; playback and waveform job scheduling; the object settings rows
//! and effect picker; and, for the compositor, blend modes, effect render
//! passes, layer caching, pixel conversion and font selection.

pub mod text;
pub mod blend;
pub mod color;
pub mod language;
pub mod shortcuts;
pub mod translations;
pub mod raster;
pub mod file_filters;
pub mod layout;
pub mod recent;
pub mod export;
pub mod timeline_ui;
pub mod permissions;
pub mod launch_args;
pub mod fonts;
pub mod easing;
pub mod settings;
pub mod keyframes;
pub mod catalog;
pub mod system_settings;
pub mod dispatch;
pub mod effect_passes;
pub mod layer_cache;
pub mod object_rows;
pub mod file_drop;
pub mod recording;
pub mod playback_jobs;
pub mod runtime_settings;
