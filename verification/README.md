# aviqtl

The editing and presentation logic of the AviQtl Plus video editor as a
library verified with Verus.

- `src/` is the verified library. Each module states its behaviour in
  `requires`/`ensures` contracts over spec functions, and the properties that
  relate several operations stand as public proof functions (for example
  `color::format_then_parse_roundtrip`,
  `shortcuts::accepted_shortcut_sets_are_conflict_free`,
  `layout::workspace_windows_lie_on_screen`,
  `system_settings::saved_system_settings_reopen_unchanged`,
  `effect_passes::effect_passes_never_overwrite_their_inputs`).
- `tests/` runs the library on concrete values.
- `app/` is ordinary Rust around the library: the settings file's JSON,
  the system locale and fonts, native dialogs, and the editor's
  floating-point timing and zoom rules.

Calls into outside code (std's Unicode tables and number parsing, Slint's
key names, `Path::file_name`) go through small trusted wrappers whose doc
comments say what their contracts claim.
