//! Settings dialog values: choice lists, required integer fields and plugin
//! search paths.
use crate::language::{pick, UiLanguage};
use crate::text::{
    decimal_text, i32_text_value, i64_text, parse_i32_text, string_of, trim_chars, trim_str,
    trimmed,
};
use vstd::prelude::*;

verus! {

/// The theme choices of the settings dialog.
pub const SYSTEM_THEME_VALUES: [&'static str; 3] = ["Dark", "Light", "System"];

/// The UI language choices of the settings dialog.
pub const SYSTEM_UI_LANGUAGE_VALUES: [&'static str; 4] = ["System", "English", "SimplifiedChinese", "Japanese"];

/// The preview multisampling choices.
pub const SYSTEM_PREVIEW_MSAA_SAMPLES: [i32; 4] = [0, 2, 4, 8];

/// The cache baking strategies.
pub const SYSTEM_BAKE_STRATEGIES: [&'static str; 2] = ["OnDemand", "FullBake"];

/// The default video codecs offered for export.
pub const SYSTEM_EXPORT_VIDEO_CODECS: [&'static str; 3] = ["h264_vaapi", "hevc_vaapi", "libx264"];

/// The default audio codecs offered for export.
pub const SYSTEM_EXPORT_AUDIO_CODECS: [&'static str; 4] = ["aac", "opus", "flac", "pcm_s16le"];

/// The audio plugin block sizes.
pub const SYSTEM_AUDIO_BLOCK_SIZES: [i32; 6] = [256, 512, 1024, 2048, 4096, 8192];

/// The plugin formats with their own search paths.
pub const SYSTEM_PLUGIN_FORMATS: [&'static str; 11] = [
    "LADSPA", "DSSI", "LV2", "VST2", "VST3", "CLAP", "SF2", "SFZ", "JSFX", "Effects", "Objects",
];

/// The shortcut rows of the settings dialog: action id and default shortcut.
pub const SYSTEM_SHORTCUT_ROWS: [(&'static str, &'static str); 34] = [
    ("project.new", "Ctrl+N"),
    ("project.open", "Ctrl+O"),
    ("project.save", "Ctrl+S"),
    ("project.saveAs", "Ctrl+Shift+S"),
    ("project.export", "Ctrl+E"),
    ("app.quit", "Ctrl+Q"),
    ("app.settings", "Ctrl+P"),
    ("edit.undo", "Ctrl+Z"),
    ("edit.redo", "Ctrl+Shift+Z"),
    ("edit.cut", "Ctrl+X"),
    ("edit.copy", "Ctrl+C"),
    ("edit.paste", "Ctrl+V"),
    ("edit.delete", "Delete"),
    ("edit.duplicate", "Ctrl+D"),
    ("transport.playPause", "Space"),
    ("transport.nextFrame", "Right"),
    ("transport.prevFrame", "Left"),
    ("transport.jumpStart", "Home"),
    ("transport.jumpEnd", "End"),
    ("view.zoomIn", "Ctrl++"),
    ("view.zoomOut", "Ctrl+-"),
    ("view.timeline", "F3"),
    ("view.objectSettings", "F4"),
    ("project.settings", "Alt+Enter"),
    ("timeline.split", "S"),
    ("timeline.moveUp", "Alt+Up"),
    ("timeline.moveDown", "Alt+Down"),
    ("timeline.nudgeLeft", "Alt+Left"),
    ("timeline.nudgeRight", "Alt+Right"),
    ("timeline.addScene", "Ctrl+T"),
    ("timeline.sceneSettings", "Alt+S"),
    ("timeline.removeScene", "Ctrl+Shift+Delete"),
    ("timeline.layerLock", "Ctrl+L"),
    ("timeline.layerHide", "Ctrl+H"),
];

/// The position of the first choice equal to the value, among `choices`.
pub open spec fn choice_position<T>(choices: Seq<T>, value: T, from: int) -> Option<int>
    decreases choices.len() - from,
{
    if from < 0 || from >= choices.len() {
        None
    } else if choices[from] == value {
        Some(from)
    } else {
        choice_position(choices, value, from + 1)
    }
}

/// The texts of the choices.
pub open spec fn choice_texts(v: Seq<&str>) -> Seq<Seq<char>> {
    v.map_values(|c: &str| c@)
}

/// The index of `value` among the text choices, or `fallback` when it is
/// not one of them.
pub fn choice_index_str(value: &str, choices: &[&str], fallback: usize) -> (r: i32)
    ensures
        r == (match choice_position(choice_texts(choices@), value@, 0) {
            Some(i) => i,
            None => fallback as int,
        }) as i32,
{
    let ghost texts = choice_texts(choices@);
    let mut i: usize = 0;
    while i < choices.len()
        invariant
            i <= choices@.len(),
            texts == choice_texts(choices@),
            choice_position(texts, value@, 0) == choice_position(texts, value@, i as int),
        decreases choices@.len() - i,
    {
        assert(texts[i as int] == choices@[i as int]@);
        if crate::text::str_eq(choices[i], value) {
            return i as i32;
        }
        i = i + 1;
    }
    fallback as i32
}

/// The index of `value` among the integer choices, or `fallback` when it is
/// not one of them.
pub fn choice_index_i32(value: i32, choices: &[i32], fallback: usize) -> (r: i32)
    ensures
        r == (match choice_position(choices@, value, 0) {
            Some(i) => i,
            None => fallback as int,
        }) as i32,
{
    let mut i: usize = 0;
    while i < choices.len()
        invariant
            i <= choices@.len(),
            choice_position(choices@, value, 0) == choice_position(choices@, value, i as int),
        decreases choices@.len() - i,
    {
        if choices[i] == value {
            return i as i32;
        }
        i = i + 1;
    }
    fallback as i32
}

/// The text choice at `index`, or the one at `fallback` when `index` is out
/// of range.
pub fn choice_str<'a>(choices: &'a [&'a str], index: i32, fallback: usize) -> (r: &'a str)
    requires
        fallback < choices@.len(),
    ensures
        r@ == (if 0 <= index < choices@.len() {
            choices@[index as int]@
        } else {
            choices@[fallback as int]@
        }),
{
    if index >= 0 && (index as usize) < choices.len() {
        choices[index as usize]
    } else {
        choices[fallback]
    }
}

/// The integer choice at `index`, or the one at `fallback` when `index` is
/// out of range.
pub fn choice_i32(choices: &[i32], index: i32, fallback: usize) -> (r: i32)
    requires
        fallback < choices@.len(),
    ensures
        r == (if 0 <= index < choices@.len() {
            choices@[index as int]
        } else {
            choices@[fallback as int]
        }),
{
    if index >= 0 && (index as usize) < choices.len() {
        choices[index as usize]
    } else {
        choices[fallback]
    }
}

// ---------------------------------------------------------------------------
// Plugin search paths
// ---------------------------------------------------------------------------

/// The lines of `s`, split at `\n` (possibly empty).
pub open spec fn line_fields(s: Seq<char>) -> Seq<Seq<char>>
    decreases s.len(),
{
    if s.len() == 0 {
        seq![Seq::empty()]
    } else {
        let init = line_fields(s.drop_last());
        if s.last() == '\n' {
            init.push(Seq::empty())
        } else {
            init.update(init.len() - 1, init.last().push(s.last()))
        }
    }
}

/// The trimmed lines that are not blank, in order.
pub open spec fn path_lines(lines: Seq<Seq<char>>) -> Seq<Seq<char>>
    decreases lines.len(),
{
    if lines.len() == 0 {
        seq![]
    } else {
        let rest = path_lines(lines.drop_last());
        let t = trimmed(lines.last());
        if t.len() == 0 {
            rest
        } else {
            rest.push(t)
        }
    }
}

/// The characters of each string.
pub open spec fn string_texts(v: Seq<String>) -> Seq<Seq<char>> {
    v.map_values(|s: String| s@)
}

/// The plugin search paths written one per line in the settings dialog:
/// each line trimmed, blank lines dropped.
pub fn plugin_paths_value(text: &str) -> (r: Vec<String>)
    ensures
        string_texts(r@) == path_lines(line_fields(text@)),
{
    let cs = crate::text::chars_of(text);
    let mut done: Vec<String> = Vec::new();
    let mut current: Vec<char> = Vec::new();
    let mut i: usize = 0;
    assert(cs@.take(0) =~= Seq::<char>::empty());
    assert(string_texts(done@) =~= path_lines(line_fields(cs@.take(0)).drop_last()));
    while i < cs.len()
        invariant
            i <= cs@.len(),
            cs@ == text@,
            line_fields(cs@.take(i as int)).len() >= 1,
            string_texts(done@) == path_lines(line_fields(cs@.take(i as int)).drop_last()),
            current@ == line_fields(cs@.take(i as int)).last(),
        decreases cs@.len() - i,
    {
        let ghost fields = line_fields(cs@.take(i as int));
        let c = cs[i];
        proof {
            assert(cs@.take(i + 1).drop_last() =~= cs@.take(i as int));
            assert(cs@.take(i + 1).last() == c);
        }
        if c == '\n' {
            let t = trim_chars(current.as_slice());
            if t.len() > 0 {
                done.push(string_of(t.as_slice()));
            }
            current = Vec::new();
            proof {
                let after = line_fields(cs@.take(i + 1));
                assert(after.drop_last() =~= fields);
                assert(fields =~= fields.drop_last().push(fields.last()));
                assert(string_texts(done@) =~= path_lines(after.drop_last()));
                assert(current@ =~= after.last());
            }
        } else {
            current.push(c);
            proof {
                let after = line_fields(cs@.take(i + 1));
                assert(after.drop_last() =~= fields.drop_last());
                assert(current@ =~= after.last());
            }
        }
        i = i + 1;
    }
    let t = trim_chars(current.as_slice());
    if t.len() > 0 {
        done.push(string_of(t.as_slice()));
    }
    proof {
        let fields = line_fields(cs@.take(cs@.len() as int));
        assert(cs@.take(cs@.len() as int) =~= cs@);
        assert(fields =~= fields.drop_last().push(fields.last()));
        assert(string_texts(done@) =~= path_lines(line_fields(cs@)));
    }
    done
}

// ---------------------------------------------------------------------------
// Required integer fields
// ---------------------------------------------------------------------------

/// The message for a field that does not hold an integer.
pub open spec fn not_integer_message(language: UiLanguage, label: Seq<char>) -> Seq<char> {
    match language {
        UiLanguage::English => "Enter an integer for "@ + label + "."@,
        UiLanguage::SimplifiedChinese => "请为"@ + label + "输入整数。"@,
        UiLanguage::Japanese => label + "には整数を入力してください"@,
    }
}

/// The message for an integer outside `minimum..=maximum`.
pub open spec fn out_of_range_message(
    language: UiLanguage,
    label: Seq<char>,
    minimum: i32,
    maximum: i32,
) -> Seq<char> {
    let low = decimal_text(minimum as int);
    let high = decimal_text(maximum as int);
    match language {
        UiLanguage::English => "Enter "@ + label + " in the range "@ + low + " to "@ + high + "."@,
        UiLanguage::SimplifiedChinese => "请在 "@ + low + " 到 "@ + high + " 的范围内输入"@ + label
            + "。"@,
        UiLanguage::Japanese => label + "は"@ + low + "から"@ + high + "の範囲で入力してください"@,
    }
}

/// What a required integer field yields: the integer written in it
/// (surrounding whitespace ignored) when it lies in `minimum..=maximum`,
/// otherwise the message that explains the problem.
pub open spec fn required_i32(
    language: UiLanguage,
    value: Seq<char>,
    label: Seq<char>,
    minimum: i32,
    maximum: i32,
) -> Result<i32, Seq<char>> {
    match i32_text_value(trimmed(value)) {
        None => Err(not_integer_message(language, label)),
        Some(v) => if minimum <= v && v <= maximum {
            Ok(v)
        } else {
            Err(out_of_range_message(language, label, minimum, maximum))
        },
    }
}

/// Reads a required integer field of a settings dialog.
pub fn parse_required_i32(
    language: UiLanguage,
    value: &str,
    label: &str,
    minimum: i32,
    maximum: i32,
) -> (r: Result<i32, String>)
    ensures
        match r {
            Ok(v) => required_i32(language, value@, label@, minimum, maximum) == Ok::<
                i32,
                Seq<char>,
            >(v),
            Err(message) => required_i32(language, value@, label@, minimum, maximum) == Err::<
                i32,
                Seq<char>,
            >(message@),
        },
{
    let t = trim_str(value);
    let text = string_of(t.as_slice());
    match parse_i32_text(text.as_str()) {
        None => {
            let mut out = match language {
                UiLanguage::English => String::from_str("Enter an integer for "),
                UiLanguage::SimplifiedChinese => String::from_str("请为"),
                UiLanguage::Japanese => String::new(),
            };
            out.append(label);
            match language {
                UiLanguage::English => out.append("."),
                UiLanguage::SimplifiedChinese => out.append("输入整数。"),
                UiLanguage::Japanese => out.append("には整数を入力してください"),
            }
            Err(out)
        },
        Some(v) => {
            if minimum <= v && v <= maximum {
                Ok(v)
            } else {
                let low = i64_text(minimum as i64);
                let high = i64_text(maximum as i64);
                let mut out = String::new();
                match language {
                    UiLanguage::English => {
                        out.append("Enter ");
                        out.append(label);
                        out.append(" in the range ");
                        out.append(low.as_str());
                        out.append(" to ");
                        out.append(high.as_str());
                        out.append(".");
                    },
                    UiLanguage::SimplifiedChinese => {
                        out.append("请在 ");
                        out.append(low.as_str());
                        out.append(" 到 ");
                        out.append(high.as_str());
                        out.append(" 的范围内输入");
                        out.append(label);
                        out.append("。");
                    },
                    UiLanguage::Japanese => {
                        out.append(label);
                        out.append("は");
                        out.append(low.as_str());
                        out.append("から");
                        out.append(high.as_str());
                        out.append("の範囲で入力してください");
                    },
                }
                Err(out)
            }
        },
    }
}

/// An integer field without bounds: its value, or `fallback` when it does
/// not hold an integer.
pub fn parse_i32_unbounded(value: &str, fallback: i32) -> (r: i32)
    ensures
        r == (match i32_text_value(trimmed(value@)) {
            Some(v) => v,
            None => fallback,
        }),
{
    let t = trim_str(value);
    let text = string_of(t.as_slice());
    match parse_i32_text(text.as_str()) {
        Some(v) => v,
        None => fallback,
    }
}

/// The key and value texts of setting entries.
pub open spec fn entry_texts(v: Seq<(String, String)>) -> Seq<(Seq<char>, Seq<char>)> {
    v.map_values(|e: (String, String)| (e.0@, e.1@))
}

/// The value the last entry with key `k` gives it, if any entry has it.
pub open spec fn last_value(entries: Seq<(Seq<char>, Seq<char>)>, k: Seq<char>) -> Option<Seq<char>>
    decreases entries.len(),
{
    if entries.len() == 0 {
        None
    } else if entries.last().0 == k {
        Some(entries.last().1)
    } else {
        last_value(entries.drop_last(), k)
    }
}

/// No two entries have the same key.
pub open spec fn distinct_keys(entries: Seq<(Seq<char>, Seq<char>)>) -> bool {
    forall|i: int, j: int|
        0 <= i < entries.len() && 0 <= j < entries.len() && i != j ==> entries[i].0 != entries[j].0
}

proof fn lemma_last_value_push(
    entries: Seq<(Seq<char>, Seq<char>)>,
    e: (Seq<char>, Seq<char>),
    k: Seq<char>,
)
    ensures
        last_value(entries.push(e), k) == if e.0 == k {
            Some(e.1)
        } else {
            last_value(entries, k)
        },
{
    assert(entries.push(e).drop_last() =~= entries);
}

proof fn lemma_last_value_absent(entries: Seq<(Seq<char>, Seq<char>)>, k: Seq<char>)
    requires
        forall|i: int| 0 <= i < entries.len() ==> entries[i].0 != k,
    ensures
        last_value(entries, k) is None,
    decreases entries.len(),
{
    if entries.len() > 0 {
        lemma_last_value_absent(entries.drop_last(), k);
    }
}

proof fn lemma_last_value_update(
    entries: Seq<(Seq<char>, Seq<char>)>,
    j: int,
    v: Seq<char>,
    k: Seq<char>,
)
    requires
        distinct_keys(entries),
        0 <= j < entries.len(),
    ensures
        last_value(entries.update(j, (entries[j].0, v)), k) == if k == entries[j].0 {
            Some(v)
        } else {
            last_value(entries, k)
        },
    decreases entries.len(),
{
    let updated = entries.update(j, (entries[j].0, v));
    let n = entries.len() - 1;
    if j == n {
        assert(updated.drop_last() =~= entries.drop_last());
    } else {
        assert(updated.last() == entries.last());
        assert(entries[n].0 != entries[j].0);
        assert(updated.drop_last() =~= entries.drop_last().update(j, (entries[j].0, v)));
        assert(entries.drop_last()[j] == entries[j]);
        lemma_last_value_update(entries.drop_last(), j, v, k);
    }
}

/// Sets the entry for `key` to `value`: in place where an entry has the key,
/// else as a new last entry.
fn set_entry(out: &mut Vec<(String, String)>, key: &String, value: &String)
    requires
        distinct_keys(entry_texts(old(out)@)),
    ensures
        distinct_keys(entry_texts(final(out)@)),
        forall|k: Seq<char>|
            #[trigger] last_value(entry_texts(final(out)@), k) == if k == key@ {
                Some(value@)
            } else {
                last_value(entry_texts(old(out)@), k)
            },
{
    let ghost before = entry_texts(out@);
    let mut j: usize = 0;
    while j < out.len()
        invariant
            j <= out@.len(),
            out@ == old(out)@,
            before == entry_texts(out@),
            distinct_keys(before),
            forall|m: int| 0 <= m < j ==> #[trigger] before[m].0 != key@,
        decreases out@.len() - j,
    {
        if crate::text::str_eq(out[j].0.as_str(), key.as_str()) {
            out.set(j, (key.clone(), value.clone()));
            proof {
                assert(entry_texts(out@) =~= before.update(j as int, (before[j as int].0, value@)));
                assert forall|k: Seq<char>| #[trigger] last_value(entry_texts(out@), k) == if k
                    == key@ {
                    Some(value@)
                } else {
                    last_value(before, k)
                } by {
                    lemma_last_value_update(before, j as int, value@, k);
                }
                assert forall|a: int, b: int|
                    0 <= a < entry_texts(out@).len() && 0 <= b < entry_texts(out@).len() && a
                        != b implies entry_texts(out@)[a].0 != entry_texts(out@)[b].0 by {
                    assert(before[a].0 != before[b].0);
                }
            }
            return;
        }
        j = j + 1;
    }
    out.push((key.clone(), value.clone()));
    proof {
        assert(entry_texts(out@) =~= before.push((key@, value@)));
        assert forall|k: Seq<char>| #[trigger] last_value(entry_texts(out@), k) == if k == key@ {
            Some(value@)
        } else {
            last_value(before, k)
        } by {
            lemma_last_value_push(before, (key@, value@), k);
        }
    }
}

/// The stored shortcut bindings after the settings dialog is saved: each
/// row's action gets the row's shortcut (the last row for an action that
/// comes twice), every other stored action keeps its shortcut, and no
/// action is listed twice.
pub fn merge_shortcut_settings(existing: &[(String, String)], rows: &[(String, String)]) -> (r: Vec<
    (String, String),
>)
    ensures
        distinct_keys(entry_texts(r@)),
        forall|k: Seq<char>|
            #[trigger] last_value(entry_texts(r@), k) == match last_value(entry_texts(rows@), k) {
                Some(v) => Some(v),
                None => last_value(entry_texts(existing@), k),
            },
{
    let mut out: Vec<(String, String)> = Vec::new();
    let mut i: usize = 0;
    assert(entry_texts(out@) =~= Seq::<(Seq<char>, Seq<char>)>::empty());
    while i < existing.len()
        invariant
            i <= existing@.len(),
            distinct_keys(entry_texts(out@)),
            forall|k: Seq<char>|
                #[trigger] last_value(entry_texts(out@), k) == last_value(
                    entry_texts(existing@.take(i as int)),
                    k,
                ),
        decreases existing@.len() - i,
    {
        let ghost prev = entry_texts(out@);
        set_entry(&mut out, &existing[i].0, &existing[i].1);
        proof {
            let e = (existing@[i as int].0@, existing@[i as int].1@);
            assert(entry_texts(existing@.take(i + 1)) =~= entry_texts(existing@.take(i as int)).push(e));
            assert forall|k: Seq<char>| #[trigger] last_value(entry_texts(out@), k) == last_value(
                entry_texts(existing@.take(i + 1)),
                k,
            ) by {
                lemma_last_value_push(entry_texts(existing@.take(i as int)), e, k);
            }
        }
        i = i + 1;
    }
    assert(existing@.take(existing@.len() as int) =~= existing@);
    let mut i: usize = 0;
    assert(entry_texts(rows@.take(0)) =~= Seq::<(Seq<char>, Seq<char>)>::empty());
    while i < rows.len()
        invariant
            i <= rows@.len(),
            distinct_keys(entry_texts(out@)),
            forall|k: Seq<char>|
                #[trigger] last_value(entry_texts(out@), k) == match last_value(
                    entry_texts(rows@.take(i as int)),
                    k,
                ) {
                    Some(v) => Some(v),
                    None => last_value(entry_texts(existing@), k),
                },
        decreases rows@.len() - i,
    {
        set_entry(&mut out, &rows[i].0, &rows[i].1);
        proof {
            let e = (rows@[i as int].0@, rows@[i as int].1@);
            assert(entry_texts(rows@.take(i + 1)) =~= entry_texts(rows@.take(i as int)).push(e));
            assert forall|k: Seq<char>| #[trigger] last_value(entry_texts(out@), k) == match last_value(
                entry_texts(rows@.take(i + 1)),
                k,
            ) {
                Some(v) => Some(v),
                None => last_value(entry_texts(existing@), k),
            } by {
                lemma_last_value_push(entry_texts(rows@.take(i as int)), e, k);
            }
        }
        i = i + 1;
    }
    assert(rows@.take(rows@.len() as int) =~= rows@);
    out
}

} // verus!
