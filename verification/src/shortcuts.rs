//! Keyboard shortcuts: the Qt-style text form (`Ctrl+Shift+Z`, `Alt+Enter`,
//! `Ctrl++`), its parsing, matching against key events, recording from key
//! events, and the validation of a whole set of bindings.
use crate::language::{pick, localized, UiLanguage};
use crate::text::{
    ascii_lowercase, ascii_lowercase_chars, char_is_control, chars_eq, chars_equal_str,
    is_control_char, lowercase_chars, string_of, trim_chars, trim_str, trimmed,
    unicode_lowercase, unicode_uppercase, uppercase_chars, ascii_or_private,
};
use slint::platform::Key;
use vstd::prelude::*;

verus! {

// ---------------------------------------------------------------------------
// Named keys
// ---------------------------------------------------------------------------

/// The number of named keys that shortcuts can use.
pub const NAMED_KEY_COUNT: usize = 26;

/// The character by which Slint reports the `index`-th named key, in the
/// order LeftArrow, RightArrow, UpArrow, DownArrow, Escape, Tab, Backspace,
/// Return, Space, Delete, Home, End, PageUp, PageDown, F1 … F12.
pub open spec fn slint_key_code(index: int) -> char {
    if index == 0 {
        '\u{F702}'
    } else if index == 1 {
        '\u{F703}'
    } else if index == 2 {
        '\u{F700}'
    } else if index == 3 {
        '\u{F701}'
    } else if index == 4 {
        '\u{1b}'
    } else if index == 5 {
        '\u{9}'
    } else if index == 6 {
        '\u{8}'
    } else if index == 7 {
        '\u{a}'
    } else if index == 8 {
        ' '
    } else if index == 9 {
        '\u{7f}'
    } else if index == 10 {
        '\u{F729}'
    } else if index == 11 {
        '\u{F72B}'
    } else if index == 12 {
        '\u{F72C}'
    } else if index == 13 {
        '\u{F72D}'
    } else {
        // F1 .. F12
        ((0xF704 + (index - 14)) as u32) as char
    }
}

/// `char::from(slint::platform::Key)` for the named key at `index` of the
/// order above; the codes are those of Slint's `for_each_keys` key table.
#[verifier::external_body]
fn slint_key_char(index: usize) -> (c: char)
    requires
        index < NAMED_KEY_COUNT,
    ensures
        c == slint_key_code(index as int),
{
    char::from([Key::LeftArrow, Key::RightArrow, Key::UpArrow, Key::DownArrow, Key::Escape,
        Key::Tab, Key::Backspace, Key::Return, Key::Space, Key::Delete, Key::Home, Key::End,
        Key::PageUp, Key::PageDown, Key::F1, Key::F2, Key::F3, Key::F4, Key::F5, Key::F6,
        Key::F7, Key::F8, Key::F9, Key::F10, Key::F11, Key::F12][index])
}

/// The named key that a lowercase key name stands for.
pub open spec fn named_key_index(name: Seq<char>) -> Option<int> {
    if name == "left"@ || name == "arrowleft"@ {
        Some(0)
    } else if name == "right"@ || name == "arrowright"@ {
        Some(1)
    } else if name == "up"@ || name == "arrowup"@ {
        Some(2)
    } else if name == "down"@ || name == "arrowdown"@ {
        Some(3)
    } else if name == "escape"@ || name == "esc"@ {
        Some(4)
    } else if name == "tab"@ {
        Some(5)
    } else if name == "backspace"@ {
        Some(6)
    } else if name == "enter"@ || name == "return"@ {
        Some(7)
    } else if name == "space"@ {
        Some(8)
    } else if name == "delete"@ || name == "del"@ {
        Some(9)
    } else if name == "home"@ {
        Some(10)
    } else if name == "end"@ {
        Some(11)
    } else if name == "pageup"@ {
        Some(12)
    } else if name == "pagedown"@ {
        Some(13)
    } else if name == "f1"@ {
        Some(14)
    } else if name == "f2"@ {
        Some(15)
    } else if name == "f3"@ {
        Some(16)
    } else if name == "f4"@ {
        Some(17)
    } else if name == "f5"@ {
        Some(18)
    } else if name == "f6"@ {
        Some(19)
    } else if name == "f7"@ {
        Some(20)
    } else if name == "f8"@ {
        Some(21)
    } else if name == "f9"@ {
        Some(22)
    } else if name == "f10"@ {
        Some(23)
    } else if name == "f11"@ {
        Some(24)
    } else if name == "f12"@ {
        Some(25)
    } else {
        None
    }
}

fn find_named_key(name: &[char]) -> (r: Option<usize>)
    ensures
        r matches Some(i) ==> named_key_index(name@) == Some(i as int) && i < NAMED_KEY_COUNT,
        r is None ==> named_key_index(name@) is None,
{
    if chars_equal_str(name, "left") || chars_equal_str(name, "arrowleft") {
        Some(0)
    } else if chars_equal_str(name, "right") || chars_equal_str(name, "arrowright") {
        Some(1)
    } else if chars_equal_str(name, "up") || chars_equal_str(name, "arrowup") {
        Some(2)
    } else if chars_equal_str(name, "down") || chars_equal_str(name, "arrowdown") {
        Some(3)
    } else if chars_equal_str(name, "escape") || chars_equal_str(name, "esc") {
        Some(4)
    } else if chars_equal_str(name, "tab") {
        Some(5)
    } else if chars_equal_str(name, "backspace") {
        Some(6)
    } else if chars_equal_str(name, "enter") || chars_equal_str(name, "return") {
        Some(7)
    } else if chars_equal_str(name, "space") {
        Some(8)
    } else if chars_equal_str(name, "delete") || chars_equal_str(name, "del") {
        Some(9)
    } else if chars_equal_str(name, "home") {
        Some(10)
    } else if chars_equal_str(name, "end") {
        Some(11)
    } else if chars_equal_str(name, "pageup") {
        Some(12)
    } else if chars_equal_str(name, "pagedown") {
        Some(13)
    } else if chars_equal_str(name, "f1") {
        Some(14)
    } else if chars_equal_str(name, "f2") {
        Some(15)
    } else if chars_equal_str(name, "f3") {
        Some(16)
    } else if chars_equal_str(name, "f4") {
        Some(17)
    } else if chars_equal_str(name, "f5") {
        Some(18)
    } else if chars_equal_str(name, "f6") {
        Some(19)
    } else if chars_equal_str(name, "f7") {
        Some(20)
    } else if chars_equal_str(name, "f8") {
        Some(21)
    } else if chars_equal_str(name, "f9") {
        Some(22)
    } else if chars_equal_str(name, "f10") {
        Some(23)
    } else if chars_equal_str(name, "f11") {
        Some(24)
    } else if chars_equal_str(name, "f12") {
        Some(25)
    } else {
        None
    }
}

/// The text that a key name stands for in a key event: the Slint character
/// of a named key (names are compared ignoring ASCII case), otherwise the
/// lowercase form of the name when that is a single character.
pub open spec fn key_text(name: Seq<char>) -> Option<Seq<char>> {
    let t = trimmed(name);
    match named_key_index(ascii_lowercase(t)) {
        Some(i) => Some(seq![slint_key_code(i)]),
        None => if unicode_lowercase(t).len() == 1 {
            Some(unicode_lowercase(t))
        } else {
            None
        },
    }
}

fn key_text_chars(name: &[char]) -> (r: Option<Vec<char>>)
    ensures
        r matches Some(v) ==> key_text(name@) == Some(v@),
        r is None ==> key_text(name@) is None,
{
    let t = trim_chars(name);
    let lower = ascii_lowercase_chars(t.as_slice());
    match find_named_key(lower.as_slice()) {
        Some(i) => {
            let mut v: Vec<char> = Vec::new();
            v.push(slint_key_char(i));
            assert(v@ =~= seq![slint_key_code(i as int)]);
            Some(v)
        },
        None => {
            let text = lowercase_chars(t.as_slice());
            if text.len() == 1 {
                Some(text)
            } else {
                None
            }
        },
    }
}

/// The key-event text for a key name of a shortcut, or `None` when the
/// name is neither a named key nor a single character.
pub fn shortcut_key_text(value: &str) -> (r: Option<String>)
    ensures
        r matches Some(s) ==> key_text(value@) == Some(s@),
        r is None ==> key_text(value@) is None,
{
    let cs = crate::text::chars_of(value);
    match key_text_chars(cs.as_slice()) {
        Some(v) => Some(string_of(v.as_slice())),
        None => None,
    }
}

// ---------------------------------------------------------------------------
// Splitting a shortcut text at `+`
// ---------------------------------------------------------------------------

/// The fields of `s` between `+` separators (`a+b+` gives `a`, `b`, empty).
pub open spec fn plus_fields(s: Seq<char>) -> Seq<Seq<char>>
    decreases s.len(),
{
    if s.len() == 0 {
        seq![Seq::empty()]
    } else {
        let init = plus_fields(s.drop_last());
        if s.last() == '+' {
            init.push(Seq::empty())
        } else {
            init.update(init.len() - 1, init.last().push(s.last()))
        }
    }
}

proof fn lemma_plus_fields_nonempty(s: Seq<char>)
    ensures
        plus_fields(s).len() >= 1,
    decreases s.len(),
{
    if s.len() > 0 {
        lemma_plus_fields_nonempty(s.drop_last());
    }
}

/// The trimmed fields that are not blank, in order.
pub open spec fn kept_fields(fields: Seq<Seq<char>>) -> Seq<Seq<char>>
    decreases fields.len(),
{
    if fields.len() == 0 {
        seq![]
    } else {
        let rest = kept_fields(fields.drop_last());
        let t = trimmed(fields.last());
        if t.len() == 0 {
            rest
        } else {
            rest.push(t)
        }
    }
}

/// The character sequences held by a vector of character vectors.
pub open spec fn views(v: Seq<Vec<char>>) -> Seq<Seq<char>> {
    v.map_values(|x: Vec<char>| x@)
}

/// The parts of a shortcut text: its `+`-separated fields, trimmed, without
/// the blank ones.
fn plus_parts(cs: &[char]) -> (parts: Vec<Vec<char>>)
    ensures
        views(parts@) == kept_fields(plus_fields(cs@)),
{
    let mut done: Vec<Vec<char>> = Vec::new();
    let mut current: Vec<char> = Vec::new();
    let mut i: usize = 0;
    proof {
        assert(cs@.take(0) =~= Seq::<char>::empty());
        assert(views(done@) =~= kept_fields(plus_fields(cs@.take(0)).drop_last()));
    }
    while i < cs.len()
        invariant
            i <= cs@.len(),
            plus_fields(cs@.take(i as int)).len() >= 1,
            views(done@) == kept_fields(plus_fields(cs@.take(i as int)).drop_last()),
            current@ == plus_fields(cs@.take(i as int)).last(),
        decreases cs@.len() - i,
    {
        let ghost before = cs@.take(i as int);
        let ghost fields = plus_fields(before);
        let c = cs[i];
        proof {
            assert(cs@.take(i + 1).drop_last() =~= before);
            assert(cs@.take(i + 1).last() == c);
        }
        if c == '+' {
            let t = trim_chars(current.as_slice());
            if t.len() > 0 {
                done.push(t);
            }
            current = Vec::new();
            proof {
                let after = plus_fields(cs@.take(i + 1));
                assert(after == fields.push(Seq::empty()));
                assert(after.drop_last() =~= fields);
                assert(fields =~= fields.drop_last().push(fields.last()));
                assert(views(done@) =~= kept_fields(after.drop_last()));
                assert(current@ =~= after.last());
            }
        } else {
            current.push(c);
            proof {
                let after = plus_fields(cs@.take(i + 1));
                assert(after == fields.update(fields.len() - 1, fields.last().push(c)));
                assert(after.drop_last() =~= fields.drop_last());
                assert(current@ =~= after.last());
            }
        }
        i = i + 1;
    }
    let t = trim_chars(current.as_slice());
    if t.len() > 0 {
        done.push(t);
    }
    proof {
        let fields = plus_fields(cs@.take(cs@.len() as int));
        assert(cs@.take(cs@.len() as int) =~= cs@);
        assert(fields =~= fields.drop_last().push(fields.last()));
        assert(views(done@) =~= kept_fields(plus_fields(cs@)));
    }
    done
}

// ---------------------------------------------------------------------------
// Modifiers
// ---------------------------------------------------------------------------

/// The modifier keys of a shortcut or a key event.
#[derive(Debug, Clone, Copy, PartialEq, Eq, Structural)]
pub struct ModifierFlags {
    pub alt: bool,
    pub control: bool,
    pub shift: bool,
    pub meta: bool,
}

/// No modifier.
pub open spec fn no_modifiers() -> ModifierFlags {
    ModifierFlags { alt: false, control: false, shift: false, meta: false }
}

/// The effect of one modifier name (already ASCII-lowercased). `Ctrl` is
/// the command key of the platform; `Cmd`/`Command` and `Control` name the
/// physical keys, which swap roles on macOS.
pub open spec fn modifier_effect(f: ModifierFlags, m: Seq<char>, macos: bool) -> Option<
    ModifierFlags,
> {
    let with_control = ModifierFlags { control: true, ..f };
    let with_meta = ModifierFlags { meta: true, ..f };
    if m == "ctrl"@ {
        Some(with_control)
    } else if m == "cmd"@ || m == "command"@ {
        if macos {
            Some(with_control)
        } else {
            Some(with_meta)
        }
    } else if m == "control"@ {
        if macos {
            Some(with_meta)
        } else {
            Some(with_control)
        }
    } else if m == "meta"@ || m == "super"@ {
        Some(with_meta)
    } else if m == "alt"@ || m == "option"@ {
        Some(ModifierFlags { alt: true, ..f })
    } else if m == "shift"@ {
        Some(ModifierFlags { shift: true, ..f })
    } else {
        None
    }
}

/// The modifiers that a list of modifier names sets, or `None` when one of
/// them is not a modifier name.
pub open spec fn modifier_flags(names: Seq<Seq<char>>, macos: bool) -> Option<ModifierFlags>
    decreases names.len(),
{
    if names.len() == 0 {
        Some(no_modifiers())
    } else {
        match modifier_flags(names.drop_last(), macos) {
            Some(f) => modifier_effect(f, ascii_lowercase(names.last()), macos),
            None => None,
        }
    }
}

proof fn lemma_flags_none_extends(names: Seq<Seq<char>>, j: int, macos: bool)
    requires
        0 <= j <= names.len(),
        modifier_flags(names.take(j), macos) is None,
    ensures
        modifier_flags(names, macos) is None,
    decreases names.len() - j,
{
    if j == names.len() {
        assert(names.take(j) =~= names);
    } else {
        assert(names.take(j + 1).drop_last() =~= names.take(j));
        lemma_flags_none_extends(names, j + 1, macos);
    }
}

fn apply_modifier(f: ModifierFlags, m: &[char], macos: bool) -> (r: Option<ModifierFlags>)
    ensures
        r == modifier_effect(f, m@, macos),
{
    let with_control = ModifierFlags { alt: f.alt, control: true, shift: f.shift, meta: f.meta };
    let with_meta = ModifierFlags { alt: f.alt, control: f.control, shift: f.shift, meta: true };
    if chars_equal_str(m, "ctrl") {
        Some(with_control)
    } else if chars_equal_str(m, "cmd") || chars_equal_str(m, "command") {
        if macos {
            Some(with_control)
        } else {
            Some(with_meta)
        }
    } else if chars_equal_str(m, "control") {
        if macos {
            Some(with_meta)
        } else {
            Some(with_control)
        }
    } else if chars_equal_str(m, "meta") || chars_equal_str(m, "super") {
        Some(with_meta)
    } else if chars_equal_str(m, "alt") || chars_equal_str(m, "option") {
        Some(ModifierFlags { alt: true, control: f.control, shift: f.shift, meta: f.meta })
    } else if chars_equal_str(m, "shift") {
        Some(ModifierFlags { alt: f.alt, control: f.control, shift: true, meta: f.meta })
    } else {
        None
    }
}

// ---------------------------------------------------------------------------
// Patterns
// ---------------------------------------------------------------------------

/// A parsed shortcut: the key-event text it waits for and its modifiers.
/// `ignore_shift` is set for the `+` key, which needs Shift on some layouts.
#[derive(Debug, Clone, PartialEq, Eq)]
pub struct ShortcutPattern {
    pub text: String,
    pub alt: bool,
    pub control: bool,
    pub shift: bool,
    pub meta: bool,
    pub ignore_shift: bool,
}

/// The mathematical content of a shortcut pattern.
pub struct PatternModel {
    pub text: Seq<char>,
    pub flags: ModifierFlags,
    pub ignore_shift: bool,
}

impl ShortcutPattern {
    /// The pattern's content.
    pub open spec fn model(&self) -> PatternModel {
        PatternModel {
            text: self.text@,
            flags: ModifierFlags {
                alt: self.alt,
                control: self.control,
                shift: self.shift,
                meta: self.meta,
            },
            ignore_shift: self.ignore_shift,
        }
    }
}

/// The pattern that a shortcut text denotes: after trimming, a trailing `+`
/// is the plus key (with its Shift ignored) and every other part before it is
/// a modifier; otherwise the last `+`-separated part is the key. Blank parts
/// are skipped. `None` for blank text, an unknown modifier or an unknown key.
pub open spec fn shortcut_pattern(value: Seq<char>, macos: bool) -> Option<PatternModel> {
    let v = trimmed(value);
    if v.len() == 0 {
        None
    } else {
        let plus_key = v.last() == '+';
        let parts = kept_fields(plus_fields(v));
        if !plus_key && parts.len() == 0 {
            None
        } else {
            let key_name = if plus_key {
                seq!['+']
            } else {
                parts.last()
            };
            let modifiers = if plus_key {
                parts
            } else {
                parts.drop_last()
            };
            match modifier_flags(modifiers, macos) {
                Some(flags) => match key_text(key_name) {
                    Some(text) => Some(PatternModel { text, flags, ignore_shift: plus_key }),
                    None => None,
                },
                None => None,
            }
        }
    }
}

/// Parses a Qt-style shortcut text. `macos` selects the platform meaning of
/// `Cmd` and `Control`.
pub fn parse_shortcut(value: &str, macos: bool) -> (r: Option<ShortcutPattern>)
    ensures
        r matches Some(p) ==> shortcut_pattern(value@, macos) == Some(p.model()),
        r is None ==> shortcut_pattern(value@, macos) is None,
{
    let v = trim_str(value);
    if v.len() == 0 {
        return None;
    }
    let plus_key = v[v.len() - 1] == '+';
    let mut parts = plus_parts(v.as_slice());
    let ghost all_parts = views(parts@);
    let key_name: Vec<char>;
    if plus_key {
        key_name = vec!['+'];
    } else {
        if parts.len() == 0 {
            return None;
        }
        key_name = parts.pop().unwrap();
        proof {
            assert(views(parts@) =~= all_parts.drop_last());
        }
    }
    let ghost modifiers = views(parts@);
    assert(modifiers == if plus_key {
        all_parts
    } else {
        all_parts.drop_last()
    });
    assert(plus_key == (trimmed(value@).last() == '+'));
    assert(key_name@ == if plus_key {
        seq!['+']
    } else {
        all_parts.last()
    });
    let mut flags = ModifierFlags { alt: false, control: false, shift: false, meta: false };
    let mut i: usize = 0;
    assert(modifiers.take(0) =~= Seq::<Seq<char>>::empty());
    while i < parts.len()
        invariant
            i <= parts@.len(),
            modifiers == views(parts@),
            modifier_flags(modifiers.take(i as int), macos) == Some(flags),
            trimmed(value@).len() > 0,
            plus_key == (trimmed(value@).last() == '+'),
            all_parts == kept_fields(plus_fields(trimmed(value@))),
            !plus_key ==> all_parts.len() > 0,
            modifiers == if plus_key {
                all_parts
            } else {
                all_parts.drop_last()
            },
        decreases parts@.len() - i,
    {
        let m = ascii_lowercase_chars(parts[i].as_slice());
        proof {
            assert(modifiers.take(i + 1).drop_last() =~= modifiers.take(i as int));
            assert(modifiers.take(i + 1).last() == parts@[i as int]@);
        }
        match apply_modifier(flags, m.as_slice(), macos) {
            Some(next) => {
                flags = next;
            },
            None => {
                proof {
                    lemma_flags_none_extends(modifiers, i + 1, macos);
                    assert(modifier_flags(modifiers, macos) is None);
                }
                return None;
            },
        }
        i = i + 1;
    }
    assert(modifiers.take(parts@.len() as int) =~= modifiers);
    match key_text_chars(key_name.as_slice()) {
        Some(text) => Some(
            ShortcutPattern {
                text: string_of(text.as_slice()),
                alt: flags.alt,
                control: flags.control,
                shift: flags.shift,
                meta: flags.meta,
                ignore_shift: plus_key,
            },
        ),
        None => None,
    }
}

// ---------------------------------------------------------------------------
// Matching key events
// ---------------------------------------------------------------------------

/// A key event: its text and the modifiers that were held.
#[derive(Debug, Clone, PartialEq, Eq)]
pub struct ShortcutInput {
    pub text: String,
    pub alt: bool,
    pub control: bool,
    pub shift: bool,
    pub meta: bool,
}

impl ShortcutInput {
    /// The modifiers of the event.
    pub open spec fn flags(&self) -> ModifierFlags {
        ModifierFlags { alt: self.alt, control: self.control, shift: self.shift, meta: self.meta }
    }
}

/// A pattern accepts an event whose lowercase text is the pattern's text and
/// whose Alt, Control and Meta state equal the pattern's; Shift must agree
/// too unless the pattern ignores it.
pub open spec fn pattern_accepts(p: PatternModel, text: Seq<char>, flags: ModifierFlags) -> bool {
    &&& p.text == unicode_lowercase(text)
    &&& p.flags.alt == flags.alt
    &&& p.flags.control == flags.control
    &&& p.flags.meta == flags.meta
    &&& (p.ignore_shift || p.flags.shift == flags.shift)
}

/// A shortcut text accepts an event when it parses and its pattern accepts
/// the event; an unparsable text accepts nothing.
pub open spec fn shortcut_accepts(
    value: Seq<char>,
    text: Seq<char>,
    flags: ModifierFlags,
    macos: bool,
) -> bool {
    match shortcut_pattern(value, macos) {
        Some(p) => pattern_accepts(p, text, flags),
        None => false,
    }
}

/// Whether the shortcut text `value` fires for the key event `input`.
///
/// A shortcut recorded from a key event fires for that event: always for a
/// named key, and for any other key whose uppercase form stands for the
/// key's text (it lowercases as the text does, is the plus key or has
/// neither `+` nor whitespace at its ends, and is no key name).
pub fn shortcut_matches(value: &str, input: &ShortcutInput, macos: bool) -> (r: bool)
    ensures
        r == shortcut_accepts(value@, input.text@, input.flags(), macos),
        recorded_shortcut(input.text@, input.flags(), macos) == Some(value@) && (named_key_with_code(
            input.text@[0],
            0,
        ) is None ==> crate::recording::uppercase_stands_for(input.text@)) ==> r,
{
    match parse_shortcut(value, macos) {
        None => false,
        Some(pattern) => {
            let text = crate::text::chars_of(input.text.as_str());
            let lower = lowercase_chars(text.as_slice());
            proof {
                let t = input.text@;
                if recorded_shortcut(t, input.flags(), macos) == Some(value@) && (named_key_with_code(
                    t[0],
                    0,
                ) is None ==> crate::recording::uppercase_stands_for(t)) {
                    if named_key_with_code(t[0], 0) is Some {
                        crate::recording::lemma_named_code_found(t[0], 0);
                        let i = named_key_with_code(t[0], 0)->0;
                        crate::recording::lemma_named_codes_keep_lowercase(i);
                        assert(ascii_lowercase(t) =~= t);
                        assert(lower@ == t);
                    }
                    crate::recording::lemma_recorded_shortcut_accepted(t, input.flags(), macos);
                }
            }
            let wanted = crate::text::chars_of(pattern.text.as_str());
            chars_eq(wanted.as_slice(), lower.as_slice()) && pattern.alt == input.alt
                && pattern.control == input.control && pattern.meta == input.meta && (
            pattern.ignore_shift || pattern.shift == input.shift)
        },
    }
}

// ---------------------------------------------------------------------------
// Validating a set of bindings
// ---------------------------------------------------------------------------

/// Two patterns conflict when some key event would fire both.
pub open spec fn patterns_conflict(a: PatternModel, b: PatternModel) -> bool {
    &&& a.text == b.text
    &&& a.flags.alt == b.flags.alt
    &&& a.flags.control == b.flags.control
    &&& a.flags.meta == b.flags.meta
    &&& (a.ignore_shift || b.ignore_shift || a.flags.shift == b.flags.shift)
}

/// Two patterns conflict exactly when one key event fires both: for any
/// event text that fires the first pattern by its key, some modifier state
/// fires both; and any event that fires both makes them conflict. In
/// particular patterns that differ in Alt, Control or Meta never conflict.
pub proof fn conflicting_patterns_share_an_event(
    a: PatternModel,
    b: PatternModel,
    text: Seq<char>,
    flags: ModifierFlags,
)
    ensures
        patterns_conflict(a, b) && a.text == unicode_lowercase(text) ==> exists|f: ModifierFlags|
            pattern_accepts(a, text, f) && pattern_accepts(b, text, f),
        pattern_accepts(a, text, flags) && pattern_accepts(b, text, flags) ==> patterns_conflict(
            a,
            b,
        ),
        a.flags.alt != b.flags.alt || a.flags.control != b.flags.control || a.flags.meta
            != b.flags.meta ==> !(pattern_accepts(a, text, flags) && pattern_accepts(b, text, flags)),
{
    if patterns_conflict(a, b) && a.text == unicode_lowercase(text) {
        let f = ModifierFlags {
            alt: a.flags.alt,
            control: a.flags.control,
            shift: if a.ignore_shift {
                b.flags.shift
            } else {
                a.flags.shift
            },
            meta: a.flags.meta,
        };
        assert(pattern_accepts(a, text, f) && pattern_accepts(b, text, f));
    }
}

/// What is wrong with a set of shortcut texts.
#[derive(Debug, Clone, Copy, PartialEq, Eq, Structural)]
pub enum ShortcutProblem {
    /// A text that is not blank does not parse.
    Invalid,
    /// A text conflicts with an earlier one.
    Conflict,
}

/// The first problem met when the texts are read in order; blank texts
/// (unbound commands) are skipped.
pub open spec fn shortcut_set_problem(values: Seq<Seq<char>>, macos: bool) -> Option<
    ShortcutProblem,
>
    decreases values.len(),
{
    if values.len() == 0 {
        None
    } else {
        match shortcut_set_problem(values.drop_last(), macos) {
            Some(problem) => Some(problem),
            None => {
                let v = values.last();
                if crate::text::is_blank(v) {
                    None
                } else {
                    match shortcut_pattern(v, macos) {
                        None => Some(ShortcutProblem::Invalid),
                        Some(p) => if exists|j: int|
                            0 <= j < values.len() - 1 && !crate::text::is_blank(
                                #[trigger] values[j],
                            ) && patterns_conflict(shortcut_pattern(values[j], macos)->0, p) {
                            Some(ShortcutProblem::Conflict)
                        } else {
                            None
                        },
                    }
                }
            },
        }
    }
}

/// The message that reports a problem.
pub open spec fn problem_message(problem: ShortcutProblem, language: UiLanguage) -> Seq<char> {
    match problem {
        ShortcutProblem::Invalid => pick(
            language,
            "Invalid shortcut. Record a key combination or clear the binding."@,
            "快捷键无效。请录入组合键或清除绑定。"@,
            "無効なショートカットです。キーを記録するか、割り当てを解除してください。"@,
        ),
        ShortcutProblem::Conflict => pick(
            language,
            "A shortcut is assigned to more than one command."@,
            "同一快捷键被分配给了多个命令。"@,
            "同じショートカットが複数のコマンドに割り当てられています。"@,
        ),
    }
}

/// The character sequences held by a slice of strings.
pub open spec fn string_views(v: Seq<String>) -> Seq<Seq<char>> {
    v.map_values(|x: String| x@)
}

fn shortcuts_conflict(a: &ShortcutPattern, b: &ShortcutPattern) -> (r: bool)
    ensures
        r == patterns_conflict(a.model(), b.model()),
{
    a.text == b.text && a.alt == b.alt && a.control == b.control && a.meta == b.meta && (
    a.ignore_shift || b.ignore_shift || a.shift == b.shift)
}

/// Checks a set of shortcut texts: every text that is not blank must parse,
/// and no two may fire for the same key event. The error is the localized
/// message of the first problem met in order.
pub fn validate_shortcuts(values: &[String], language: UiLanguage, macos: bool) -> (r: Result<
    (),
    &'static str,
>)
    ensures
        r is Ok <==> shortcut_set_problem(string_views(values@), macos) is None,
        r matches Err(message) ==> message@ == problem_message(
            shortcut_set_problem(string_views(values@), macos)->0,
            language,
        ),
{
    let ghost all = string_views(values@);
    let mut patterns: Vec<Option<ShortcutPattern>> = Vec::new();
    let mut i: usize = 0;
    assert(all.take(0) =~= Seq::<Seq<char>>::empty());
    while i < values.len()
        invariant
            all == string_views(values@),
            i <= values@.len(),
            patterns@.len() == i,
            forall|j: int|
                0 <= j < i ==> (#[trigger] patterns@[j] is None) == crate::text::is_blank(
                    all[j],
                ),
            forall|j: int|
                0 <= j < i && #[trigger] patterns@[j] is Some ==> shortcut_pattern(all[j], macos)
                    == Some(patterns@[j]->0.model()),
            shortcut_set_problem(all.take(i as int), macos) is None,
        decreases values@.len() - i,
    {
        let ghost prefix = all.take(i + 1);
        proof {
            assert(prefix.drop_last() =~= all.take(i as int));
            assert(prefix.last() == all[i as int]);
        }
        if crate::text::is_blank_str(values[i].as_str()) {
            patterns.push(None);
        } else {
            match parse_shortcut(values[i].as_str(), macos) {
                None => {
                    let message = localized(
                        language,
                        "Invalid shortcut. Record a key combination or clear the binding.",
                        "快捷键无效。请录入组合键或清除绑定。",
                        "無効なショートカットです。キーを記録するか、割り当てを解除してください。",
                    );
                    proof {
                        lemma_problem_extends(all, i + 1, macos);
                    }
                    return Err(message);
                },
                Some(pattern) => {
                    let mut j: usize = 0;
                    while j < i
                        invariant
                            i < values@.len(),
                            all == string_views(values@),
                            all.len() == values@.len(),
                            prefix == all.take(i + 1),
                            prefix.drop_last() == all.take(i as int),
                            prefix.last() == all[i as int],
                            shortcut_pattern(all[i as int], macos) == Some(pattern.model()),
                            !crate::text::is_blank(all[i as int]),
                            shortcut_set_problem(all.take(i as int), macos) is None,
                            j <= i,
                            patterns@.len() == i,
                            forall|k: int|
                                0 <= k < i ==> (#[trigger] patterns@[k] is None)
                                    == crate::text::is_blank(all[k]),
                            forall|k: int|
                                0 <= k < i && #[trigger] patterns@[k] is Some ==> shortcut_pattern(
                                    all[k],
                                    macos,
                                ) == Some(patterns@[k]->0.model()),
                            forall|k: int|
                                0 <= k < j && !crate::text::is_blank(#[trigger] all[k])
                                    ==> !patterns_conflict(
                                    shortcut_pattern(all[k], macos)->0,
                                    pattern.model(),
                                ),
                        decreases i - j,
                    {
                        match &patterns[j] {
                            Some(other) => {
                                if shortcuts_conflict(other, &pattern) {
                                    let message = localized(
                                        language,
                                        "A shortcut is assigned to more than one command.",
                                        "同一快捷键被分配给了多个命令。",
                                        "同じショートカットが複数のコマンドに割り当てられています。",
                                    );
                                    proof {
                                        assert(prefix[j as int] == all[j as int]);
                                        assert(!crate::text::is_blank(prefix[j as int]));
                                        assert(shortcut_set_problem(prefix, macos) is Some);
                                        lemma_problem_extends(all, i + 1, macos);
                                    }
                                    return Err(message);
                                }
                            },
                            None => {},
                        }
                        j = j + 1;
                    }
                    proof {
                        assert forall|k: int|
                            0 <= k < prefix.len() - 1 && !crate::text::is_blank(
                                #[trigger] prefix[k],
                            ) implies !patterns_conflict(
                            shortcut_pattern(prefix[k], macos)->0,
                            pattern.model(),
                        ) by {
                            assert(prefix[k] == all[k]);
                        }
                    }
                    patterns.push(Some(pattern));
                },
            }
        }
        i = i + 1;
    }
    assert(all.take(values@.len() as int) =~= all);
    Ok(())
}

proof fn lemma_problem_extends(values: Seq<Seq<char>>, j: int, macos: bool)
    requires
        0 <= j <= values.len(),
        shortcut_set_problem(values.take(j), macos) is Some,
    ensures
        shortcut_set_problem(values, macos) == shortcut_set_problem(values.take(j), macos),
    decreases values.len() - j,
{
    if j == values.len() {
        assert(values.take(j) =~= values);
    } else {
        assert(values.take(j + 1).drop_last() =~= values.take(j));
        lemma_problem_extends(values, j + 1, macos);
    }
}

/// Every text that is not blank parses.
pub open spec fn all_parse(values: Seq<Seq<char>>, macos: bool) -> bool {
    forall|i: int|
        0 <= i < values.len() && !crate::text::is_blank(#[trigger] values[i]) ==> shortcut_pattern(
            values[i],
            macos,
        ) is Some
}

/// No two texts that are not blank, at different places, conflict.
pub open spec fn pairwise_compatible(values: Seq<Seq<char>>, macos: bool) -> bool {
    forall|i: int, j: int|
        0 <= i < j < values.len() && !crate::text::is_blank(#[trigger] values[i])
            && !crate::text::is_blank(#[trigger] values[j]) ==> !patterns_conflict(
            shortcut_pattern(values[i], macos)->0,
            shortcut_pattern(values[j], macos)->0,
        )
}

spec fn last_compatible(values: Seq<Seq<char>>, macos: bool) -> bool {
    let n = values.len() - 1;
    crate::text::is_blank(values[n]) || (shortcut_pattern(values[n], macos) is Some && forall|
        j: int,
    |
        0 <= j < n && !crate::text::is_blank(#[trigger] values[j]) ==> !patterns_conflict(
            shortcut_pattern(values[j], macos)->0,
            shortcut_pattern(values[n], macos)->0,
        ))
}

proof fn lemma_split_compatible(values: Seq<Seq<char>>, macos: bool)
    requires
        values.len() > 0,
    ensures
        (all_parse(values, macos) && pairwise_compatible(values, macos)) == (all_parse(
            values.drop_last(),
            macos,
        ) && pairwise_compatible(values.drop_last(), macos) && last_compatible(values, macos)),
{
    let init = values.drop_last();
    let n = values.len() - 1;
    assert forall|i: int| 0 <= i < n implies #[trigger] init[i] == values[i] by {}
    if all_parse(values, macos) && pairwise_compatible(values, macos) {
        assert forall|i: int|
            0 <= i < init.len() && !crate::text::is_blank(#[trigger] init[i]) implies shortcut_pattern(
            init[i],
            macos,
        ) is Some by {
            assert(init[i] == values[i]);
        }
        assert forall|i: int, j: int|
            0 <= i < j < init.len() && !crate::text::is_blank(#[trigger] init[i])
                && !crate::text::is_blank(#[trigger] init[j]) implies !patterns_conflict(
            shortcut_pattern(init[i], macos)->0,
            shortcut_pattern(init[j], macos)->0,
        ) by {
            assert(init[i] == values[i] && init[j] == values[j]);
        }
        if !crate::text::is_blank(values[n]) {
            assert forall|j: int|
                0 <= j < n && !crate::text::is_blank(#[trigger] values[j]) implies !patterns_conflict(
                shortcut_pattern(values[j], macos)->0,
                shortcut_pattern(values[n], macos)->0,
            ) by {}
        }
    }
    if all_parse(init, macos) && pairwise_compatible(init, macos) && last_compatible(
        values,
        macos,
    ) {
        assert forall|i: int|
            0 <= i < values.len() && !crate::text::is_blank(#[trigger] values[i]) implies shortcut_pattern(
            values[i],
            macos,
        ) is Some by {
            if i < n {
                assert(init[i] == values[i]);
            }
        }
        assert forall|i: int, j: int|
            0 <= i < j < values.len() && !crate::text::is_blank(#[trigger] values[i])
                && !crate::text::is_blank(#[trigger] values[j]) implies !patterns_conflict(
            shortcut_pattern(values[i], macos)->0,
            shortcut_pattern(values[j], macos)->0,
        ) by {
            if j < n {
                assert(init[i] == values[i] && init[j] == values[j]);
            }
        }
    }
}

/// A set of shortcut texts is accepted exactly when every text that is not
/// blank parses and no two of them, at different places, conflict.
pub proof fn accepted_shortcut_sets_are_conflict_free(values: Seq<Seq<char>>, macos: bool)
    ensures
        (shortcut_set_problem(values, macos) is None) <==> (all_parse(values, macos)
            && pairwise_compatible(values, macos)),
    decreases values.len(),
{
    if values.len() > 0 {
        let init = values.drop_last();
        let n = values.len() - 1;
        accepted_shortcut_sets_are_conflict_free(init, macos);
        lemma_split_compatible(values, macos);
        assert(values.last() == values[n]);
        if shortcut_set_problem(init, macos) is None && !crate::text::is_blank(values[n])
            && shortcut_pattern(values[n], macos) is Some {
            let p = shortcut_pattern(values[n], macos)->0;
            if exists|j: int|
                0 <= j < values.len() - 1 && !crate::text::is_blank(#[trigger] values[j])
                    && patterns_conflict(shortcut_pattern(values[j], macos)->0, p) {
                let j = choose|j: int|
                    0 <= j < values.len() - 1 && !crate::text::is_blank(#[trigger] values[j])
                        && patterns_conflict(shortcut_pattern(values[j], macos)->0, p);
                assert(!last_compatible(values, macos));
            } else {
                assert(last_compatible(values, macos));
            }
        }
    }
}

// ---------------------------------------------------------------------------
// Recording a shortcut from a key event
// ---------------------------------------------------------------------------

/// The name under which a recorded shortcut writes the named key at `index`
/// (Escape cannot be recorded).
pub open spec fn record_key_name(index: int) -> Seq<char> {
    if index == 0 {
        "Left"@
    } else if index == 1 {
        "Right"@
    } else if index == 2 {
        "Up"@
    } else if index == 3 {
        "Down"@
    } else if index == 5 {
        "Tab"@
    } else if index == 6 {
        "Backspace"@
    } else if index == 7 {
        "Enter"@
    } else if index == 8 {
        "Space"@
    } else if index == 9 {
        "Delete"@
    } else if index == 10 {
        "Home"@
    } else if index == 11 {
        "End"@
    } else if index == 12 {
        "PageUp"@
    } else if index == 13 {
        "PageDown"@
    } else if index == 14 {
        "F1"@
    } else if index == 15 {
        "F2"@
    } else if index == 16 {
        "F3"@
    } else if index == 17 {
        "F4"@
    } else if index == 18 {
        "F5"@
    } else if index == 19 {
        "F6"@
    } else if index == 20 {
        "F7"@
    } else if index == 21 {
        "F8"@
    } else if index == 22 {
        "F9"@
    } else if index == 23 {
        "F10"@
    } else if index == 24 {
        "F11"@
    } else if index == 25 {
        "F12"@
    } else {
        Seq::empty()
    }
}

fn record_key_name_of(index: usize) -> (r: &'static str)
    ensures
        r@ == record_key_name(index as int),
{
    proof {
        reveal_strlit("");
    }
    if index == 0 {
        "Left"
    } else if index == 1 {
        "Right"
    } else if index == 2 {
        "Up"
    } else if index == 3 {
        "Down"
    } else if index == 5 {
        "Tab"
    } else if index == 6 {
        "Backspace"
    } else if index == 7 {
        "Enter"
    } else if index == 8 {
        "Space"
    } else if index == 9 {
        "Delete"
    } else if index == 10 {
        "Home"
    } else if index == 11 {
        "End"
    } else if index == 12 {
        "PageUp"
    } else if index == 13 {
        "PageDown"
    } else if index == 14 {
        "F1"
    } else if index == 15 {
        "F2"
    } else if index == 16 {
        "F3"
    } else if index == 17 {
        "F4"
    } else if index == 18 {
        "F5"
    } else if index == 19 {
        "F6"
    } else if index == 20 {
        "F7"
    } else if index == 21 {
        "F8"
    } else if index == 22 {
        "F9"
    } else if index == 23 {
        "F10"
    } else if index == 24 {
        "F11"
    } else if index == 25 {
        "F12"
    } else {
        ""
    }
}

/// The first recordable named key, at `index` or later, whose Slint
/// character is `c`.
pub open spec fn named_key_with_code(c: char, index: int) -> Option<int>
    decreases NAMED_KEY_COUNT - index,
{
    if index < 0 || index >= NAMED_KEY_COUNT {
        None
    } else if index != 4 && slint_key_code(index) == c {
        Some(index)
    } else {
        named_key_with_code(c, index + 1)
    }
}

fn find_named_code(c: char) -> (r: Option<usize>)
    ensures
        r matches Some(i) ==> named_key_with_code(c, 0) == Some(i as int) && i < NAMED_KEY_COUNT,
        r is None ==> named_key_with_code(c, 0) is None,
{
    let mut i: usize = 0;
    while i < NAMED_KEY_COUNT
        invariant
            i <= NAMED_KEY_COUNT,
            named_key_with_code(c, 0) == named_key_with_code(c, i as int),
        decreases NAMED_KEY_COUNT - i,
    {
        if i != 4 && slint_key_char(i) == c {
            return Some(i);
        }
        i = i + 1;
    }
    None
}

/// A private-use character, which Slint uses for keys without text.
pub open spec fn is_private_use(c: char) -> bool {
    0xE000 <= (c as u32) && (c as u32) <= 0xF8FF
}

/// The key part that recording writes for an event text: the name of a named
/// key, or the uppercase form of any other single printable character.
pub open spec fn recorded_key(text: Seq<char>) -> Option<Seq<char>> {
    if text.len() != 1 {
        None
    } else {
        match named_key_with_code(text[0], 0) {
            Some(i) => Some(record_key_name(i)),
            None => if !is_control_char(text[0]) && !is_private_use(text[0]) {
                Some(unicode_uppercase(text))
            } else {
                None
            },
        }
    }
}

/// The shortcut text written for a key part and modifiers, in the order
/// Ctrl, Meta, Alt, Shift (no Shift for the plus key), then the key.
pub open spec fn recorded_text(flags: ModifierFlags, key: Seq<char>) -> Seq<char> {
    (if flags.control {
        "Ctrl+"@
    } else {
        Seq::empty()
    }) + (if flags.meta {
        "Meta+"@
    } else {
        Seq::empty()
    }) + (if flags.alt {
        "Alt+"@
    } else {
        Seq::empty()
    }) + (if flags.shift && key != "+"@ {
        "Shift+"@
    } else {
        Seq::empty()
    }) + key
}

/// The shortcut text recorded from a key event, when the event has a
/// recordable key and the text it gives parses back.
pub open spec fn recorded_shortcut(text: Seq<char>, flags: ModifierFlags, macos: bool) -> Option<
    Seq<char>,
> {
    match recorded_key(text) {
        None => None,
        Some(key) => {
            let value = recorded_text(flags, key);
            if shortcut_pattern(value, macos) is Some {
                Some(value)
            } else {
                None
            }
        },
    }
}

fn push_chars(out: &mut Vec<char>, cs: &[char])
    ensures
        final(out)@ == old(out)@ + cs@,
{
    let mut i: usize = 0;
    while i < cs.len()
        invariant
            i <= cs@.len(),
            out@ == old(out)@ + cs@.take(i as int),
        decreases cs@.len() - i,
    {
        out.push(cs[i]);
        i = i + 1;
        assert(out@ =~= old(out)@ + cs@.take(i as int));
    }
    assert(cs@.take(cs@.len() as int) =~= cs@);
}

fn push_text(out: &mut Vec<char>, s: &str)
    ensures
        final(out)@ == old(out)@ + s@,
{
    let cs = crate::text::chars_of(s);
    push_chars(out, cs.as_slice());
}

/// Turns a key event into a shortcut text, or `None` when the event has no
/// recordable key or the text would not parse back.
///
/// A shortcut recorded from an ASCII key that is no named key fires for
/// that key event again, when the key's uppercase form lowercases as its
/// text does (named keys: see `shortcut_matches`).
pub fn record_shortcut(input: ShortcutInput, macos: bool) -> (r: Option<String>)
    ensures
        r matches Some(s) ==> recorded_shortcut(input.text@, input.flags(), macos) == Some(s@),
        r is None ==> recorded_shortcut(input.text@, input.flags(), macos) is None,
        r matches Some(s) ==> ((input.text@[0] as u32) < 0x80 && named_key_with_code(
            input.text@[0],
            0,
        ) is None && unicode_lowercase(unicode_uppercase(input.text@)) == unicode_lowercase(
            input.text@,
        ) ==> shortcut_accepts(s@, input.text@, input.flags(), macos)),
{
    let text = crate::text::chars_of(input.text.as_str());
    if text.len() != 1 {
        return None;
    }
    let c = text[0];
    let key: Vec<char> = match find_named_code(c) {
        Some(i) => crate::text::chars_of(record_key_name_of(i)),
        None => {
            let code = c as u32;
            if !char_is_control(c) && !(0xE000 <= code && code <= 0xF8FF) {
                uppercase_chars(text.as_slice())
            } else {
                return None;
            }
        },
    };
    let mut out: Vec<char> = Vec::new();
    let ghost empty: Seq<char> = Seq::empty();
    let ghost part1 = if input.control { "Ctrl+"@ } else { empty };
    let ghost part2 = if input.meta { "Meta+"@ } else { empty };
    let ghost part3 = if input.alt { "Alt+"@ } else { empty };
    if input.control {
        push_text(&mut out, "Ctrl+");
    }
    assert(out@ =~= part1);
    if input.meta {
        push_text(&mut out, "Meta+");
    }
    assert(out@ =~= part1 + part2);
    if input.alt {
        push_text(&mut out, "Alt+");
    }
    assert(out@ =~= part1 + part2 + part3);
    let is_plus = chars_equal_str(key.as_slice(), "+");
    let ghost part4 = if input.shift && key@ != "+"@ { "Shift+"@ } else { empty };
    if input.shift && !is_plus {
        push_text(&mut out, "Shift+");
    }
    assert(out@ =~= part1 + part2 + part3 + part4);
    push_chars(&mut out, key.as_slice());
    assert(out@ =~= recorded_text(input.flags(), key@));
    let value = string_of(out.as_slice());
    match parse_shortcut(value.as_str(), macos) {
        Some(_) => {
            proof {
                let t = input.text@;
                assert(recorded_shortcut(t, input.flags(), macos) == Some(value@));
                if (t[0] as u32) < 0x80 && named_key_with_code(t[0], 0) is None && unicode_lowercase(
                    unicode_uppercase(t),
                ) == unicode_lowercase(t) {
                    assert(text@ == t);
                    assert(ascii_or_private(t[0]));
                    crate::recording::lemma_ascii_upper_stands_for(t);
                    crate::recording::lemma_recorded_shortcut_accepted(t, input.flags(), macos);
                }
            }
            Some(value)
        },
        None => None,
    }
}

// ---------------------------------------------------------------------------
// Commands and their bindings
// ---------------------------------------------------------------------------

/// The commands that keyboard shortcuts trigger.
#[derive(Debug, Clone, Copy, PartialEq, Eq, Structural)]
pub enum ShortcutAction {
    NewProject,
    OpenProject,
    SaveProject,
    SaveProjectAs,
    ExportMedia,
    Quit,
    SystemSettings,
    Undo,
    Redo,
    Copy,
    Cut,
    Paste,
    Delete,
    Duplicate,
    PlayPause,
    NextFrame,
    PreviousFrame,
    JumpStart,
    JumpEnd,
    ZoomIn,
    ZoomOut,
    ShowTimeline,
    ShowObjectSettings,
    ProjectSettings,
    Split,
    MoveUp,
    MoveDown,
    NudgeLeft,
    NudgeRight,
    AddScene,
    SceneSettings,
    RemoveScene,
    ToggleLayerLock,
    ToggleLayerVisibility,
}

/// The number of command bindings.
pub const SHORTCUT_BINDING_COUNT: usize = 34;

/// A command, the settings key of its shortcut, the default shortcut and
/// whether it only acts in editor windows.
#[derive(Debug, Clone, Copy, PartialEq, Eq)]
pub struct ShortcutBinding {
    pub action: ShortcutAction,
    pub setting_key: &'static str,
    pub fallback: &'static str,
    pub editor_only: bool,
}

/// The content of a binding.
pub struct BindingModel {
    pub action: ShortcutAction,
    pub setting_key: Seq<char>,
    pub fallback: Seq<char>,
    pub editor_only: bool,
}

impl ShortcutBinding {
    /// The binding's content.
    pub open spec fn model(&self) -> BindingModel {
        BindingModel {
            action: self.action,
            setting_key: self.setting_key@,
            fallback: self.fallback@,
            editor_only: self.editor_only,
        }
    }
}

/// The binding table, in the order in which shortcuts are tried.
pub open spec fn binding(index: int) -> BindingModel {
    if index == 0 {
        BindingModel { action: ShortcutAction::NewProject, setting_key: "project.new"@, fallback: "Ctrl+N"@, editor_only: false }
    } else if index == 1 {
        BindingModel { action: ShortcutAction::OpenProject, setting_key: "project.open"@, fallback: "Ctrl+O"@, editor_only: false }
    } else if index == 2 {
        BindingModel { action: ShortcutAction::SystemSettings, setting_key: "app.settings"@, fallback: "Ctrl+P"@, editor_only: false }
    } else if index == 3 {
        BindingModel { action: ShortcutAction::Quit, setting_key: "app.quit"@, fallback: "Ctrl+Q"@, editor_only: false }
    } else if index == 4 {
        BindingModel { action: ShortcutAction::SaveProject, setting_key: "project.save"@, fallback: "Ctrl+S"@, editor_only: false }
    } else if index == 5 {
        BindingModel { action: ShortcutAction::SaveProjectAs, setting_key: "project.saveAs"@, fallback: "Ctrl+Shift+S"@, editor_only: false }
    } else if index == 6 {
        BindingModel { action: ShortcutAction::ProjectSettings, setting_key: "project.settings"@, fallback: "Alt+Enter"@, editor_only: false }
    } else if index == 7 {
        BindingModel { action: ShortcutAction::ExportMedia, setting_key: "project.export"@, fallback: "Ctrl+E"@, editor_only: false }
    } else if index == 8 {
        BindingModel { action: ShortcutAction::ShowTimeline, setting_key: "view.timeline"@, fallback: "F3"@, editor_only: false }
    } else if index == 9 {
        BindingModel { action: ShortcutAction::ShowObjectSettings, setting_key: "view.objectSettings"@, fallback: "F4"@, editor_only: false }
    } else if index == 10 {
        BindingModel { action: ShortcutAction::ZoomIn, setting_key: "view.zoomIn"@, fallback: "Ctrl++"@, editor_only: false }
    } else if index == 11 {
        BindingModel { action: ShortcutAction::ZoomOut, setting_key: "view.zoomOut"@, fallback: "Ctrl+-"@, editor_only: false }
    } else if index == 12 {
        BindingModel { action: ShortcutAction::Undo, setting_key: "edit.undo"@, fallback: "Ctrl+Z"@, editor_only: false }
    } else if index == 13 {
        BindingModel { action: ShortcutAction::Redo, setting_key: "edit.redo"@, fallback: "Ctrl+Shift+Z"@, editor_only: false }
    } else if index == 14 {
        BindingModel { action: ShortcutAction::Copy, setting_key: "edit.copy"@, fallback: "Ctrl+C"@, editor_only: true }
    } else if index == 15 {
        BindingModel { action: ShortcutAction::Cut, setting_key: "edit.cut"@, fallback: "Ctrl+X"@, editor_only: true }
    } else if index == 16 {
        BindingModel { action: ShortcutAction::Paste, setting_key: "edit.paste"@, fallback: "Ctrl+V"@, editor_only: true }
    } else if index == 17 {
        BindingModel { action: ShortcutAction::Duplicate, setting_key: "edit.duplicate"@, fallback: "Ctrl+D"@, editor_only: true }
    } else if index == 18 {
        BindingModel { action: ShortcutAction::Delete, setting_key: "edit.delete"@, fallback: "Delete"@, editor_only: true }
    } else if index == 19 {
        BindingModel { action: ShortcutAction::Split, setting_key: "timeline.split"@, fallback: "S"@, editor_only: true }
    } else if index == 20 {
        BindingModel { action: ShortcutAction::MoveUp, setting_key: "timeline.moveUp"@, fallback: "Alt+Up"@, editor_only: true }
    } else if index == 21 {
        BindingModel { action: ShortcutAction::MoveDown, setting_key: "timeline.moveDown"@, fallback: "Alt+Down"@, editor_only: true }
    } else if index == 22 {
        BindingModel { action: ShortcutAction::NudgeLeft, setting_key: "timeline.nudgeLeft"@, fallback: "Alt+Left"@, editor_only: true }
    } else if index == 23 {
        BindingModel { action: ShortcutAction::NudgeRight, setting_key: "timeline.nudgeRight"@, fallback: "Alt+Right"@, editor_only: true }
    } else if index == 24 {
        BindingModel { action: ShortcutAction::ToggleLayerLock, setting_key: "timeline.layerLock"@, fallback: "Ctrl+L"@, editor_only: true }
    } else if index == 25 {
        BindingModel { action: ShortcutAction::ToggleLayerVisibility, setting_key: "timeline.layerHide"@, fallback: "Ctrl+H"@, editor_only: true }
    } else if index == 26 {
        BindingModel { action: ShortcutAction::AddScene, setting_key: "timeline.addScene"@, fallback: "Ctrl+T"@, editor_only: false }
    } else if index == 27 {
        BindingModel { action: ShortcutAction::SceneSettings, setting_key: "timeline.sceneSettings"@, fallback: "Alt+S"@, editor_only: true }
    } else if index == 28 {
        BindingModel { action: ShortcutAction::RemoveScene, setting_key: "timeline.removeScene"@, fallback: "Ctrl+Shift+Delete"@, editor_only: true }
    } else if index == 29 {
        BindingModel { action: ShortcutAction::PlayPause, setting_key: "transport.playPause"@, fallback: "Space"@, editor_only: false }
    } else if index == 30 {
        BindingModel { action: ShortcutAction::PreviousFrame, setting_key: "transport.prevFrame"@, fallback: "Left"@, editor_only: false }
    } else if index == 31 {
        BindingModel { action: ShortcutAction::NextFrame, setting_key: "transport.nextFrame"@, fallback: "Right"@, editor_only: false }
    } else if index == 32 {
        BindingModel { action: ShortcutAction::JumpStart, setting_key: "transport.jumpStart"@, fallback: "Home"@, editor_only: false }
    } else {
        BindingModel { action: ShortcutAction::JumpEnd, setting_key: "transport.jumpEnd"@, fallback: "End"@, editor_only: false }
    }
}

/// The binding at `index` of the table.
pub fn shortcut_binding(index: usize) -> (b: ShortcutBinding)
    requires
        index < SHORTCUT_BINDING_COUNT,
    ensures
        b.model() == binding(index as int),
{
    if index == 0 {
        ShortcutBinding { action: ShortcutAction::NewProject, setting_key: "project.new", fallback: "Ctrl+N", editor_only: false }
    } else if index == 1 {
        ShortcutBinding { action: ShortcutAction::OpenProject, setting_key: "project.open", fallback: "Ctrl+O", editor_only: false }
    } else if index == 2 {
        ShortcutBinding { action: ShortcutAction::SystemSettings, setting_key: "app.settings", fallback: "Ctrl+P", editor_only: false }
    } else if index == 3 {
        ShortcutBinding { action: ShortcutAction::Quit, setting_key: "app.quit", fallback: "Ctrl+Q", editor_only: false }
    } else if index == 4 {
        ShortcutBinding { action: ShortcutAction::SaveProject, setting_key: "project.save", fallback: "Ctrl+S", editor_only: false }
    } else if index == 5 {
        ShortcutBinding { action: ShortcutAction::SaveProjectAs, setting_key: "project.saveAs", fallback: "Ctrl+Shift+S", editor_only: false }
    } else if index == 6 {
        ShortcutBinding { action: ShortcutAction::ProjectSettings, setting_key: "project.settings", fallback: "Alt+Enter", editor_only: false }
    } else if index == 7 {
        ShortcutBinding { action: ShortcutAction::ExportMedia, setting_key: "project.export", fallback: "Ctrl+E", editor_only: false }
    } else if index == 8 {
        ShortcutBinding { action: ShortcutAction::ShowTimeline, setting_key: "view.timeline", fallback: "F3", editor_only: false }
    } else if index == 9 {
        ShortcutBinding { action: ShortcutAction::ShowObjectSettings, setting_key: "view.objectSettings", fallback: "F4", editor_only: false }
    } else if index == 10 {
        ShortcutBinding { action: ShortcutAction::ZoomIn, setting_key: "view.zoomIn", fallback: "Ctrl++", editor_only: false }
    } else if index == 11 {
        ShortcutBinding { action: ShortcutAction::ZoomOut, setting_key: "view.zoomOut", fallback: "Ctrl+-", editor_only: false }
    } else if index == 12 {
        ShortcutBinding { action: ShortcutAction::Undo, setting_key: "edit.undo", fallback: "Ctrl+Z", editor_only: false }
    } else if index == 13 {
        ShortcutBinding { action: ShortcutAction::Redo, setting_key: "edit.redo", fallback: "Ctrl+Shift+Z", editor_only: false }
    } else if index == 14 {
        ShortcutBinding { action: ShortcutAction::Copy, setting_key: "edit.copy", fallback: "Ctrl+C", editor_only: true }
    } else if index == 15 {
        ShortcutBinding { action: ShortcutAction::Cut, setting_key: "edit.cut", fallback: "Ctrl+X", editor_only: true }
    } else if index == 16 {
        ShortcutBinding { action: ShortcutAction::Paste, setting_key: "edit.paste", fallback: "Ctrl+V", editor_only: true }
    } else if index == 17 {
        ShortcutBinding { action: ShortcutAction::Duplicate, setting_key: "edit.duplicate", fallback: "Ctrl+D", editor_only: true }
    } else if index == 18 {
        ShortcutBinding { action: ShortcutAction::Delete, setting_key: "edit.delete", fallback: "Delete", editor_only: true }
    } else if index == 19 {
        ShortcutBinding { action: ShortcutAction::Split, setting_key: "timeline.split", fallback: "S", editor_only: true }
    } else if index == 20 {
        ShortcutBinding { action: ShortcutAction::MoveUp, setting_key: "timeline.moveUp", fallback: "Alt+Up", editor_only: true }
    } else if index == 21 {
        ShortcutBinding { action: ShortcutAction::MoveDown, setting_key: "timeline.moveDown", fallback: "Alt+Down", editor_only: true }
    } else if index == 22 {
        ShortcutBinding { action: ShortcutAction::NudgeLeft, setting_key: "timeline.nudgeLeft", fallback: "Alt+Left", editor_only: true }
    } else if index == 23 {
        ShortcutBinding { action: ShortcutAction::NudgeRight, setting_key: "timeline.nudgeRight", fallback: "Alt+Right", editor_only: true }
    } else if index == 24 {
        ShortcutBinding { action: ShortcutAction::ToggleLayerLock, setting_key: "timeline.layerLock", fallback: "Ctrl+L", editor_only: true }
    } else if index == 25 {
        ShortcutBinding { action: ShortcutAction::ToggleLayerVisibility, setting_key: "timeline.layerHide", fallback: "Ctrl+H", editor_only: true }
    } else if index == 26 {
        ShortcutBinding { action: ShortcutAction::AddScene, setting_key: "timeline.addScene", fallback: "Ctrl+T", editor_only: false }
    } else if index == 27 {
        ShortcutBinding { action: ShortcutAction::SceneSettings, setting_key: "timeline.sceneSettings", fallback: "Alt+S", editor_only: true }
    } else if index == 28 {
        ShortcutBinding { action: ShortcutAction::RemoveScene, setting_key: "timeline.removeScene", fallback: "Ctrl+Shift+Delete", editor_only: true }
    } else if index == 29 {
        ShortcutBinding { action: ShortcutAction::PlayPause, setting_key: "transport.playPause", fallback: "Space", editor_only: false }
    } else if index == 30 {
        ShortcutBinding { action: ShortcutAction::PreviousFrame, setting_key: "transport.prevFrame", fallback: "Left", editor_only: false }
    } else if index == 31 {
        ShortcutBinding { action: ShortcutAction::NextFrame, setting_key: "transport.nextFrame", fallback: "Right", editor_only: false }
    } else if index == 32 {
        ShortcutBinding { action: ShortcutAction::JumpStart, setting_key: "transport.jumpStart", fallback: "Home", editor_only: false }
    } else {
        ShortcutBinding { action: ShortcutAction::JumpEnd, setting_key: "transport.jumpEnd", fallback: "End", editor_only: false }
    }
}

/// The first command, from `index` on, whose configured shortcut accepts
/// the event; commands that only act in editor windows are skipped outside
/// them.
pub open spec fn bound_action(
    configured: Seq<Seq<char>>,
    text: Seq<char>,
    flags: ModifierFlags,
    editor_window: bool,
    macos: bool,
    index: int,
) -> Option<ShortcutAction>
    decreases SHORTCUT_BINDING_COUNT - index,
{
    if index < 0 || index >= SHORTCUT_BINDING_COUNT {
        None
    } else if (!binding(index).editor_only || editor_window) && shortcut_accepts(
        configured[index],
        text,
        flags,
        macos,
    ) {
        Some(binding(index).action)
    } else {
        bound_action(configured, text, flags, editor_window, macos, index + 1)
    }
}

/// The command that a key event triggers. `configured[i]` is the shortcut
/// text configured for the `i`-th binding (its default when unset; an empty
/// text disables it).
pub fn configured_shortcut_action(
    configured: &[String],
    input: &ShortcutInput,
    editor_window: bool,
    macos: bool,
) -> (r: Option<ShortcutAction>)
    requires
        configured@.len() == SHORTCUT_BINDING_COUNT,
    ensures
        r == bound_action(
            string_views(configured@),
            input.text@,
            input.flags(),
            editor_window,
            macos,
            0,
        ),
{
    let ghost views = string_views(configured@);
    let mut i: usize = 0;
    while i < SHORTCUT_BINDING_COUNT
        invariant
            i <= SHORTCUT_BINDING_COUNT,
            configured@.len() == SHORTCUT_BINDING_COUNT,
            views == string_views(configured@),
            bound_action(views, input.text@, input.flags(), editor_window, macos, 0)
                == bound_action(views, input.text@, input.flags(), editor_window, macos, i as int),
        decreases SHORTCUT_BINDING_COUNT - i,
    {
        let b = shortcut_binding(i);
        assert(views[i as int] == configured@[i as int]@);
        if (!b.editor_only || editor_window) && shortcut_matches(
            configured[i].as_str(),
            input,
            macos,
        ) {
            return Some(b.action);
        }
        i = i + 1;
    }
    None
}

// ---------------------------------------------------------------------------
// Native menu accelerators
// ---------------------------------------------------------------------------

/// The `slint::Keys` parts of a pattern: Control, Meta, Alt, then `Shift?`
/// when Shift is ignored or `Shift` when it is required, then the key text.
pub open spec fn native_parts(p: PatternModel) -> Seq<Seq<char>> {
    (if p.flags.control {
        seq!["Control"@]
    } else {
        Seq::empty()
    }) + (if p.flags.meta {
        seq!["Meta"@]
    } else {
        Seq::empty()
    }) + (if p.flags.alt {
        seq!["Alt"@]
    } else {
        Seq::empty()
    }) + (if p.ignore_shift {
        seq!["Shift?"@]
    } else if p.flags.shift {
        seq!["Shift"@]
    } else {
        Seq::empty()
    }) + seq![p.text]
}

/// The accelerator parts of a shortcut text, or `None` when it does not parse.
pub fn native_shortcut_parts(value: &str, macos: bool) -> (r: Option<Vec<String>>)
    ensures
        r matches Some(parts) ==> shortcut_pattern(value@, macos) matches Some(p) && string_views(
            parts@,
        ) == native_parts(p),
        r is None ==> shortcut_pattern(value@, macos) is None,
{
    match parse_shortcut(value, macos) {
        None => None,
        Some(pattern) => {
            let mut parts: Vec<String> = Vec::new();
            let ghost empty: Seq<Seq<char>> = Seq::empty();
            let ghost p1 = if pattern.control { seq!["Control"@] } else { empty };
            let ghost p2 = if pattern.meta { seq!["Meta"@] } else { empty };
            let ghost p3 = if pattern.alt { seq!["Alt"@] } else { empty };
            let ghost p4 = if pattern.ignore_shift {
                seq!["Shift?"@]
            } else if pattern.shift {
                seq!["Shift"@]
            } else {
                empty
            };
            if pattern.control {
                parts.push(String::from_str("Control"));
            }
            assert(string_views(parts@) =~= p1);
            if pattern.meta {
                parts.push(String::from_str("Meta"));
            }
            assert(string_views(parts@) =~= p1 + p2);
            if pattern.alt {
                parts.push(String::from_str("Alt"));
            }
            assert(string_views(parts@) =~= p1 + p2 + p3);
            if pattern.ignore_shift {
                parts.push(String::from_str("Shift?"));
            } else if pattern.shift {
                parts.push(String::from_str("Shift"));
            }
            assert(string_views(parts@) =~= p1 + p2 + p3 + p4);
            let key = pattern.text.clone();
            parts.push(key);
            assert(string_views(parts@) =~= native_parts(pattern.model()));
            Some(parts)
        },
    }
}

#[verifier::external_type_specification]
#[verifier::external_body]
pub struct ExKeys(slint::Keys);

/// What `slint::Keys::from_parts` builds from the parts, or
/// `Keys::default()` when it refuses them.
pub uninterp spec fn slint_keys_of(parts: Seq<Seq<char>>) -> slint::Keys;

/// `slint::Keys::from_parts(parts)`, falling back to `Keys::default()` on its
/// error; the result is named `slint_keys_of(parts)`, a function of the parts.
#[verifier::external_body]
fn keys_from_parts(parts: &[String]) -> (k: slint::Keys)
    ensures
        k == slint_keys_of(string_views(parts@)),
{
    slint::Keys::from_parts(parts.iter().map(|part| part.as_str())).unwrap_or_default()
}

/// The native menu accelerator for a shortcut text; an unparsable text gives
/// the empty accelerator (`from_parts` of no parts is `Keys::default()`).
pub fn native_shortcut(value: &str, macos: bool) -> (k: slint::Keys)
    ensures
        k == slint_keys_of(
            match shortcut_pattern(value@, macos) {
                Some(p) => native_parts(p),
                None => Seq::empty(),
            },
        ),
{
    match native_shortcut_parts(value, macos) {
        Some(parts) => keys_from_parts(parts.as_slice()),
        None => {
            let none: Vec<String> = Vec::new();
            assert(string_views(none@) =~= Seq::<Seq<char>>::empty());
            keys_from_parts(none.as_slice())
        },
    }
}

} // verus!
