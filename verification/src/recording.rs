//! What a recorded shortcut does: recorded from a key event, it fires for
//! that same event again.
use crate::shortcuts::{
    key_text, kept_fields, modifier_effect, modifier_flags, named_key_index, named_key_with_code,
    no_modifiers, plus_fields, record_key_name, recorded_key, recorded_shortcut, recorded_text,
    shortcut_accepts, shortcut_pattern, slint_key_code, ModifierFlags, PatternModel,
};
use crate::text::{
    ascii_lower, ascii_lowercase, ascii_or_private, ascii_upper, ascii_uppercase, is_control_char,
    is_white_space, trim_end, trim_start, trimmed,
    unicode_lowercase, unicode_uppercase,
};
use vstd::prelude::*;

verus! {

/// The text holds no `+`.
pub open spec fn no_plus(s: Seq<char>) -> bool {
    forall|k: int| 0 <= k < s.len() ==> s[k] != '+'
}

/// Each modifier name followed by `+`.
pub open spec fn prefix_of(names: Seq<Seq<char>>) -> Seq<char>
    decreases names.len(),
{
    if names.len() == 0 {
        Seq::empty()
    } else {
        prefix_of(names.drop_last()) + names.last() + seq!['+']
    }
}

proof fn lemma_plus_fields_plain(b: Seq<char>)
    requires
        no_plus(b),
    ensures
        plus_fields(b) == seq![b],
    decreases b.len(),
{
    if b.len() > 0 {
        assert(no_plus(b.drop_last())) by {
            assert forall|k: int| 0 <= k < b.drop_last().len() implies b.drop_last()[k] != '+' by {
                assert(b.drop_last()[k] == b[k]);
            }
        }
        lemma_plus_fields_plain(b.drop_last());
        assert(b[b.len() - 1] != '+');
        assert(b.drop_last().push(b.last()) =~= b);
    } else {
        assert(b =~= Seq::<char>::empty());
    }
}

proof fn lemma_plus_fields_after_plus(a: Seq<char>, b: Seq<char>)
    requires
        no_plus(b),
    ensures
        plus_fields(a + seq!['+'] + b) == plus_fields(a).push(b),
    decreases b.len(),
{
    let s = a + seq!['+'] + b;
    if b.len() == 0 {
        assert(s.drop_last() =~= a);
        assert(s.last() == '+');
        assert(b =~= Seq::<char>::empty());
    } else {
        let c = b.last();
        let b0 = b.drop_last();
        lemma_plus_fields_after_plus(a, b0);
        assert(no_plus(b0)) by {
            assert forall|k: int| 0 <= k < b0.len() implies b0[k] != '+' by {
                assert(b0[k] == b[k]);
            }
        }
        assert(s.drop_last() =~= a + seq!['+'] + b0);
        assert(s.last() == c);
        assert(b[b.len() - 1] != '+');
        assert(b0.push(c) =~= b);
        assert(plus_fields(a).push(b0).update(plus_fields(a).len() as int, b0.push(c))
            =~= plus_fields(a).push(b));
    }
}

proof fn lemma_plus_fields_prefixed(names: Seq<Seq<char>>, b: Seq<char>)
    requires
        forall|k: int| 0 <= k < names.len() ==> no_plus(#[trigger] names[k]),
        no_plus(b),
    ensures
        plus_fields(prefix_of(names) + b) == names.push(b),
    decreases names.len(),
{
    if names.len() == 0 {
        lemma_plus_fields_plain(b);
        assert(prefix_of(names) + b =~= b);
        assert(names.push(b) =~= seq![b]);
    } else {
        let init = names.drop_last();
        let n = names.last();
        assert(no_plus(names[names.len() - 1]));
        lemma_plus_fields_prefixed(init, n);
        lemma_plus_fields_after_plus(prefix_of(init) + n, b);
        assert(prefix_of(names) + b =~= (prefix_of(init) + n) + seq!['+'] + b);
        assert(init.push(n).push(b) =~= names.push(b));
        assert(init.push(n) =~= names);
    }
}

/// The modifier names a recorded shortcut writes, in order: `Ctrl`, `Meta`,
/// `Alt`, then `Shift` unless the key is the plus key.
pub open spec fn modifier_names(flags: ModifierFlags, key: Seq<char>) -> Seq<Seq<char>> {
    let n1: Seq<Seq<char>> = if flags.control {
        seq!["Ctrl"@]
    } else {
        Seq::empty()
    };
    let n2 = if flags.meta {
        n1.push("Meta"@)
    } else {
        n1
    };
    let n3 = if flags.alt {
        n2.push("Alt"@)
    } else {
        n2
    };
    if flags.shift && key != "+"@ {
        n3.push("Shift"@)
    } else {
        n3
    }
}

/// The modifiers a recorded shortcut sets: those of the event, without
/// Shift for the plus key.
pub open spec fn recorded_flags(flags: ModifierFlags, key: Seq<char>) -> ModifierFlags {
    ModifierFlags { shift: flags.shift && key != "+"@, ..flags }
}

proof fn lemma_prefix_push(names: Seq<Seq<char>>, n: Seq<char>)
    ensures
        prefix_of(names.push(n)) == prefix_of(names) + n + seq!['+'],
{
    assert(names.push(n).drop_last() =~= names);
}

proof fn lemma_recorded_text_split(flags: ModifierFlags, key: Seq<char>)
    ensures
        recorded_text(flags, key) == prefix_of(modifier_names(flags, key)) + key,
{
    reveal_strlit("Ctrl+");
    reveal_strlit("Meta+");
    reveal_strlit("Alt+");
    reveal_strlit("Shift+");
    reveal_strlit("Ctrl");
    reveal_strlit("Meta");
    reveal_strlit("Alt");
    reveal_strlit("Shift");
    let empty: Seq<Seq<char>> = Seq::empty();
    let n1: Seq<Seq<char>> = if flags.control {
        seq!["Ctrl"@]
    } else {
        empty
    };
    let n2 = if flags.meta {
        n1.push("Meta"@)
    } else {
        n1
    };
    let n3 = if flags.alt {
        n2.push("Alt"@)
    } else {
        n2
    };
    assert(prefix_of(empty) =~= Seq::<char>::empty());
    if flags.control {
        lemma_prefix_push(empty, "Ctrl"@);
        assert(empty.push("Ctrl"@) =~= n1);
    }
    lemma_prefix_push(n1, "Meta"@);
    lemma_prefix_push(n2, "Alt"@);
    lemma_prefix_push(n3, "Shift"@);
    let p1: Seq<char> = if flags.control {
        "Ctrl+"@
    } else {
        Seq::empty()
    };
    let p2: Seq<char> = if flags.meta {
        "Meta+"@
    } else {
        Seq::empty()
    };
    let p3: Seq<char> = if flags.alt {
        "Alt+"@
    } else {
        Seq::empty()
    };
    let p4: Seq<char> = if flags.shift && key != "+"@ {
        "Shift+"@
    } else {
        Seq::empty()
    };
    assert(prefix_of(n1) =~= p1);
    assert(prefix_of(n2) =~= p1 + p2);
    assert(prefix_of(n3) =~= p1 + p2 + p3);
    assert(prefix_of(modifier_names(flags, key)) =~= p1 + p2 + p3 + p4);
    assert(recorded_text(flags, key) =~= p1 + p2 + p3 + p4 + key);
}

/// A field that `+`-splitting and trimming leave as it is.
pub open spec fn plain_field(s: Seq<char>) -> bool {
    &&& s.len() > 0
    &&& no_plus(s)
    &&& !is_white_space(s[0])
    &&& !is_white_space(s.last())
}

proof fn lemma_trimmed_plain(s: Seq<char>)
    requires
        s.len() > 0,
        !is_white_space(s[0]),
        !is_white_space(s.last()),
    ensures
        trimmed(s) == s,
{
    assert(trim_start(s) == s);
    assert(trim_end(s) == s);
}

proof fn lemma_kept_plain(names: Seq<Seq<char>>)
    requires
        forall|k: int| 0 <= k < names.len() ==> plain_field(#[trigger] names[k]),
    ensures
        kept_fields(names) == names,
    decreases names.len(),
{
    if names.len() > 0 {
        let init = names.drop_last();
        assert forall|k: int| 0 <= k < init.len() implies plain_field(#[trigger] init[k]) by {
            assert(init[k] == names[k]);
        }
        lemma_kept_plain(init);
        assert(plain_field(names[names.len() - 1]));
        lemma_trimmed_plain(names.last());
        assert(init.push(names.last()) =~= names);
    }
}

proof fn lemma_kept_empty_tail(names: Seq<Seq<char>>)
    ensures
        kept_fields(names.push(Seq::empty())) == kept_fields(names),
{
    assert(names.push(Seq::empty()).drop_last() =~= names);
    assert(trim_start(Seq::<char>::empty()) =~= Seq::<char>::empty());
    assert(trim_end(Seq::<char>::empty()) =~= Seq::<char>::empty());
}

proof fn lemma_flags_push(names: Seq<Seq<char>>, n: Seq<char>, macos: bool)
    ensures
        modifier_flags(names.push(n), macos) == match modifier_flags(names, macos) {
            Some(f) => modifier_effect(f, ascii_lowercase(n), macos),
            None => None,
        },
{
    assert(names.push(n).drop_last() =~= names);
    assert(names.push(n).last() == n);
}

proof fn lemma_modifier_names_plain(flags: ModifierFlags, key: Seq<char>)
    ensures
        forall|k: int|
            0 <= k < modifier_names(flags, key).len() ==> plain_field(
                #[trigger] modifier_names(flags, key)[k],
            ),
        modifier_flags(modifier_names(flags, key), false) == Some(recorded_flags(flags, key)),
        modifier_flags(modifier_names(flags, key), true) == Some(recorded_flags(flags, key)),
{
    reveal_strlit("Ctrl");
    reveal_strlit("Meta");
    reveal_strlit("Alt");
    reveal_strlit("Shift");
    reveal_strlit("ctrl");
    reveal_strlit("meta");
    reveal_strlit("alt");
    reveal_strlit("shift");
    reveal_strlit("cmd");
    reveal_strlit("command");
    reveal_strlit("control");
    reveal_strlit("super");
    reveal_strlit("option");
    assert(ascii_lowercase("Ctrl"@) =~= "ctrl"@);
    assert(ascii_lowercase("Meta"@) =~= "meta"@);
    assert(ascii_lowercase("Alt"@) =~= "alt"@);
    assert(ascii_lowercase("Shift"@) =~= "shift"@);
    assert(plain_field("Ctrl"@));
    assert(plain_field("Meta"@));
    assert(plain_field("Alt"@));
    assert(plain_field("Shift"@));
    let empty: Seq<Seq<char>> = Seq::empty();
    let n1: Seq<Seq<char>> = if flags.control {
        seq!["Ctrl"@]
    } else {
        empty
    };
    let n2 = if flags.meta {
        n1.push("Meta"@)
    } else {
        n1
    };
    let n3 = if flags.alt {
        n2.push("Alt"@)
    } else {
        n2
    };
    let names = modifier_names(flags, key);
    let f0 = no_modifiers();
    let f1 = ModifierFlags { control: flags.control, ..f0 };
    let f2 = ModifierFlags { meta: flags.meta, ..f1 };
    let f3 = ModifierFlags { alt: flags.alt, ..f2 };
    assert forall|macos: bool| modifier_flags(names, macos) == Some(recorded_flags(flags, key)) by {
        assert(modifier_flags(empty, macos) == Some(f0));
        if flags.control {
            lemma_flags_push(empty, "Ctrl"@, macos);
            assert(empty.push("Ctrl"@) =~= n1);
            assert(modifier_effect(f0, "ctrl"@, macos) == Some(f1));
        } else {
            assert(f1 == f0);
        }
        assert(modifier_flags(n1, macos) == Some(f1));
        if flags.meta {
            lemma_flags_push(n1, "Meta"@, macos);
            assert("meta"@ != "ctrl"@) by {
                assert("meta"@[0] != "ctrl"@[0]);
            }
            assert(modifier_effect(f1, "meta"@, macos) == Some(f2));
        } else {
            assert(f2 == f1);
        }
        assert(modifier_flags(n2, macos) == Some(f2));
        if flags.alt {
            lemma_flags_push(n2, "Alt"@, macos);
            assert("alt"@ != "cmd"@) by {
                assert("alt"@[0] != "cmd"@[0]);
            }
            assert(modifier_effect(f2, "alt"@, macos) == Some(f3));
        } else {
            assert(f3 == f2);
        }
        assert(modifier_flags(n3, macos) == Some(f3));
        if flags.shift && key != "+"@ {
            lemma_flags_push(n3, "Shift"@, macos);
            assert("shift"@ != "super"@) by {
                assert("shift"@[1] != "super"@[1]);
            }
            assert(modifier_effect(f3, "shift"@, macos) == Some(recorded_flags(flags, key)));
        } else {
            assert(recorded_flags(flags, key) == f3);
        }
    }
    assert forall|k: int| 0 <= k < names.len() implies plain_field(#[trigger] names[k]) by {
        let x = names[k];
        assert(x == "Ctrl"@ || x == "Meta"@ || x == "Alt"@ || x == "Shift"@);
    }
}

proof fn lemma_prefix_first(names: Seq<Seq<char>>)
    requires
        names.len() > 0,
        names[0].len() > 0,
    ensures
        prefix_of(names).len() > 0,
        prefix_of(names)[0] == names[0][0],
    decreases names.len(),
{
    if names.len() > 1 {
        let init = names.drop_last();
        assert(init[0] == names[0]);
        lemma_prefix_first(init);
    } else {
        assert(names.drop_last() =~= Seq::<Seq<char>>::empty());
        assert(prefix_of(names.drop_last()) =~= Seq::<char>::empty());
        assert(prefix_of(names) =~= names.last() + seq!['+']);
    }
}

proof fn lemma_value_trimmed(names: Seq<Seq<char>>, key: Seq<char>)
    requires
        forall|k: int| 0 <= k < names.len() ==> plain_field(#[trigger] names[k]),
        key.len() > 0,
        !is_white_space(key[0]),
        !is_white_space(key.last()),
    ensures
        trimmed(prefix_of(names) + key) == prefix_of(names) + key,
        (prefix_of(names) + key).last() == key.last(),
{
    let value = prefix_of(names) + key;
    if names.len() > 0 {
        assert(plain_field(names[0]));
        lemma_prefix_first(names);
        assert(value[0] == names[0][0]);
    } else {
        assert(prefix_of(names) =~= Seq::<char>::empty());
        assert(value =~= key);
    }
    assert(value.last() == key.last());
    lemma_trimmed_plain(value);
}

/// The pattern of a recorded shortcut whose key is not the plus key.
proof fn lemma_pattern_of_plain_key(flags: ModifierFlags, key: Seq<char>, macos: bool)
    requires
        plain_field(key),
    ensures
        shortcut_pattern(recorded_text(flags, key), macos) == match key_text(key) {
            Some(t) => Some(PatternModel { text: t, flags: recorded_flags(flags, key), ignore_shift: false }),
            None => None,
        },
{
    reveal_strlit("+");
    let names = modifier_names(flags, key);
    lemma_recorded_text_split(flags, key);
    lemma_modifier_names_plain(flags, key);
    let value = prefix_of(names) + key;
    lemma_value_trimmed(names, key);
    assert(key[key.len() - 1] != '+');
    lemma_plus_fields_prefixed(names, key);
    let fields = names.push(key);
    assert forall|k: int| 0 <= k < fields.len() implies plain_field(#[trigger] fields[k]) by {
        if k < names.len() {
            assert(fields[k] == names[k]);
        }
    }
    lemma_kept_plain(fields);
    assert(fields.last() == key);
    assert(fields.drop_last() =~= names);
    assert(key != "+"@) by {
        if key.len() == 1 {
            assert(key[0] != '+');
        }
    }
}

/// The pattern of a recorded shortcut for the plus key.
proof fn lemma_pattern_of_plus_key(flags: ModifierFlags, macos: bool)
    ensures
        shortcut_pattern(recorded_text(flags, "+"@), macos) == match key_text(seq!['+']) {
            Some(t) => Some(PatternModel { text: t, flags: recorded_flags(flags, "+"@), ignore_shift: true }),
            None => None,
        },
{
    reveal_strlit("+");
    let key = "+"@;
    assert(key =~= seq!['+']);
    let names = modifier_names(flags, key);
    lemma_recorded_text_split(flags, key);
    lemma_modifier_names_plain(flags, key);
    let value = prefix_of(names) + key;
    assert(!is_white_space('+'));
    lemma_value_trimmed(names, key);
    let empty: Seq<char> = Seq::empty();
    assert(no_plus(empty));
    lemma_plus_fields_after_plus(prefix_of(names), empty);
    assert(value =~= prefix_of(names) + seq!['+'] + empty);
    lemma_plus_fields_prefixed(names, empty);
    assert(prefix_of(names) + empty =~= prefix_of(names));
    assert(plus_fields(value) == names.push(empty).push(empty));
    lemma_kept_empty_tail(names.push(empty));
    lemma_kept_empty_tail(names);
    lemma_kept_plain(names);
    assert(kept_fields(plus_fields(value)) == names);
}

/// The lengths of the key names, and where names of one length differ.
proof fn lemma_key_name_texts()
    ensures
        "arrowdown"@.len() == 9,
        "arrowleft"@.len() == 9,
        "arrowright"@.len() == 10,
        "arrowup"@.len() == 7,
        "backspace"@.len() == 9,
        "del"@.len() == 3,
        "delete"@.len() == 6,
        "down"@.len() == 4,
        "end"@.len() == 3,
        "enter"@.len() == 5,
        "esc"@.len() == 3,
        "escape"@.len() == 6,
        "f1"@.len() == 2,
        "f10"@.len() == 3,
        "f11"@.len() == 3,
        "f12"@.len() == 3,
        "f2"@.len() == 2,
        "f3"@.len() == 2,
        "f4"@.len() == 2,
        "f5"@.len() == 2,
        "f6"@.len() == 2,
        "f7"@.len() == 2,
        "f8"@.len() == 2,
        "f9"@.len() == 2,
        "home"@.len() == 4,
        "left"@.len() == 4,
        "pagedown"@.len() == 8,
        "pageup"@.len() == 6,
        "return"@.len() == 6,
        "right"@.len() == 5,
        "space"@.len() == 5,
        "tab"@.len() == 3,
        "up"@.len() == 2,
        "backspace"@[0] != "arrowdown"@[0],
        "backspace"@[0] != "arrowleft"@[0],
        "delete"@[0] != "escape"@[0],
        "delete"@[0] != "return"@[0],
        "down"@[0] != "left"@[0],
        "end"@[0] != "del"@[0],
        "end"@[1] != "esc"@[1],
        "end"@[0] != "tab"@[0],
        "enter"@[0] != "right"@[0],
        "f1"@[0] != "up"@[0],
        "f10"@[0] != "del"@[0],
        "f10"@[0] != "end"@[0],
        "f10"@[0] != "esc"@[0],
        "f10"@[0] != "tab"@[0],
        "f11"@[0] != "del"@[0],
        "f11"@[0] != "end"@[0],
        "f11"@[0] != "esc"@[0],
        "f11"@[2] != "f10"@[2],
        "f11"@[0] != "tab"@[0],
        "f12"@[0] != "del"@[0],
        "f12"@[0] != "end"@[0],
        "f12"@[0] != "esc"@[0],
        "f12"@[2] != "f10"@[2],
        "f12"@[2] != "f11"@[2],
        "f12"@[0] != "tab"@[0],
        "f2"@[1] != "f1"@[1],
        "f2"@[0] != "up"@[0],
        "f3"@[1] != "f1"@[1],
        "f3"@[1] != "f2"@[1],
        "f3"@[0] != "up"@[0],
        "f4"@[1] != "f1"@[1],
        "f4"@[1] != "f2"@[1],
        "f4"@[1] != "f3"@[1],
        "f4"@[0] != "up"@[0],
        "f5"@[1] != "f1"@[1],
        "f5"@[1] != "f2"@[1],
        "f5"@[1] != "f3"@[1],
        "f5"@[1] != "f4"@[1],
        "f5"@[0] != "up"@[0],
        "f6"@[1] != "f1"@[1],
        "f6"@[1] != "f2"@[1],
        "f6"@[1] != "f3"@[1],
        "f6"@[1] != "f4"@[1],
        "f6"@[1] != "f5"@[1],
        "f6"@[0] != "up"@[0],
        "f7"@[1] != "f1"@[1],
        "f7"@[1] != "f2"@[1],
        "f7"@[1] != "f3"@[1],
        "f7"@[1] != "f4"@[1],
        "f7"@[1] != "f5"@[1],
        "f7"@[1] != "f6"@[1],
        "f7"@[0] != "up"@[0],
        "f8"@[1] != "f1"@[1],
        "f8"@[1] != "f2"@[1],
        "f8"@[1] != "f3"@[1],
        "f8"@[1] != "f4"@[1],
        "f8"@[1] != "f5"@[1],
        "f8"@[1] != "f6"@[1],
        "f8"@[1] != "f7"@[1],
        "f8"@[0] != "up"@[0],
        "f9"@[1] != "f1"@[1],
        "f9"@[1] != "f2"@[1],
        "f9"@[1] != "f3"@[1],
        "f9"@[1] != "f4"@[1],
        "f9"@[1] != "f5"@[1],
        "f9"@[1] != "f6"@[1],
        "f9"@[1] != "f7"@[1],
        "f9"@[1] != "f8"@[1],
        "f9"@[0] != "up"@[0],
        "home"@[0] != "down"@[0],
        "home"@[0] != "left"@[0],
        "pageup"@[0] != "delete"@[0],
        "pageup"@[0] != "escape"@[0],
        "pageup"@[0] != "return"@[0],
        "space"@[0] != "enter"@[0],
        "space"@[0] != "right"@[0],
        "tab"@[0] != "esc"@[0],
{
    reveal_strlit("arrowdown");
    reveal_strlit("arrowleft");
    reveal_strlit("arrowright");
    reveal_strlit("arrowup");
    reveal_strlit("backspace");
    reveal_strlit("del");
    reveal_strlit("delete");
    reveal_strlit("down");
    reveal_strlit("end");
    reveal_strlit("enter");
    reveal_strlit("esc");
    reveal_strlit("escape");
    reveal_strlit("f1");
    reveal_strlit("f10");
    reveal_strlit("f11");
    reveal_strlit("f12");
    reveal_strlit("f2");
    reveal_strlit("f3");
    reveal_strlit("f4");
    reveal_strlit("f5");
    reveal_strlit("f6");
    reveal_strlit("f7");
    reveal_strlit("f8");
    reveal_strlit("f9");
    reveal_strlit("home");
    reveal_strlit("left");
    reveal_strlit("pagedown");
    reveal_strlit("pageup");
    reveal_strlit("return");
    reveal_strlit("right");
    reveal_strlit("space");
    reveal_strlit("tab");
    reveal_strlit("up");
}

/// Named key names, as recording writes them, parse back to their key.
proof fn lemma_named_key_names(i: int)
    requires
        0 <= i < 26,
        i != 4,
    ensures
        plain_field(record_key_name(i)),
        named_key_index(ascii_lowercase(record_key_name(i))) == Some(i),
{
    lemma_key_name_texts();
    if i == 6 {
        reveal_strlit("Backspace");
        reveal_strlit("backspace");
        assert(ascii_lowercase("Backspace"@) =~= "backspace"@);
    } else if i == 9 {
        reveal_strlit("Delete");
        reveal_strlit("delete");
        assert(ascii_lowercase("Delete"@) =~= "delete"@);
    } else if i == 3 {
        reveal_strlit("Down");
        reveal_strlit("down");
        assert(ascii_lowercase("Down"@) =~= "down"@);
    } else if i == 11 {
        reveal_strlit("End");
        reveal_strlit("end");
        assert(ascii_lowercase("End"@) =~= "end"@);
    } else if i == 7 {
        reveal_strlit("Enter");
        reveal_strlit("enter");
        assert(ascii_lowercase("Enter"@) =~= "enter"@);
    } else if i == 14 {
        reveal_strlit("F1");
        reveal_strlit("f1");
        assert(ascii_lowercase("F1"@) =~= "f1"@);
    } else if i == 23 {
        reveal_strlit("F10");
        reveal_strlit("f10");
        assert(ascii_lowercase("F10"@) =~= "f10"@);
    } else if i == 24 {
        reveal_strlit("F11");
        reveal_strlit("f11");
        assert(ascii_lowercase("F11"@) =~= "f11"@);
    } else if i == 25 {
        reveal_strlit("F12");
        reveal_strlit("f12");
        assert(ascii_lowercase("F12"@) =~= "f12"@);
    } else if i == 15 {
        reveal_strlit("F2");
        reveal_strlit("f2");
        assert(ascii_lowercase("F2"@) =~= "f2"@);
    } else if i == 16 {
        reveal_strlit("F3");
        reveal_strlit("f3");
        assert(ascii_lowercase("F3"@) =~= "f3"@);
    } else if i == 17 {
        reveal_strlit("F4");
        reveal_strlit("f4");
        assert(ascii_lowercase("F4"@) =~= "f4"@);
    } else if i == 18 {
        reveal_strlit("F5");
        reveal_strlit("f5");
        assert(ascii_lowercase("F5"@) =~= "f5"@);
    } else if i == 19 {
        reveal_strlit("F6");
        reveal_strlit("f6");
        assert(ascii_lowercase("F6"@) =~= "f6"@);
    } else if i == 20 {
        reveal_strlit("F7");
        reveal_strlit("f7");
        assert(ascii_lowercase("F7"@) =~= "f7"@);
    } else if i == 21 {
        reveal_strlit("F8");
        reveal_strlit("f8");
        assert(ascii_lowercase("F8"@) =~= "f8"@);
    } else if i == 22 {
        reveal_strlit("F9");
        reveal_strlit("f9");
        assert(ascii_lowercase("F9"@) =~= "f9"@);
    } else if i == 10 {
        reveal_strlit("Home");
        reveal_strlit("home");
        assert(ascii_lowercase("Home"@) =~= "home"@);
    } else if i == 0 {
        reveal_strlit("Left");
        reveal_strlit("left");
        assert(ascii_lowercase("Left"@) =~= "left"@);
    } else if i == 13 {
        reveal_strlit("PageDown");
        reveal_strlit("pagedown");
        assert(ascii_lowercase("PageDown"@) =~= "pagedown"@);
    } else if i == 12 {
        reveal_strlit("PageUp");
        reveal_strlit("pageup");
        assert(ascii_lowercase("PageUp"@) =~= "pageup"@);
    } else if i == 1 {
        reveal_strlit("Right");
        reveal_strlit("right");
        assert(ascii_lowercase("Right"@) =~= "right"@);
    } else if i == 8 {
        reveal_strlit("Space");
        reveal_strlit("space");
        assert(ascii_lowercase("Space"@) =~= "space"@);
    } else if i == 5 {
        reveal_strlit("Tab");
        reveal_strlit("tab");
        assert(ascii_lowercase("Tab"@) =~= "tab"@);
    } else if i == 2 {
        reveal_strlit("Up");
        reveal_strlit("up");
        assert(ascii_lowercase("Up"@) =~= "up"@);
    }
}

pub(crate) proof fn lemma_named_code_found(c: char, from: int)
    requires
        0 <= from,
    ensures
        named_key_with_code(c, from) matches Some(i) ==> from <= i < 26 && i != 4
            && slint_key_code(i) == c,
    decreases 26 - from,
{
    if from < 26 && !(from != 4 && slint_key_code(from) == c) {
        lemma_named_code_found(c, from + 1);
    }
}

/// An event text whose uppercase form stands for it: the uppercase form
/// lowercases as the text does, is the plus key or has neither `+` nor
/// whitespace at its ends, and is no key name.
pub open spec fn uppercase_stands_for(text: Seq<char>) -> bool {
    let upper = unicode_uppercase(text);
    &&& unicode_lowercase(upper) == unicode_lowercase(text)
    &&& (upper == seq!['+'] || plain_field(upper))
    &&& named_key_index(ascii_lowercase(upper)) is None
}

/// The uppercase form of a recordable ASCII character that is no named key
/// stands for it, once that form lowercases as the character does: it is
/// one character, `+` only for `+`, no whitespace and no key name.
pub(crate) proof fn lemma_ascii_upper_stands_for(text: Seq<char>)
    requires
        text.len() == 1,
        (text[0] as u32) < 0x80,
        !is_control_char(text[0]),
        named_key_with_code(text[0], 0) is None,
        unicode_uppercase(text) == ascii_uppercase(text),
        unicode_lowercase(unicode_uppercase(text)) == unicode_lowercase(text),
    ensures
        uppercase_stands_for(text),
{
    reveal_with_fuel(named_key_with_code, 10);
    lemma_key_name_texts();
    let c = text[0];
    let upper = ascii_uppercase(text);
    assert(upper.len() == 1 && upper[0] == ascii_upper(c));
    assert(c != ' ') by {
        if c == ' ' {
            assert(named_key_with_code(' ', 0) == Some(8int));
        }
    }
    if c == '+' {
        assert(upper =~= seq!['+']);
    } else {
        assert(upper[0] != '+');
        assert(no_plus(upper));
        assert(!is_white_space(upper[0]));
        assert(plain_field(upper));
    }
    assert(ascii_lowercase(upper).len() == 1);
    assert(named_key_index(ascii_lowercase(upper)) is None);
}

/// The character of each named key has no lowercase mapping.
pub(crate) proof fn lemma_named_codes_keep_lowercase(i: int)
    requires
        0 <= i < 26,
    ensures
        ascii_or_private(slint_key_code(i)),
        ascii_lower(slint_key_code(i)) == slint_key_code(i),
{
}

/// A shortcut recorded from a key event is accepted for that event again:
/// for a named key whose character lowercases to itself, and for any other
/// key whose uppercase form stands for its text.
pub(crate) proof fn lemma_recorded_shortcut_accepted(
    text: Seq<char>,
    flags: ModifierFlags,
    macos: bool,
)
    requires
        recorded_shortcut(text, flags, macos) is Some,
        named_key_with_code(text[0], 0) is Some ==> unicode_lowercase(text) == text,
        named_key_with_code(text[0], 0) is None ==> uppercase_stands_for(text),
    ensures
        shortcut_accepts(recorded_shortcut(text, flags, macos)->0, text, flags, macos),
{
    reveal_strlit("+");
    let key = recorded_key(text)->0;
    let value = recorded_text(flags, key);
    assert(recorded_shortcut(text, flags, macos) == Some(value));
    lemma_named_code_found(text[0], 0);
    match named_key_with_code(text[0], 0) {
        Some(i) => {
            lemma_named_key_names(i);
            assert(key == record_key_name(i));
            lemma_pattern_of_plain_key(flags, key, macos);
            lemma_trimmed_plain(key);
            assert(key_text(key) == Some(seq![slint_key_code(i)]));
            assert(seq![slint_key_code(i)] =~= text);
            assert(key != "+"@) by {
                assert(no_plus(key));
                if key.len() == 1 {
                    assert(key[0] != '+');
                }
            }
        },
        None => {
            let upper = unicode_uppercase(text);
            assert(key == upper);
            if upper == seq!['+'] {
                assert(upper =~= "+"@);
                lemma_pattern_of_plus_key(flags, macos);
                assert(!is_white_space('+'));
                lemma_trimmed_plain(seq!['+']);
                assert(ascii_lowercase(seq!['+']) =~= seq!['+']);
            } else {
                lemma_pattern_of_plain_key(flags, key, macos);
                lemma_trimmed_plain(key);
                assert(key != "+"@) by {
                    if key.len() == 1 {
                        assert(key[0] != '+');
                    }
                }
            }
        },
    }
}

} // verus!
