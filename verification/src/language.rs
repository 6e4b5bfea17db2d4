//! UI language selection and the choice among per-language texts.
use crate::text::{ascii_lowercase, ascii_lowercase_chars, chars_start_with, has_prefix, trim_str, trimmed};
use vstd::prelude::*;

verus! {

/// The languages of the user interface. English is the source language.
#[derive(Debug, Clone, Copy, PartialEq, Eq, Structural)]
pub enum UiLanguage {
    English,
    SimplifiedChinese,
    Japanese,
}

/// The text for `language` among its three translations.
pub open spec fn pick(
    language: UiLanguage,
    english: Seq<char>,
    simplified_chinese: Seq<char>,
    japanese: Seq<char>,
) -> Seq<char> {
    match language {
        UiLanguage::English => english,
        UiLanguage::SimplifiedChinese => simplified_chinese,
        UiLanguage::Japanese => japanese,
    }
}

impl UiLanguage {
    /// The locale name of the bundled Slint translation.
    pub open spec fn locale_name(self) -> Seq<char> {
        match self {
            UiLanguage::English => "en"@,
            UiLanguage::SimplifiedChinese => "zh_CN"@,
            UiLanguage::Japanese => "ja_JP"@,
        }
    }

    /// The locale under which Slint's bundled translation for this language
    /// is selected.
    pub fn slint_locale(self) -> (r: &'static str)
        ensures
            r@ == self.locale_name(),
    {
        match self {
            UiLanguage::English => "en",
            UiLanguage::SimplifiedChinese => "zh_CN",
            UiLanguage::Japanese => "ja_JP",
        }
    }
}

/// Chooses the text written for `language`.
pub fn localized(
    language: UiLanguage,
    english: &'static str,
    simplified_chinese: &'static str,
    japanese: &'static str,
) -> (r: &'static str)
    ensures
        r@ == pick(language, english@, simplified_chinese@, japanese@),
{
    match language {
        UiLanguage::English => english,
        UiLanguage::SimplifiedChinese => simplified_chinese,
        UiLanguage::Japanese => japanese,
    }
}

/// The language that a locale name selects: Chinese for `zh…`, Japanese for
/// `ja…` (ignoring case and surrounding whitespace), English otherwise.
pub open spec fn language_of_locale(locale: Seq<char>) -> UiLanguage {
    let l = ascii_lowercase(trimmed(locale));
    if has_prefix(l, "zh"@) {
        UiLanguage::SimplifiedChinese
    } else if has_prefix(l, "ja"@) {
        UiLanguage::Japanese
    } else {
        UiLanguage::English
    }
}

/// Picks the UI language for an operating-system locale; English is the
/// fallback for every locale that is neither Chinese nor Japanese.
pub fn ui_language_from_locale(locale: &str) -> (r: UiLanguage)
    ensures
        r == language_of_locale(locale@),
{
    let t = trim_str(locale);
    let l = ascii_lowercase_chars(t.as_slice());
    let zh = ['z', 'h'];
    let ja = ['j', 'a'];
    assert(zh@ =~= "zh"@) by {
        reveal_strlit("zh");
    }
    assert(ja@ =~= "ja"@) by {
        reveal_strlit("ja");
    }
    if chars_start_with(l.as_slice(), &zh) {
        UiLanguage::SimplifiedChinese
    } else if chars_start_with(l.as_slice(), &ja) {
        UiLanguage::Japanese
    } else {
        UiLanguage::English
    }
}

/// The language that the `uiLanguage` setting names, or `None` for
/// `System` and any other value, which follow the operating-system locale.
pub open spec fn configured_language(setting: Seq<char>) -> Option<UiLanguage> {
    if setting == "SimplifiedChinese"@ {
        Some(UiLanguage::SimplifiedChinese)
    } else if setting == "Japanese"@ {
        Some(UiLanguage::Japanese)
    } else if setting == "English"@ {
        Some(UiLanguage::English)
    } else {
        None
    }
}

/// Reads the persisted `uiLanguage` setting; `None` asks the caller to follow
/// the operating-system locale.
pub fn configured_ui_language(setting: &str) -> (r: Option<UiLanguage>)
    ensures
        r == configured_language(setting@),
{
    if crate::text::str_eq(setting, "SimplifiedChinese") {
        Some(UiLanguage::SimplifiedChinese)
    } else if crate::text::str_eq(setting, "Japanese") {
        Some(UiLanguage::Japanese)
    } else if crate::text::str_eq(setting, "English") {
        Some(UiLanguage::English)
    } else {
        None
    }
}

} // verus!
