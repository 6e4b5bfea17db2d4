//! Translation catalogs for effect metadata (names, categories, parameter
//! labels): sorted source/translation pairs looked up by binary search.
use crate::language::UiLanguage;
use crate::text::{chars_of, string_of};
use vstd::prelude::*;

verus! {

// ---------------------------------------------------------------------------
// Lexicographic order of texts
// ---------------------------------------------------------------------------

/// `a` sorts before `b` in the order of `str`'s `Ord`: the first differing
/// character decides, and a proper prefix comes first.
pub open spec fn text_less(a: Seq<char>, b: Seq<char>) -> bool
    decreases a.len(),
{
    if a.len() == 0 {
        b.len() > 0
    } else if b.len() == 0 {
        false
    } else if a[0] != b[0] {
        a[0] < b[0]
    } else {
        text_less(a.drop_first(), b.drop_first())
    }
}

pub proof fn lemma_text_less_irreflexive(a: Seq<char>)
    ensures
        !text_less(a, a),
    decreases a.len(),
{
    if a.len() > 0 {
        lemma_text_less_irreflexive(a.drop_first());
    }
}

pub proof fn lemma_text_less_transitive(a: Seq<char>, b: Seq<char>, c: Seq<char>)
    requires
        text_less(a, b),
        text_less(b, c),
    ensures
        text_less(a, c),
    decreases a.len(),
{
    if a.len() > 0 && b.len() > 0 && c.len() > 0 {
        if a[0] == b[0] && b[0] == c[0] {
            lemma_text_less_transitive(a.drop_first(), b.drop_first(), c.drop_first());
        }
    }
}

/// Two texts are equal or one comes first.
pub proof fn lemma_text_less_total(a: Seq<char>, b: Seq<char>)
    ensures
        a == b || text_less(a, b) || text_less(b, a),
    decreases a.len(),
{
    if a.len() > 0 && b.len() > 0 && a[0] == b[0] {
        lemma_text_less_total(a.drop_first(), b.drop_first());
        if a.drop_first() == b.drop_first() {
            assert(a =~= seq![a[0]] + a.drop_first());
            assert(b =~= seq![b[0]] + b.drop_first());
        }
    } else if a.len() == 0 && b.len() == 0 {
        assert(a =~= b);
    }
}

proof fn lemma_text_less_common_prefix(a: Seq<char>, b: Seq<char>, i: int)
    requires
        0 <= i <= a.len(),
        i <= b.len(),
        a.take(i) == b.take(i),
    ensures
        text_less(a, b) == text_less(a.skip(i), b.skip(i)),
    decreases i,
{
    if i > 0 {
        assert(a[0] == a.take(i)[0]);
        assert(b[0] == b.take(i)[0]);
        assert(a.drop_first().take(i - 1) =~= a.take(i).drop_first());
        assert(b.drop_first().take(i - 1) =~= b.take(i).drop_first());
        lemma_text_less_common_prefix(a.drop_first(), b.drop_first(), i - 1);
        assert(a.drop_first().skip(i - 1) =~= a.skip(i));
        assert(b.drop_first().skip(i - 1) =~= b.skip(i));
    } else {
        assert(a.skip(0) =~= a);
        assert(b.skip(0) =~= b);
    }
}

/// The outcome of comparing two texts.
#[derive(Debug, Clone, Copy, PartialEq, Eq, Structural)]
pub enum TextOrder {
    Before,
    Same,
    After,
}

/// Compares two texts in the order of `str`'s `Ord`.
pub fn compare_text(a: &[char], b: &[char]) -> (r: TextOrder)
    ensures
        r == TextOrder::Before <==> text_less(a@, b@),
        r == TextOrder::Same <==> a@ == b@,
        r == TextOrder::After <==> text_less(b@, a@),
{
    let mut i: usize = 0;
    while i < a.len() && i < b.len() && a[i] == b[i]
        invariant
            i <= a@.len(),
            i <= b@.len(),
            a@.take(i as int) == b@.take(i as int),
        decreases a@.len() - i,
    {
        proof {
            assert(a@.take(i + 1) =~= a@.take(i as int).push(a@[i as int]));
            assert(b@.take(i + 1) =~= b@.take(i as int).push(b@[i as int]));
        }
        i = i + 1;
    }
    proof {
        lemma_text_less_common_prefix(a@, b@, i as int);
        lemma_text_less_common_prefix(b@, a@, i as int);
        lemma_text_less_irreflexive(a@);
        if i < a@.len() && i < b@.len() {
            assert(a@.skip(i as int)[0] == a@[i as int]);
            assert(b@.skip(i as int)[0] == b@[i as int]);
            assert(a@[i as int] != b@[i as int]);
        } else if i == a@.len() && i == b@.len() {
            assert(a@ =~= a@.take(i as int));
            assert(b@ =~= b@.take(i as int));
        } else if i == a@.len() {
            assert(a@.len() != b@.len());
        } else {
            assert(a@.len() != b@.len());
        }
    }
    if i < a.len() && i < b.len() {
        if a[i] < b[i] {
            TextOrder::Before
        } else {
            TextOrder::After
        }
    } else if i == a.len() && i == b.len() {
        TextOrder::Same
    } else if i == a.len() {
        TextOrder::Before
    } else {
        TextOrder::After
    }
}

// ---------------------------------------------------------------------------
// Catalogs
// ---------------------------------------------------------------------------

/// Source texts strictly increasing: sorted and without duplicates.
pub open spec fn strictly_sorted(sources: Seq<Seq<char>>) -> bool {
    forall|i: int, j: int|
        0 <= i < j < sources.len() ==> text_less(#[trigger] sources[i], #[trigger] sources[j])
}

/// Translations from a source language, sorted by source text.
pub struct TranslationCatalog {
    sources: Vec<Vec<char>>,
    translations: Vec<String>,
}

/// The characters of each vector.
pub open spec fn char_views(v: Seq<Vec<char>>) -> Seq<Seq<char>> {
    v.map_values(|x: Vec<char>| x@)
}

/// The characters of each string.
pub open spec fn text_views(v: Seq<String>) -> Seq<Seq<char>> {
    v.map_values(|x: String| x@)
}

/// The first index, from `from` on, whose source is `key`.
pub open spec fn source_index(sources: Seq<Seq<char>>, key: Seq<char>, from: int) -> Option<int>
    decreases sources.len() - from,
{
    if from < 0 || from >= sources.len() {
        None
    } else if sources[from] == key {
        Some(from)
    } else {
        source_index(sources, key, from + 1)
    }
}

/// The translation of `key` in a table of sources and translations.
pub open spec fn table_lookup(sources: Seq<Seq<char>>, translations: Seq<Seq<char>>, key: Seq<
    char,
>) -> Option<Seq<char>> {
    match source_index(sources, key, 0) {
        Some(i) => Some(translations[i]),
        None => None,
    }
}

proof fn lemma_source_index_found(sources: Seq<Seq<char>>, key: Seq<char>, from: int, i: int)
    requires
        0 <= from <= i < sources.len(),
        sources[i] == key,
        forall|j: int| from <= j < i ==> #[trigger] sources[j] != key,
    ensures
        source_index(sources, key, from) == Some(i),
    decreases i - from,
{
    if from < i {
        lemma_source_index_found(sources, key, from + 1, i);
    }
}

proof fn lemma_source_index_absent(sources: Seq<Seq<char>>, key: Seq<char>, from: int)
    requires
        0 <= from <= sources.len(),
        forall|j: int| from <= j < sources.len() ==> #[trigger] sources[j] != key,
    ensures
        source_index(sources, key, from) is None,
    decreases sources.len() - from,
{
    if from < sources.len() {
        lemma_source_index_absent(sources, key, from + 1);
    }
}

impl TranslationCatalog {
    /// The source texts, in order.
    pub closed spec fn sources(&self) -> Seq<Seq<char>> {
        char_views(self.sources@)
    }

    /// The translations, parallel to the sources.
    pub closed spec fn translations(&self) -> Seq<Seq<char>> {
        text_views(self.translations@)
    }

    /// The catalog's invariant: one translation per source, sources sorted
    /// without duplicates.
    pub closed spec fn well_formed(&self) -> bool {
        &&& self.sources@.len() == self.translations@.len()
        &&& strictly_sorted(char_views(self.sources@))
    }

    /// The translation of `key`, if the catalog has one.
    pub open spec fn lookup(&self, key: Seq<char>) -> Option<Seq<char>> {
        table_lookup(self.sources(), self.translations(), key)
    }

    /// A catalog of the given `(source, translation)` pairs, which must be
    /// sorted by source without repeats; `None` otherwise.
    pub fn from_sorted(entries: Vec<(String, String)>) -> (r: Option<Self>)
        ensures
            r matches Some(c) ==> c.well_formed() && c.sources() == entries@.map_values(
                |e: (String, String)| e.0@,
            ) && c.translations() == entries@.map_values(|e: (String, String)| e.1@),
            r is None ==> !strictly_sorted(entries@.map_values(|e: (String, String)| e.0@)),
    {
        let ghost keys = entries@.map_values(|e: (String, String)| e.0@);
        let ghost values = entries@.map_values(|e: (String, String)| e.1@);
        let mut sources: Vec<Vec<char>> = Vec::new();
        let mut translations: Vec<String> = Vec::new();
        let mut i: usize = 0;
        while i < entries.len()
            invariant
                i <= entries@.len(),
                keys == entries@.map_values(|e: (String, String)| e.0@),
                values == entries@.map_values(|e: (String, String)| e.1@),
                sources@.len() == i,
                translations@.len() == i,
                char_views(sources@) == keys.take(i as int),
                text_views(translations@) == values.take(i as int),
                strictly_sorted(keys.take(i as int)),
            decreases entries@.len() - i,
        {
            let source = chars_of(entries[i].0.as_str());
            if i > 0 {
                let order = compare_text(sources[i - 1].as_slice(), source.as_slice());
                if order != TextOrder::Before {
                    proof {
                        assert(keys.take(i as int)[i - 1] == keys[i - 1]);
                        assert(char_views(sources@)[i - 1] == sources@[i - 1]@);
                        assert(keys[i as int] == source@);
                    }
                    return None;
                }
            }
            proof {
                if i > 0 {
                    assert(keys.take(i as int)[i - 1] == keys[i - 1]);
                    assert(char_views(sources@)[i - 1] == sources@[i - 1]@);
                }
                let next = keys.take(i + 1);
                assert forall|a: int, b: int| 0 <= a < b < next.len() implies text_less(
                    #[trigger] next[a],
                    #[trigger] next[b],
                ) by {
                    assert(next[a] == keys[a]);
                    assert(next[b] == keys[b]);
                    if b < i {
                        assert(keys.take(i as int)[a] == keys[a]);
                        assert(keys.take(i as int)[b] == keys[b]);
                    } else if a < i - 1 {
                        assert(keys.take(i as int)[a] == keys[a]);
                        assert(keys.take(i as int)[i - 1] == keys[i - 1]);
                        assert(keys[i - 1] == sources@[i - 1]@);
                        lemma_text_less_transitive(keys[a], keys[i - 1], keys[b]);
                    } else {
                        assert(keys[i - 1] == sources@[i - 1]@);
                    }
                }
            }
            sources.push(source);
            translations.push(entries[i].1.clone());
            proof {
                assert(char_views(sources@) =~= keys.take(i + 1));
                assert(text_views(translations@) =~= values.take(i + 1));
            }
            i = i + 1;
        }
        proof {
            assert(keys.take(entries@.len() as int) =~= keys);
            assert(values.take(entries@.len() as int) =~= values);
        }
        Some(TranslationCatalog { sources, translations })
    }

    /// The translation of `key`, found by binary search.
    pub fn translation(&self, key: &str) -> (r: Option<String>)
        requires
            self.well_formed(),
        ensures
            r matches Some(t) ==> self.lookup(key@) == Some(t@),
            r is None ==> self.lookup(key@) is None,
    {
        let k = chars_of(key);
        let ghost srcs = self.sources();
        let mut low: usize = 0;
        let mut high: usize = self.sources.len();
        while low < high
            invariant
                srcs == char_views(self.sources@),
                k@ == key@,
                self.well_formed(),
                low <= high <= self.sources@.len(),
                forall|j: int| 0 <= j < low ==> text_less(#[trigger] srcs[j], k@),
                forall|j: int| high <= j < srcs.len() ==> text_less(k@, #[trigger] srcs[j]),
            decreases high - low,
        {
            let mid = low + (high - low) / 2;
            assert(srcs[mid as int] == self.sources@[mid as int]@);
            match compare_text(self.sources[mid].as_slice(), k.as_slice()) {
                TextOrder::Same => {
                    let t = self.translations[mid].clone();
                    proof {
                        assert(srcs[mid as int] == k@);
                        self.lemma_unique_source(mid as int, k@);
                        assert(self.translations()[mid as int] == self.translations@[mid as int]@);
                    }
                    return Some(t);
                },
                TextOrder::Before => {
                    proof {
                        assert forall|j: int| 0 <= j < mid + 1 implies text_less(
                            #[trigger] srcs[j],
                            k@,
                        ) by {
                            if j < mid {
                                lemma_text_less_transitive(srcs[j], srcs[mid as int], k@);
                            }
                        }
                    }
                    low = mid + 1;
                },
                TextOrder::After => {
                    proof {
                        assert forall|j: int| mid <= j < srcs.len() implies text_less(
                            k@,
                            #[trigger] srcs[j],
                        ) by {
                            if j > mid {
                                lemma_text_less_transitive(k@, srcs[mid as int], srcs[j]);
                            }
                        }
                    }
                    high = mid;
                },
            }
        }
        proof {
            assert forall|j: int| 0 <= j < srcs.len() implies #[trigger] srcs[j] != k@ by {
                if srcs[j] == k@ {
                    lemma_text_less_irreflexive(k@);
                }
            }
            lemma_source_index_absent(srcs, k@, 0);
        }
        None
    }

    proof fn lemma_unique_source(&self, i: int, key: Seq<char>)
        requires
            self.well_formed(),
            0 <= i < self.sources@.len(),
            self.sources()[i] == key,
        ensures
            self.lookup(key) == Some(self.translations()[i]),
    {
        let srcs = self.sources();
        assert forall|j: int| 0 <= j < i implies #[trigger] srcs[j] != key by {
            lemma_text_less_irreflexive(key);
            assert(text_less(srcs[j], srcs[i]));
        }
        lemma_source_index_found(srcs, key, 0, i);
    }
}

/// The effect metadata text shown for `value`: Japanese shows the source
/// text itself; English shows its English translation; Simplified Chinese its
/// Chinese translation, else its English one; a text without translation is
/// shown as it is.
pub open spec fn localized_metadata_text(
    language: UiLanguage,
    english: &TranslationCatalog,
    chinese: &TranslationCatalog,
    value: Seq<char>,
) -> Seq<char> {
    match language {
        UiLanguage::English => match english.lookup(value) {
            Some(t) => t,
            None => value,
        },
        UiLanguage::SimplifiedChinese => match chinese.lookup(value) {
            Some(t) => t,
            None => match english.lookup(value) {
                Some(t) => t,
                None => value,
            },
        },
        UiLanguage::Japanese => value,
    }
}

/// Translates a piece of effect metadata into the UI language.
pub fn localized_effect_metadata(
    language: UiLanguage,
    english: &TranslationCatalog,
    chinese: &TranslationCatalog,
    value: &str,
) -> (r: String)
    requires
        english.well_formed(),
        chinese.well_formed(),
    ensures
        r@ == localized_metadata_text(language, english, chinese, value@),
{
    match language {
        UiLanguage::English => match english.translation(value) {
            Some(t) => t,
            None => String::from_str(value),
        },
        UiLanguage::SimplifiedChinese => match chinese.translation(value) {
            Some(t) => t,
            None => match english.translation(value) {
                Some(t) => t,
                None => String::from_str(value),
            },
        },
        UiLanguage::Japanese => String::from_str(value),
    }
}

/// `parts` joined with `separator` between neighbours.
pub open spec fn joined(parts: Seq<Seq<char>>, separator: Seq<char>) -> Seq<char>
    decreases parts.len(),
{
    if parts.len() == 0 {
        Seq::empty()
    } else if parts.len() == 1 {
        parts[0]
    } else {
        joined(parts.drop_last(), separator) + separator + parts.last()
    }
}

/// Translates each category and joins them with `", "`.
pub fn localized_effect_categories(
    language: UiLanguage,
    english: &TranslationCatalog,
    chinese: &TranslationCatalog,
    categories: &[String],
) -> (r: String)
    requires
        english.well_formed(),
        chinese.well_formed(),
    ensures
        r@ == joined(
            categories@.map_values(
                |c: String| localized_metadata_text(language, english, chinese, c@),
            ),
            ", "@,
        ),
{
    let ghost parts = categories@.map_values(
        |c: String| localized_metadata_text(language, english, chinese, c@),
    );
    let mut out = String::new();
    let mut i: usize = 0;
    while i < categories.len()
        invariant
            english.well_formed(),
            chinese.well_formed(),
            i <= categories@.len(),
            parts == categories@.map_values(
                |c: String| localized_metadata_text(language, english, chinese, c@),
            ),
            out@ == joined(parts.take(i as int), ", "@),
        decreases categories@.len() - i,
    {
        let text = localized_effect_metadata(language, english, chinese, categories[i].as_str());
        proof {
            assert(parts.take(i + 1).drop_last() =~= parts.take(i as int));
        }
        if i > 0 {
            out.append(", ");
        } else {
            proof {
                assert(parts.take(i + 1) =~= seq![parts[0]]);
            }
        }
        out.append(text.as_str());
        i = i + 1;
    }
    assert(parts.take(categories@.len() as int) =~= parts);
    out
}

} // verus!
