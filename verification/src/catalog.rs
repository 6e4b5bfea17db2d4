//! The timeline's context menu of objects, effects and audio plugins:
//! searching it and grouping it by category.
use crate::language::UiLanguage;
use crate::text::{chars_contain, chars_of, has_substring, lowercase_chars, trim_str, trimmed, unicode_lowercase};
use crate::translations::{
    joined, localized_effect_categories, localized_effect_metadata, localized_metadata_text,
    TranslationCatalog,
};
use vstd::prelude::*;

verus! {

/// An object or effect of the effect catalog, with its untranslated name
/// and categories.
#[derive(Debug, Clone, PartialEq, Eq)]
pub struct CatalogEffect {
    pub id: String,
    pub name: String,
    pub categories: Vec<String>,
}

/// An audio plugin of the plugin catalog.
#[derive(Debug, Clone, PartialEq, Eq)]
pub struct CatalogPlugin {
    pub id: String,
    pub name: String,
    pub category: String,
}

/// An entry of the context menu: an id, the shown name and the shown
/// categories.
#[derive(Debug, Clone, PartialEq, Eq)]
pub struct CatalogItem {
    pub header: bool,
    pub id: String,
    pub name: String,
    pub categories: String,
}

/// The content of a menu entry.
pub struct ItemModel {
    pub header: bool,
    pub id: Seq<char>,
    pub name: Seq<char>,
    pub categories: Seq<char>,
}

impl CatalogItem {
    /// The entry's content.
    pub open spec fn model(&self) -> ItemModel {
        ItemModel {
            header: self.header,
            id: self.id@,
            name: self.name@,
            categories: self.categories@,
        }
    }
}

/// The contents of a list of entries.
pub open spec fn item_models(v: Seq<CatalogItem>) -> Seq<ItemModel> {
    v.map_values(|i: CatalogItem| i.model())
}

/// The texts of a list of strings.
pub open spec fn texts(v: Seq<String>) -> Seq<Seq<char>> {
    v.map_values(|s: String| s@)
}

/// The menu entry of an effect: its name and categories translated.
pub open spec fn effect_item(
    language: UiLanguage,
    english: &TranslationCatalog,
    chinese: &TranslationCatalog,
    effect: CatalogEffect,
) -> ItemModel {
    ItemModel {
        header: false,
        id: effect.id@,
        name: localized_metadata_text(language, english, chinese, effect.name@),
        categories: joined(
            effect.categories@.map_values(
                |c: String| localized_metadata_text(language, english, chinese, c@),
            ),
            ", "@,
        ),
    }
}

/// The menu entry of an audio plugin.
pub open spec fn plugin_item(plugin: CatalogPlugin) -> ItemModel {
    ItemModel { header: false, id: plugin.id@, name: plugin.name@, categories: plugin.category@ }
}

/// The menu entries of audio plugins.
pub open spec fn plugin_items(v: Seq<CatalogPlugin>) -> Seq<ItemModel> {
    v.map_values(|p: CatalogPlugin| plugin_item(p))
}

/// `text`, lowercased, contains the (lowercased) query.
pub open spec fn mentions(text: Seq<char>, query: Seq<char>) -> bool {
    has_substring(unicode_lowercase(text), query)
}

/// Whether an effect matches a lowercased query: by id, by name or by a
/// category, each in its source form or translated.
pub open spec fn effect_matches(
    language: UiLanguage,
    english: &TranslationCatalog,
    chinese: &TranslationCatalog,
    effect: CatalogEffect,
    query: Seq<char>,
) -> bool {
    query.len() == 0 || mentions(effect.id@, query) || mentions(effect.name@, query) || mentions(
        localized_metadata_text(language, english, chinese, effect.name@),
        query,
    ) || exists|k: int|
        0 <= k < effect.categories@.len() && (mentions(#[trigger] effect.categories@[k]@, query)
            || mentions(
            localized_metadata_text(language, english, chinese, effect.categories@[k]@),
            query,
        ))
}

/// The entries of the effects that match the query, in catalog order.
pub open spec fn matching_effect_items(
    language: UiLanguage,
    english: &TranslationCatalog,
    chinese: &TranslationCatalog,
    effects: Seq<CatalogEffect>,
    query: Seq<char>,
) -> Seq<ItemModel>
    decreases effects.len(),
{
    if effects.len() == 0 {
        seq![]
    } else {
        let rest = matching_effect_items(language, english, chinese, effects.drop_last(), query);
        if effect_matches(language, english, chinese, effects.last(), query) {
            rest.push(effect_item(language, english, chinese, effects.last()))
        } else {
            rest
        }
    }
}

fn lowercase_mentions(text: &str, query: &[char]) -> (r: bool)
    ensures
        r == mentions(text@, query@),
{
    let cs = chars_of(text);
    let lower = lowercase_chars(cs.as_slice());
    chars_contain(lower.as_slice(), query)
}

fn effect_item_of(
    language: UiLanguage,
    english: &TranslationCatalog,
    chinese: &TranslationCatalog,
    effect: &CatalogEffect,
) -> (r: CatalogItem)
    requires
        english.well_formed(),
        chinese.well_formed(),
    ensures
        r.model() == effect_item(language, english, chinese, *effect),
{
    CatalogItem {
        header: false,
        id: effect.id.clone(),
        name: localized_effect_metadata(language, english, chinese, effect.name.as_str()),
        categories: localized_effect_categories(
            language,
            english,
            chinese,
            effect.categories.as_slice(),
        ),
    }
}

fn effect_matches_query(
    language: UiLanguage,
    english: &TranslationCatalog,
    chinese: &TranslationCatalog,
    effect: &CatalogEffect,
    query: &[char],
) -> (r: bool)
    requires
        english.well_formed(),
        chinese.well_formed(),
    ensures
        r == effect_matches(language, english, chinese, *effect, query@),
{
    if query.len() == 0 || lowercase_mentions(effect.id.as_str(), query) || lowercase_mentions(
        effect.name.as_str(),
        query,
    ) {
        return true;
    }
    let name = localized_effect_metadata(language, english, chinese, effect.name.as_str());
    if lowercase_mentions(name.as_str(), query) {
        return true;
    }
    let mut k: usize = 0;
    while k < effect.categories.len()
        invariant
            english.well_formed(),
            chinese.well_formed(),
            k <= effect.categories@.len(),
            forall|m: int|
                0 <= m < k ==> !(mentions(#[trigger] effect.categories@[m]@, query@) || mentions(
                    localized_metadata_text(language, english, chinese, effect.categories@[m]@),
                    query@,
                )),
        decreases effect.categories@.len() - k,
    {
        let category = effect.categories[k].as_str();
        if lowercase_mentions(category, query) {
            return true;
        }
        let translated = localized_effect_metadata(language, english, chinese, category);
        if lowercase_mentions(translated.as_str(), query) {
            return true;
        }
        k = k + 1;
    }
    false
}

/// The searchable entries of the context menu. For audio plugins
/// (`target_kind` 2) the entries are the plugins as given (the plugin catalog
/// has applied the query); for objects (0) and effects (1) `effects` are the
/// catalog entries of that kind, kept when they match the trimmed,
/// lowercased query.
pub fn timeline_context_catalog_items(
    language: UiLanguage,
    english: &TranslationCatalog,
    chinese: &TranslationCatalog,
    effects: &[CatalogEffect],
    plugins: &[CatalogPlugin],
    query: &str,
    target_kind: i32,
) -> (r: Vec<CatalogItem>)
    requires
        english.well_formed(),
        chinese.well_formed(),
    ensures
        target_kind == 2 ==> item_models(r@) ==plugin_items(plugins@),
        target_kind != 2 ==> item_models(r@) == matching_effect_items(
            language,
            english,
            chinese,
            effects@,
            unicode_lowercase(trimmed(query@)),
        ),
{
    let mut out: Vec<CatalogItem> = Vec::new();
    if target_kind == 2 {
        let mut i: usize = 0;
        while i < plugins.len()
            invariant
                i <= plugins@.len(),
                item_models(out@) ==plugin_items(plugins@.take(i as int)),
            decreases plugins@.len() - i,
        {
            let p = &plugins[i];
            let item = CatalogItem {
                header: false,
                id: p.id.clone(),
                name: p.name.clone(),
                categories: p.category.clone(),
            };
            assert(item.model() == plugin_item(plugins@[i as int]));
            let ghost before = out@;
            out.push(item);
            i = i + 1;
            proof {
                assert(plugins@.take(i as int) =~= plugins@.take(i - 1).push(plugins@[i - 1]));
                assert(item_models(out@) =~= item_models(before).push(item.model()));
                assert(item_models(out@) =~=plugin_items(plugins@.take(i as int)));
            }
        }
        assert(plugins@.take(plugins@.len() as int) =~= plugins@);
        return out;
    }
    let t = trim_str(query);
    let q = lowercase_chars(t.as_slice());
    let mut i: usize = 0;
    while i < effects.len()
        invariant
            english.well_formed(),
            chinese.well_formed(),
            i <= effects@.len(),
            q@ == unicode_lowercase(trimmed(query@)),
            item_models(out@) == matching_effect_items(
                language,
                english,
                chinese,
                effects@.take(i as int),
                q@,
            ),
        decreases effects@.len() - i,
    {
        proof {
            assert(effects@.take(i + 1).drop_last() =~= effects@.take(i as int));
            assert(effects@.take(i + 1).last() == effects@[i as int]);
        }
        if effect_matches_query(language, english, chinese, &effects[i], q.as_slice()) {
            out.push(effect_item_of(language, english, chinese, &effects[i]));
            proof {
                assert(item_models(out@) =~= matching_effect_items(
                    language,
                    english,
                    chinese,
                    effects@.take(i + 1),
                    q@,
                ));
            }
        }
        i = i + 1;
    }
    assert(effects@.take(effects@.len() as int) =~= effects@);
    out
}

/// A category of the context menu and its entries.
#[derive(Debug, Clone, PartialEq, Eq)]
pub struct CatalogCategory {
    pub name: String,
    pub items: Vec<CatalogItem>,
}

/// The position of the group named `key`, at `from` or later.
pub open spec fn group_index(groups: Seq<(Seq<char>, Seq<ItemModel>)>, key: Seq<char>, from: int) -> Option<
    int,
>
    decreases groups.len() - from,
{
    if from < 0 || from >= groups.len() {
        None
    } else if groups[from].0 == key {
        Some(from)
    } else {
        group_index(groups, key, from + 1)
    }
}

/// Entries grouped by key: groups in the order in which their key first
/// appears, each holding its entries in order.
pub open spec fn grouped(pairs: Seq<(Seq<char>, ItemModel)>) -> Seq<(Seq<char>, Seq<ItemModel>)>
    decreases pairs.len(),
{
    if pairs.len() == 0 {
        seq![]
    } else {
        let groups = grouped(pairs.drop_last());
        let key = pairs.last().0;
        let item = pairs.last().1;
        match group_index(groups, key, 0) {
            Some(j) => groups.update(j, (key, groups[j].1.push(item))),
            None => groups.push((key, seq![item])),
        }
    }
}

/// The group key of an effect: its first category, or empty.
pub open spec fn first_category(effect: CatalogEffect) -> Seq<char> {
    if effect.categories@.len() > 0 {
        effect.categories@[0]@
    } else {
        Seq::empty()
    }
}

/// Effects keyed by their first category.
pub open spec fn effect_pairs(
    language: UiLanguage,
    english: &TranslationCatalog,
    chinese: &TranslationCatalog,
    effects: Seq<CatalogEffect>,
) -> Seq<(Seq<char>, ItemModel)> {
    effects.map_values(
        |e: CatalogEffect| (first_category(e), effect_item(language, english, chinese, e)),
    )
}

/// Audio plugins keyed by their category.
pub open spec fn plugin_pairs(plugins: Seq<CatalogPlugin>) -> Seq<(Seq<char>, ItemModel)> {
    plugins.map_values(|p: CatalogPlugin| (p.category@, plugin_item(p)))
}

/// The content of a list of categories.
pub open spec fn category_models(v: Seq<CatalogCategory>) -> Seq<(Seq<char>, Seq<ItemModel>)> {
    v.map_values(|c: CatalogCategory| (c.name@, item_models(c.items@)))
}

/// The contents of parallel lists of entries.
pub open spec fn bucket_models(v: Seq<Vec<CatalogItem>>) -> Seq<Seq<ItemModel>> {
    v.map_values(|b: Vec<CatalogItem>| item_models(b@))
}

/// Parallel lists of group names and entries, read as one list of groups.
pub open spec fn group_list(names: Seq<String>, buckets: Seq<Vec<CatalogItem>>) -> Seq<(Seq<char>, Seq<ItemModel>)> {
    texts(names).zip_with(bucket_models(buckets))
}

/// Group names translated as effect metadata.
pub open spec fn translated_group_names(
    language: UiLanguage,
    english: &TranslationCatalog,
    chinese: &TranslationCatalog,
    groups: Seq<(Seq<char>, Seq<ItemModel>)>,
) -> Seq<(Seq<char>, Seq<ItemModel>)> {
    groups.map_values(
        |g: (Seq<char>, Seq<ItemModel>)| (localized_metadata_text(language, english, chinese, g.0), g.1),
    )
}

fn find_group(names: &Vec<String>, key: &str) -> (r: Option<usize>)
    ensures
        r matches Some(j) ==> j < names@.len() && names@[j as int]@ == key@ && forall|k: int|
            0 <= k < j ==> names@[k]@ != key@,
        r is None ==> forall|k: int| 0 <= k < names@.len() ==> names@[k]@ != key@,
{
    let mut j: usize = 0;
    while j < names.len()
        invariant
            j <= names@.len(),
            forall|k: int| 0 <= k < j ==> names@[k]@ != key@,
        decreases names@.len() - j,
    {
        if crate::text::str_eq(names[j].as_str(), key) {
            return Some(j);
        }
        j = j + 1;
    }
    None
}

proof fn lemma_group_index(groups: Seq<(Seq<char>, Seq<ItemModel>)>, key: Seq<char>, from: int, j: int)
    requires
        0 <= from <= j <= groups.len(),
        forall|k: int| from <= k < j ==> groups[k].0 != key,
        j < groups.len() ==> groups[j].0 == key,
    ensures
        group_index(groups, key, from) == if j < groups.len() {
            Some(j)
        } else {
            None::<int>
        },
    decreases j - from,
{
    if from < j {
        lemma_group_index(groups, key, from + 1, j);
    }
}

/// Adds an entry under `key` to parallel lists of group names and entries.
fn add_to_group(
    names: &mut Vec<String>,
    buckets: &mut Vec<Vec<CatalogItem>>,
    key: &str,
    item: CatalogItem,
)
    requires
        old(names)@.len() == old(buckets)@.len(),
    ensures
        final(names)@.len() == final(buckets)@.len(),
        ({
            let before = group_list(old(names)@, old(buckets)@);
            let after = group_list(final(names)@, final(buckets)@);
            after == match group_index(before, key@, 0) {
                Some(j) => before.update(j, (key@, before[j].1.push(item.model()))),
                None => before.push((key@, seq![item.model()])),
            }
        }),
{
    let ghost before = group_list(names@, buckets@);
    match find_group(names, key) {
        Some(j) => {
            proof {
                lemma_group_index(before, key@, 0, j as int);
            }
            let mut bucket = buckets.remove(j);
            let ghost bucket_before = item_models(bucket@);
            bucket.push(item);
            buckets.insert(j, bucket);
            proof {
                let after = group_list(names@, buckets@);
                assert(item_models(buckets@[j as int]@) =~= bucket_before.push(item.model()));
                assert(after =~= before.update(j as int, (key@, before[j as int].1.push(item.model()))));
            }
        },
        None => {
            proof {
                lemma_group_index(before, key@, 0, names@.len() as int);
            }
            names.push(String::from_str(key));
            let mut bucket: Vec<CatalogItem> = Vec::new();
            bucket.push(item);
            buckets.push(bucket);
            proof {
                let after = group_list(names@, buckets@);
                assert(item_models(buckets@.last()@) =~= seq![item.model()]);
                assert(after =~= before.push((key@, seq![item.model()])));
            }
        },
    }
}

/// The categories of the context menu. For audio plugins (`target_kind` 2)
/// the plugins are grouped by category; for effects (1) the effects are
/// grouped by their first category and the category names translated; other
/// kinds have no categories.
pub fn timeline_context_catalog_categories(
    language: UiLanguage,
    english: &TranslationCatalog,
    chinese: &TranslationCatalog,
    effects: &[CatalogEffect],
    plugins: &[CatalogPlugin],
    target_kind: i32,
) -> (r: Vec<CatalogCategory>)
    requires
        english.well_formed(),
        chinese.well_formed(),
    ensures
        target_kind == 2 ==> category_models(r@) == grouped(plugin_pairs(plugins@)),
        target_kind == 1 ==> category_models(r@) == translated_group_names(
            language,
            english,
            chinese,
            grouped(effect_pairs(language, english, chinese, effects@)),
        ),
        target_kind != 1 && target_kind != 2 ==> r@.len() == 0,
{
    let mut names: Vec<String> = Vec::new();
    let mut buckets: Vec<Vec<CatalogItem>> = Vec::new();
    let ghost pairs = if target_kind == 2 {
        plugin_pairs(plugins@)
    } else {
        effect_pairs(language, english, chinese, effects@)
    };
    if target_kind == 2 {
        let mut i: usize = 0;
        while i < plugins.len()
            invariant
                i <= plugins@.len(),
                pairs == plugin_pairs(plugins@),
                names@.len() == buckets@.len(),
                group_list(names@, buckets@) == grouped(pairs.take(i as int)),
            decreases plugins@.len() - i,
        {
            let p = &plugins[i];
            let item = CatalogItem {
                header: false,
                id: p.id.clone(),
                name: p.name.clone(),
                categories: p.category.clone(),
            };
            proof {
                assert(pairs.take(i + 1).drop_last() =~= pairs.take(i as int));
                assert(pairs.take(i + 1).last() == (p.category@, plugin_item(*p)));
                assert(item.model() == plugin_item(*p));
            }
            add_to_group(&mut names, &mut buckets, p.category.as_str(), item);
            i = i + 1;
        }
        assert(pairs.take(plugins@.len() as int) =~= pairs);
    } else if target_kind == 1 {
        let mut i: usize = 0;
        while i < effects.len()
            invariant
                english.well_formed(),
                chinese.well_formed(),
                i <= effects@.len(),
                pairs == effect_pairs(language, english, chinese, effects@),
                names@.len() == buckets@.len(),
                group_list(names@, buckets@) == grouped(pairs.take(i as int)),
            decreases effects@.len() - i,
        {
            let e = &effects[i];
            let item = effect_item_of(language, english, chinese, e);
            let key: &str = if e.categories.len() > 0 {
                e.categories[0].as_str()
            } else {
                ""
            };
            proof {
                reveal_strlit("");
                assert(key@ == first_category(*e));
                assert(pairs.take(i + 1).drop_last() =~= pairs.take(i as int));
                assert(pairs.take(i + 1).last() == (
                    first_category(*e),
                    effect_item(language, english, chinese, *e),
                ));
            }
            add_to_group(&mut names, &mut buckets, key, item);
            i = i + 1;
        }
        assert(pairs.take(effects@.len() as int) =~= pairs);
    } else {
        return Vec::new();
    }
    let ghost groups = group_list(names@, buckets@);
    let mut out: Vec<CatalogCategory> = Vec::new();
    while buckets.len() > 0
        invariant
            english.well_formed(),
            chinese.well_formed(),
            names@.len() == buckets@.len(),
            groups.len() == out@.len() + buckets@.len(),
            forall|k: int|
                #![trigger names@[k], buckets@[k]]
                0 <= k < buckets@.len() ==> groups[out@.len() + k] == (
                    names@[k]@,
                    item_models(buckets@[k]@),
                ),
            forall|k: int|
                0 <= k < out@.len() ==> (#[trigger] category_models(out@)[k]) == if target_kind
                    == 1 {
                    (
                        localized_metadata_text(language, english, chinese, groups[k].0),
                        groups[k].1,
                    )
                } else {
                    groups[k]
                },
        decreases buckets@.len(),
    {
        let ghost names_before = names@;
        let ghost buckets_before = buckets@;
        let ghost k0 = out@.len() as int;
        assert(names_before[0] == names@[0] && buckets_before[0] == buckets@[0]);
        assert(groups[k0] == (names_before[0]@, item_models(buckets_before[0]@)));
        let name = names.remove(0);
        let items = buckets.remove(0);
        let shown = if target_kind == 1 {
            localized_effect_metadata(language, english, chinese, name.as_str())
        } else {
            name
        };
        let ghost out_before = out@;
        out.push(CatalogCategory { name: shown, items });
        proof {
            assert forall|k: int| 0 <= k < buckets@.len() implies groups[out@.len() + k] == (
                names@[k]@,
                item_models(buckets@[k]@),
            ) by {
                assert(names@[k] == names_before[k + 1]);
                assert(buckets@[k] == buckets_before[k + 1]);
                assert(names_before[k + 1] == names_before[k + 1] && buckets_before[k + 1]
                    == buckets_before[k + 1]);
                assert(out@.len() + k == k0 + (k + 1));
            }
            assert forall|k: int| 0 <= k < out@.len() implies (#[trigger] category_models(
                out@,
            )[k]) == if target_kind == 1 {
                (localized_metadata_text(language, english, chinese, groups[k].0), groups[k].1)
            } else {
                groups[k]
            } by {
                if k < k0 {
                    assert(out@[k] == out_before[k]);
                    assert(category_models(out_before)[k] == category_models(out@)[k]);
                }
            }
        }
    }
    out
}

} // verus!
