//! The object settings window: how each parameter row behaves, where a
//! dragged effect lands, and the favourite and recent entries of its effect
//! picker.
use crate::catalog::{CatalogItem, ItemModel, item_models, texts};
use crate::settings::choice_position;
use crate::text::{chars_of, str_eq, string_of};
use vstd::prelude::*;

verus! {

/// The kinds of parameter control that matter for the row's behaviour.
#[derive(Debug, Clone, Copy, PartialEq, Eq, Structural)]
pub enum ControlKind {
    Number,
    Integer,
    Color,
    /// Any other control (text, check box, choice, file, ...).
    Other,
}

/// How a parameter row behaves.
#[derive(Debug, Clone, Copy, PartialEq, Eq, Structural)]
pub struct ControlRowFlags {
    /// The value can move between keyframes; a keyframe row follows.
    pub supports_track: bool,
    /// The row can be edited.
    pub interactive: bool,
    /// The row shows a start and an end value.
    pub range_mode: bool,
    /// The end value can be edited.
    pub right_interactive: bool,
    /// The frame shown as the row's start.
    pub start_frame: i32,
}

/// A start interpolation that holds the start value to the end.
pub open spec fn holds_value(interpolation: Seq<char>) -> bool {
    interpolation == ""@ || interpolation == "constant"@ || interpolation == "none"@
}

/// The behaviour of a parameter row. Numbers, integers and colours with a
/// parameter move between keyframes; a row is editable when its effect is
/// enabled (audio plugins always), it is not disabled and it has a
/// parameter; an effect's keyframed track shows a range, whose end is
/// editable when a keyframe sits at the interval's end and the start
/// interpolation moves the value. Audio plugin rows start at the current
/// frame, effect rows at the interval's start.
pub open spec fn row_flags(
    kind: ControlKind,
    has_param: bool,
    audio_plugin: bool,
    enabled: bool,
    disabled: bool,
    keyframed: bool,
    keyframe_frames: Seq<i32>,
    interval_start: i32,
    interval_end: i32,
    relative_frame: i32,
    start_interpolation: Seq<char>,
) -> ControlRowFlags {
    let supports_track = kind != ControlKind::Other && has_param;
    let range_mode = !audio_plugin && supports_track && keyframed;
    ControlRowFlags {
        supports_track,
        interactive: (audio_plugin || enabled) && !disabled && has_param,
        range_mode,
        right_interactive: range_mode && keyframe_frames.contains(interval_end) && !holds_value(
            start_interpolation,
        ),
        start_frame: if audio_plugin {
            relative_frame
        } else {
            interval_start
        },
    }
}

fn contains_frame(frames: &[i32], frame: i32) -> (r: bool)
    ensures
        r == frames@.contains(frame),
{
    let mut i: usize = 0;
    while i < frames.len()
        invariant
            i <= frames@.len(),
            forall|k: int| 0 <= k < i ==> frames@[k] != frame,
        decreases frames@.len() - i,
    {
        if frames[i] == frame {
            assert(frames@[i as int] == frame);
            return true;
        }
        i = i + 1;
    }
    false
}

/// The behaviour of a parameter row of the object settings window.
pub fn control_row_flags(
    kind: ControlKind,
    has_param: bool,
    audio_plugin: bool,
    enabled: bool,
    disabled: bool,
    keyframed: bool,
    keyframe_frames: &[i32],
    interval_start: i32,
    interval_end: i32,
    relative_frame: i32,
    start_interpolation: &str,
) -> (r: ControlRowFlags)
    ensures
        r == row_flags(
            kind,
            has_param,
            audio_plugin,
            enabled,
            disabled,
            keyframed,
            keyframe_frames@,
            interval_start,
            interval_end,
            relative_frame,
            start_interpolation@,
        ),
{
    let supports_track = match kind {
        ControlKind::Other => false,
        _ => true,
    } && has_param;
    let range_mode = !audio_plugin && supports_track && keyframed;
    let holds = str_eq(start_interpolation, "") || str_eq(start_interpolation, "constant")
        || str_eq(start_interpolation, "none");
    let right_interactive = range_mode && contains_frame(keyframe_frames, interval_end) && !holds;
    ControlRowFlags {
        supports_track,
        interactive: (audio_plugin || enabled) && !disabled && has_param,
        range_mode,
        right_interactive,
        start_frame: if audio_plugin {
            relative_frame
        } else {
            interval_start
        },
    }
}

/// The header label of an audio plugin: its name, with its format in
/// brackets when it has one.
pub fn audio_plugin_label(name: &str, format: &str) -> (r: String)
    ensures
        r@ == if format@.len() == 0 {
            name@
        } else {
            name@ + " ("@ + format@ + ")"@
        },
{
    let f = chars_of(format);
    if f.len() == 0 {
        return string_of(chars_of(name).as_slice());
    }
    let mut cs = chars_of(name);
    cs.push(' ');
    cs.push('(');
    let mut i: usize = 0;
    let ghost start = cs@;
    while i < f.len()
        invariant
            i <= f@.len(),
            cs@ == start + f@.take(i as int),
        decreases f@.len() - i,
    {
        cs.push(f[i]);
        i = i + 1;
        proof {
            assert(cs@ =~= start + f@.take(i as int));
        }
    }
    cs.push(')');
    proof {
        reveal_strlit(" (");
        reveal_strlit(")");
        assert(f@.take(f@.len() as int) =~= f@);
        assert(cs@ =~= name@ + " ("@ + format@ + ")"@);
    }
    string_of(cs.as_slice())
}

/// The row a dragged effect lands on: `rows` rows away from `source`, kept
/// to the list; none when the list is empty or `source` is not in it.
pub open spec fn reorder_destination(source: int, rows: int, length: int) -> Option<int> {
    if length == 0 || source >= length {
        None
    } else if source + rows < 0 {
        Some(0)
    } else if source + rows > length - 1 {
        Some(length - 1)
    } else {
        Some(source + rows)
    }
}

/// Where an effect dragged by `rows` rows (the drag distance divided by the
/// row height, rounded) lands in a list of `length` effects.
pub fn reorder_target(source: usize, rows: i32, length: usize) -> (r: Option<usize>)
    requires
        length <= i64::MAX,
    ensures
        match r {
            Some(t) => reorder_destination(source as int, rows as int, length as int) == Some(
                t as int,
            ),
            None => reorder_destination(source as int, rows as int, length as int) is None,
        },
{
    if length == 0 || source >= length {
        return None;
    }
    let last = length - 1;
    if rows < 0 {
        let back = (0 - (rows as i64)) as u64;
        if back as u64 >= source as u64 {
            Some(0)
        } else {
            Some(source - back as usize)
        }
    } else {
        let forward = rows as usize;
        if forward >= last - source {
            Some(last)
        } else {
            Some(source + forward)
        }
    }
}

/// The settings key of a catalog entry: `audio:` or `effect:` before its id.
pub open spec fn catalog_key_text(audio: bool, id: Seq<char>) -> Seq<char> {
    (if audio {
        "audio:"@
    } else {
        "effect:"@
    }) + id
}

/// The settings key of a catalog entry of the effect picker.
pub fn catalog_key(audio: bool, id: &str) -> (r: String)
    ensures
        r@ == catalog_key_text(audio, id@),
{
    let mut cs = if audio {
        chars_of("audio:")
    } else {
        chars_of("effect:")
    };
    let ids = chars_of(id);
    let ghost start = cs@;
    let mut i: usize = 0;
    while i < ids.len()
        invariant
            i <= ids@.len(),
            cs@ == start + ids@.take(i as int),
        decreases ids@.len() - i,
    {
        cs.push(ids[i]);
        i = i + 1;
        proof {
            assert(cs@ =~= start + ids@.take(i as int));
        }
    }
    proof {
        assert(ids@.take(ids@.len() as int) =~= ids@);
    }
    string_of(cs.as_slice())
}

/// The entries other than `id`, in order.
pub open spec fn without(items: Seq<Seq<char>>, id: Seq<char>) -> Seq<Seq<char>>
    decreases items.len(),
{
    if items.len() == 0 {
        seq![]
    } else {
        let rest = without(items.drop_last(), id);
        if items.last() == id {
            rest
        } else {
            rest.push(items.last())
        }
    }
}

/// The favourite or recent entries after choosing `id`: a favourite is
/// added at the front, or removed when it was there; a recent entry moves
/// to the front, and at most 24 are kept.
pub open spec fn remembered(items: Seq<Seq<char>>, id: Seq<char>, favorite: bool) -> Seq<
    Seq<char>,
> {
    let rest = without(items, id);
    if favorite {
        if items.contains(id) {
            rest
        } else {
            seq![id] + rest
        }
    } else {
        let all = seq![id] + rest;
        if all.len() <= 24 {
            all
        } else {
            all.take(24)
        }
    }
}

/// Records `id` among the favourite (`favorite`) or recent entries of the
/// effect picker.
pub fn remember_catalog_item(items: Vec<String>, id: String, favorite: bool) -> (r: Vec<String>)
    ensures
        texts(r@) == remembered(texts(items@), id@, favorite),
{
    let ghost all = texts(items@);
    let mut existed = false;
    let mut rest: Vec<String> = Vec::new();
    let mut i: usize = 0;
    while i < items.len()
        invariant
            i <= items@.len(),
            all == texts(items@),
            texts(rest@) == without(all.take(i as int), id@),
            existed == all.take(i as int).contains(id@),
        decreases items@.len() - i,
    {
        proof {
            assert(all.take(i + 1).drop_last() =~= all.take(i as int));
            assert(all.take(i + 1).last() == items@[i as int]@);
        }
        if str_eq(items[i].as_str(), id.as_str()) {
            existed = true;
            proof {
                assert(all.take(i + 1)[i as int] == id@);
            }
        } else {
            rest.push(items[i].clone());
            proof {
                assert(texts(rest@) =~= without(all.take(i + 1), id@));
                if all.take(i + 1).contains(id@) {
                    let t = all.take(i + 1);
                    let k = choose|k: int| 0 <= k < t.len() && t[k] == id@;
                    assert(all.take(i as int)[k] == id@);
                }
            }
        }
        i = i + 1;
    }
    proof {
        assert(all.take(items@.len() as int) =~= all);
    }
    if favorite && existed {
        return rest;
    }
    let mut out: Vec<String> = Vec::new();
    out.push(id);
    let mut j: usize = 0;
    while j < rest.len() && (favorite || out.len() < 24)
        invariant
            j <= rest@.len(),
            out@.len() == j + 1,
            !favorite ==> out@.len() <= 24,
            texts(out@) == (seq![id@] + texts(rest@)).take(j + 1),
        decreases rest@.len() - j,
    {
        out.push(rest[j].clone());
        j = j + 1;
        proof {
            assert(texts(out@) =~= (seq![id@] + texts(rest@)).take(j + 1));
        }
    }
    proof {
        let full = seq![id@] + texts(rest@);
        if j == rest@.len() {
            assert(full.take(j + 1) =~= full);
        }
    }
    out
}

proof fn lemma_without_contains(items: Seq<Seq<char>>, id: Seq<char>, x: Seq<char>)
    ensures
        without(items, id).contains(x) == (x != id && items.contains(x)),
        without(items, id).len() <= items.len(),
    decreases items.len(),
{
    let w = without(items, id);
    if items.len() == 0 {
        assert(w =~= Seq::<Seq<char>>::empty());
        assert(!w.contains(x));
        assert(!items.contains(x));
    } else {
        let init = items.drop_last();
        lemma_without_contains(init, id, x);
        let rest = without(init, id);
        if x != id && items.contains(x) {
            let k = choose|k: int| 0 <= k < items.len() && items[k] == x;
            if k < init.len() {
                assert(init[k] == x);
                assert(rest.contains(x));
                let m = choose|m: int| 0 <= m < rest.len() && rest[m] == x;
                assert(w[m] == x);
            } else {
                assert(w.last() == x);
            }
            assert(w.contains(x));
        }
        if w.contains(x) {
            let k = choose|k: int| 0 <= k < w.len() && w[k] == x;
            if k < rest.len() {
                assert(rest[k] == x);
                assert(rest.contains(x));
                let m = choose|m: int| 0 <= m < init.len() && init[m] == x;
                assert(items[m] == x);
            } else {
                assert(items.last() == x);
                assert(items[items.len() - 1] == x);
            }
            assert(x != id && items.contains(x));
        }
    }
}

/// Choosing a favourite toggles it and leaves the other favourites as they
/// were; choosing a recent entry puts it first, once, among at most 24.
pub proof fn remembered_entries(items: Seq<Seq<char>>, id: Seq<char>, x: Seq<char>)
    ensures
        remembered(items, id, true).contains(id) == !items.contains(id),
        x != id ==> remembered(items, id, true).contains(x) == items.contains(x),
        remembered(items, id, false)[0] == id,
        remembered(items, id, false).len() <= 24,
        !remembered(items, id, false).drop_first().contains(id),
        x != id && remembered(items, id, false).contains(x) ==> items.contains(x),
{
    lemma_without_contains(items, id, x);
    lemma_without_contains(items, id, id);
    let rest = without(items, id);
    let fav = remembered(items, id, true);
    if !items.contains(id) {
        assert(fav[0] == id);
        if rest.contains(x) {
            let k = choose|k: int| 0 <= k < rest.len() && rest[k] == x;
            assert(fav[k + 1] == x);
        }
        if fav.contains(x) && x != id {
            let k = choose|k: int| 0 <= k < fav.len() && fav[k] == x;
            assert(rest[k - 1] == x);
        }
    }
    let all = seq![id] + rest;
    let recent = remembered(items, id, false);
    assert(recent.drop_first().contains(id) ==> rest.contains(id)) by {
        if recent.drop_first().contains(id) {
            let k = choose|k: int| 0 <= k < recent.drop_first().len() && recent.drop_first()[k] == id;
            assert(rest[k] == id);
        }
    }
    if recent.contains(x) && x != id {
        let k = choose|k: int| 0 <= k < recent.len() && recent[k] == x;
        assert(rest[k - 1] == x);
    }
}

/// The first position of `key` among the recent entries, or -1.
pub open spec fn recent_position(recent: Seq<Seq<char>>, key: Seq<char>) -> int {
    match choice_position(recent, key, 0) {
        Some(p) => p,
        None => -1,
    }
}

/// Whether the effect picker lists an entry: never a header; in the
/// favourites view (mode 1) only favourites, in the recent view (mode 2)
/// only recent entries, in any other view every entry.
pub open spec fn listed(
    item: ItemModel,
    mode: i32,
    audio: bool,
    favorites: Seq<Seq<char>>,
    recent: Seq<Seq<char>>,
) -> bool {
    let key = catalog_key_text(audio, item.id);
    !item.header && (if mode == 1 {
        favorites.contains(key)
    } else if mode == 2 {
        recent.contains(key)
    } else {
        true
    })
}

/// The listed entries, in order, each with its recent position.
pub open spec fn listed_entries(
    items: Seq<ItemModel>,
    mode: i32,
    audio: bool,
    favorites: Seq<Seq<char>>,
    recent: Seq<Seq<char>>,
) -> Seq<(ItemModel, int)>
    decreases items.len(),
{
    if items.len() == 0 {
        seq![]
    } else {
        let rest = listed_entries(items.drop_last(), mode, audio, favorites, recent);
        let item = items.last();
        if listed(item, mode, audio, favorites, recent) {
            rest.push((item, recent_position(recent, catalog_key_text(audio, item.id))))
        } else {
            rest
        }
    }
}

/// The entries at recent position `j`, in order.
pub open spec fn at_position(entries: Seq<(ItemModel, int)>, j: int) -> Seq<ItemModel>
    decreases entries.len(),
{
    if entries.len() == 0 {
        seq![]
    } else {
        let rest = at_position(entries.drop_last(), j);
        if entries.last().1 == j {
            rest.push(entries.last().0)
        } else {
            rest
        }
    }
}

/// The entries at recent positions below `upto`, by position and, at one
/// position, in order.
pub open spec fn by_position(entries: Seq<(ItemModel, int)>, upto: int) -> Seq<ItemModel>
    decreases upto,
{
    if upto <= 0 {
        seq![]
    } else {
        by_position(entries, upto - 1) + at_position(entries, upto - 1)
    }
}

/// The items of entries.
pub open spec fn entry_items(entries: Seq<(ItemModel, int)>) -> Seq<ItemModel> {
    entries.map_values(|e: (ItemModel, int)| e.0)
}

/// The entries of the effect picker: the listed ones, in the recent view
/// ordered by how recently they were chosen.
pub open spec fn picker_entries(
    items: Seq<ItemModel>,
    mode: i32,
    audio: bool,
    favorites: Seq<Seq<char>>,
    recent: Seq<Seq<char>>,
) -> Seq<ItemModel> {
    let entries = listed_entries(items, mode, audio, favorites, recent);
    if mode == 2 {
        by_position(entries, recent.len() as int)
    } else {
        entry_items(entries)
    }
}

/// The text of a picker row: a star before a favourite, the name, two
/// spaces and the categories.
pub open spec fn picker_row(item: ItemModel, favorite: bool) -> Seq<char> {
    (if favorite {
        "★ "@
    } else {
        ""@
    }) + item.name + "  "@ + item.categories
}

fn position_of(list: &[String], key: &str) -> (r: Option<usize>)
    ensures
        match r {
            Some(p) => choice_position(texts(list@), key@, 0) == Some(p as int),
            None => choice_position(texts(list@), key@, 0) is None,
        },
{
    let ghost t = texts(list@);
    let mut i: usize = 0;
    while i < list.len()
        invariant
            i <= list@.len(),
            t == texts(list@),
            choice_position(t, key@, 0) == choice_position(t, key@, i as int),
        decreases list@.len() - i,
    {
        assert(t[i as int] == list@[i as int]@);
        if str_eq(list[i].as_str(), key) {
            return Some(i);
        }
        i = i + 1;
    }
    None
}

proof fn lemma_position_found(s: Seq<Seq<char>>, key: Seq<char>, from: int)
    requires
        0 <= from,
    ensures
        match choice_position(s, key, from) {
            Some(p) => from <= p < s.len() && s[p] == key,
            None => forall|k: int| from <= k < s.len() ==> s[k] != key,
        },
    decreases s.len() - from,
{
    if from < s.len() && s[from] != key {
        lemma_position_found(s, key, from + 1);
    }
}

fn copy_item(item: &CatalogItem) -> (r: CatalogItem)
    ensures
        r.model() == item.model(),
{
    CatalogItem {
        header: item.header,
        id: item.id.clone(),
        name: item.name.clone(),
        categories: item.categories.clone(),
    }
}

/// The view of a listed entry.
pub open spec fn entry_view(e: (CatalogItem, Option<usize>)) -> (ItemModel, int) {
    (
        e.0.model(),
        match e.1 {
            Some(p) => p as int,
            None => -1,
        },
    )
}

/// The views of listed entries.
pub open spec fn entry_views(v: Seq<(CatalogItem, Option<usize>)>) -> Seq<(ItemModel, int)> {
    v.map_values(|e: (CatalogItem, Option<usize>)| entry_view(e))
}

fn row_text(item: &CatalogItem, favorite: bool) -> (r: String)
    ensures
        r@ == picker_row(item.model(), favorite),
{
    let mut cs: Vec<char> = if favorite {
        chars_of("★ ")
    } else {
        Vec::new()
    };
    let ghost start = cs@;
    let name = chars_of(item.name.as_str());
    let mut i: usize = 0;
    while i < name.len()
        invariant
            i <= name@.len(),
            cs@ == start + name@.take(i as int),
        decreases name@.len() - i,
    {
        cs.push(name[i]);
        i = i + 1;
        proof {
            assert(cs@ =~= start + name@.take(i as int));
        }
    }
    cs.push(' ');
    cs.push(' ');
    let ghost middle = cs@;
    let categories = chars_of(item.categories.as_str());
    let mut j: usize = 0;
    while j < categories.len()
        invariant
            j <= categories@.len(),
            cs@ == middle + categories@.take(j as int),
        decreases categories@.len() - j,
    {
        cs.push(categories[j]);
        j = j + 1;
        proof {
            assert(cs@ =~= middle + categories@.take(j as int));
        }
    }
    proof {
        reveal_strlit("★ ");
        reveal_strlit("");
        reveal_strlit("  ");
        assert(name@.take(name@.len() as int) =~= name@);
        assert(categories@.take(categories@.len() as int) =~= categories@);
        assert(cs@ =~= picker_row(item.model(), favorite));
    }
    string_of(cs.as_slice())
}

/// The entries and row texts of the object settings window's effect
/// picker, for its view `mode` (1 favourites, 2 recent, else all), with the
/// favourite and recent settings keys.
pub fn catalog_picker_entries(
    items: &[CatalogItem],
    mode: i32,
    audio: bool,
    favorites: &[String],
    recent: &[String],
) -> (r: (Vec<CatalogItem>, Vec<String>))
    ensures
        item_models(r.0@) == picker_entries(item_models(items@), mode, audio, texts(favorites@), texts(recent@)),
        r.1@.len() == r.0@.len(),
        forall|k: int|
            0 <= k < r.1@.len() ==> (#[trigger] r.1@[k])@ == picker_row(
                r.0@[k].model(),
                texts(favorites@).contains(catalog_key_text(audio, r.0@[k].id@)),
            ),
{
    let ghost models = item_models(items@);
    let ghost favs = texts(favorites@);
    let ghost recents = texts(recent@);
    let mut entries: Vec<(CatalogItem, Option<usize>)> = Vec::new();
    let mut i: usize = 0;
    while i < items.len()
        invariant
            i <= items@.len(),
            models == item_models(items@),
            favs == texts(favorites@),
            recents == texts(recent@),
            entry_views(entries@) == listed_entries(models.take(i as int), mode, audio, favs, recents),
        decreases items@.len() - i,
    {
        proof {
            assert(models.take(i + 1).drop_last() =~= models.take(i as int));
            assert(models.take(i + 1).last() == items@[i as int].model());
        }
        let item = &items[i];
        let key = catalog_key(audio, item.id.as_str());
        let position = position_of(recent, key.as_str());
        let wanted = if item.header {
            false
        } else if mode == 1 {
            position_of(favorites, key.as_str()).is_some()
        } else if mode == 2 {
            position.is_some()
        } else {
            true
        };
        proof {
            lemma_position_found(favs, key@, 0);
            lemma_position_found(recents, key@, 0);
            if favs.contains(key@) {
                let k = choose|k: int| 0 <= k < favs.len() && favs[k] == key@;
                assert(favs[k] == key@);
            }
            if recents.contains(key@) {
                let k = choose|k: int| 0 <= k < recents.len() && recents[k] == key@;
                assert(recents[k] == key@);
            }
        }
        if wanted {
            entries.push((copy_item(item), position));
            proof {
                assert(entry_views(entries@) =~= listed_entries(
                    models.take(i + 1),
                    mode,
                    audio,
                    favs,
                    recents,
                ));
            }
        }
        i = i + 1;
    }
    proof {
        assert(models.take(items@.len() as int) =~= models);
    }
    let ghost listed_all = entry_views(entries@);
    let mut out: Vec<CatalogItem> = Vec::new();
    if mode == 2 {
        let mut j: usize = 0;
        while j < recent.len()
            invariant
                j <= recent@.len(),
                listed_all == entry_views(entries@),
                item_models(out@) == by_position(listed_all, j as int),
            decreases recent@.len() - j,
        {
            let mut k: usize = 0;
            while k < entries.len()
                invariant
                    j < recent@.len(),
                    k <= entries@.len(),
                    listed_all == entry_views(entries@),
                    item_models(out@) == by_position(listed_all, j as int) + at_position(
                        listed_all.take(k as int),
                        j as int,
                    ),
                decreases entries@.len() - k,
            {
                proof {
                    assert(listed_all.take(k + 1).drop_last() =~= listed_all.take(k as int));
                    assert(listed_all.take(k + 1).last() == entry_view(entries@[k as int]));
                }
                let at = match entries[k].1 {
                    Some(p) => p == j,
                    None => false,
                };
                let ghost before = item_models(out@);
                proof {
                    assert(entry_view(entries@[k as int]).0 == entries@[k as int].0.model());
                    assert(at == (entry_view(entries@[k as int]).1 == j as int));
                }
                if at {
                    out.push(copy_item(&entries[k].0));
                    proof {
                        assert(item_models(out@) =~= before.push(entries@[k as int].0.model()));
                    }
                }
                proof {
                    assert(item_models(out@) =~= by_position(listed_all, j as int) + at_position(
                        listed_all.take(k + 1),
                        j as int,
                    ));
                }
                k = k + 1;
            }
            proof {
                assert(listed_all.take(entries@.len() as int) =~= listed_all);
            }
            j = j + 1;
        }
    } else {
        let mut k: usize = 0;
        while k < entries.len()
            invariant
                k <= entries@.len(),
                listed_all == entry_views(entries@),
                item_models(out@) == entry_items(listed_all.take(k as int)),
            decreases entries@.len() - k,
        {
            let ghost before = item_models(out@);
            out.push(copy_item(&entries[k].0));
            proof {
                assert(item_models(out@) =~= before.push(entries@[k as int].0.model()));
                assert(entry_view(entries@[k as int]).0 == entries@[k as int].0.model());
                assert(listed_all[k as int] == entry_view(entries@[k as int]));
            }
            k = k + 1;
            proof {
                assert(item_models(out@) =~= entry_items(listed_all.take(k as int)));
            }
        }
        proof {
            assert(listed_all.take(entries@.len() as int) =~= listed_all);
        }
    }
    let mut rows: Vec<String> = Vec::new();
    let mut m: usize = 0;
    while m < out.len()
        invariant
            m <= out@.len(),
            favs == texts(favorites@),
            rows@.len() == m,
            forall|k: int|
                0 <= k < m ==> (#[trigger] rows@[k])@ == picker_row(
                    out@[k].model(),
                    favs.contains(catalog_key_text(audio, out@[k].id@)),
                ),
        decreases out@.len() - m,
    {
        let key = catalog_key(audio, out[m].id.as_str());
        let favorite = position_of(favorites, key.as_str()).is_some();
        proof {
            lemma_position_found(favs, key@, 0);
            if favs.contains(key@) {
                let k = choose|k: int| 0 <= k < favs.len() && favs[k] == key@;
                assert(favs[k] == key@);
            }
        }
        rows.push(row_text(&out[m], favorite));
        m = m + 1;
    }
    (out, rows)
}

} // verus!
