//! Names and labels of keyframe easings and the filtering of the easing
//! catalog.
use crate::language::{localized, pick, UiLanguage};
use crate::text::{
    chars_contain, chars_equal_str, chars_of, chars_start_with, has_prefix, has_substring,
    str_eq, string_of, sub_chars, unicode_char_lowercase,
};
use vstd::prelude::*;

verus! {

/// The label of an easing family (`sine`, `quad`, …); other names are
/// shown as they are.
pub open spec fn family_label(language: UiLanguage, family: Seq<char>) -> Seq<char> {
    if family == "sine"@ {
        pick(language, "Sine"@, "正弦"@, "サイン"@)
    } else if family == "quad"@ {
        pick(language, "Quadratic"@, "二次"@, "2次"@)
    } else if family == "cubic"@ {
        pick(language, "Cubic"@, "三次"@, "3次"@)
    } else if family == "quart"@ {
        pick(language, "Quartic"@, "四次"@, "4次"@)
    } else if family == "quint"@ {
        pick(language, "Quintic"@, "五次"@, "5次"@)
    } else if family == "expo"@ {
        pick(language, "Exponential"@, "指数"@, "指数"@)
    } else if family == "circ"@ {
        pick(language, "Circular"@, "圆形"@, "円"@)
    } else if family == "back"@ {
        pick(language, "Back"@, "回退"@, "戻る"@)
    } else if family == "elastic"@ {
        pick(language, "Elastic"@, "弹性"@, "弾性"@)
    } else if family == "bounce"@ {
        pick(language, "Bounce"@, "回弹"@, "跳ね返り"@)
    } else {
        family
    }
}

/// The direction prefix of an easing name, its label, and the family that
/// follows it; the longer prefixes are tried first.
pub open spec fn easing_direction(language: UiLanguage, name: Seq<char>) -> Option<
    (Seq<char>, Seq<char>),
> {
    if has_prefix(name, "ease_in_out_"@) {
        Some((pick(language, "Ease in/out"@, "缓入缓出"@, "加減速"@), name.skip(12)))
    } else if has_prefix(name, "ease_out_in_"@) {
        Some((pick(language, "Ease out/in"@, "缓出缓入"@, "減加速"@), name.skip(12)))
    } else if has_prefix(name, "ease_in_"@) {
        Some((pick(language, "Ease in"@, "缓入"@, "加速"@), name.skip(8)))
    } else if has_prefix(name, "ease_out_"@) {
        Some((pick(language, "Ease out"@, "缓出"@, "減速"@), name.skip(9)))
    } else {
        None
    }
}

/// The label of an easing: the special modes have their own labels, the
/// curves read `Family Direction`.
pub open spec fn easing_label_text(language: UiLanguage, name: Seq<char>) -> Seq<char> {
    if name == "none"@ {
        pick(language, "Instant"@, "瞬间"@, "瞬間移動"@)
    } else if name == "linear"@ {
        pick(language, "Linear"@, "线性"@, "直線"@)
    } else if name == "custom"@ {
        pick(language, "Custom"@, "自定义"@, "カスタム"@)
    } else if name == "random"@ {
        pick(language, "Random"@, "随机"@, "ランダム移動"@)
    } else if name == "alternate"@ {
        pick(language, "Alternate"@, "往复"@, "反復移動"@)
    } else {
        match easing_direction(language, name) {
            Some((direction, family)) => family_label(language, family) + " "@ + direction,
            None => family_label(language, name),
        }
    }
}

fn family_label_of(language: UiLanguage, family: &[char]) -> (r: String)
    ensures
        r@ == family_label(language, family@),
{
    let text = if chars_equal_str(family, "sine") {
        localized(language, "Sine", "正弦", "サイン")
    } else if chars_equal_str(family, "quad") {
        localized(language, "Quadratic", "二次", "2次")
    } else if chars_equal_str(family, "cubic") {
        localized(language, "Cubic", "三次", "3次")
    } else if chars_equal_str(family, "quart") {
        localized(language, "Quartic", "四次", "4次")
    } else if chars_equal_str(family, "quint") {
        localized(language, "Quintic", "五次", "5次")
    } else if chars_equal_str(family, "expo") {
        localized(language, "Exponential", "指数", "指数")
    } else if chars_equal_str(family, "circ") {
        localized(language, "Circular", "圆形", "円")
    } else if chars_equal_str(family, "back") {
        localized(language, "Back", "回退", "戻る")
    } else if chars_equal_str(family, "elastic") {
        localized(language, "Elastic", "弹性", "弾性")
    } else if chars_equal_str(family, "bounce") {
        localized(language, "Bounce", "回弹", "跳ね返り")
    } else {
        return string_of(family);
    };
    String::from_str(text)
}

fn prefix_matches(name: &[char], prefix: &str) -> (r: bool)
    ensures
        r == has_prefix(name@, prefix@),
{
    let p = chars_of(prefix);
    chars_start_with(name, p.as_slice())
}

/// The label shown for an easing name.
pub fn easing_label(language: UiLanguage, name: &str) -> (r: String)
    ensures
        r@ == easing_label_text(language, name@),
{
    if str_eq(name, "none") {
        return String::from_str(localized(language, "Instant", "瞬间", "瞬間移動"));
    } else if str_eq(name, "linear") {
        return String::from_str(localized(language, "Linear", "线性", "直線"));
    } else if str_eq(name, "custom") {
        return String::from_str(localized(language, "Custom", "自定义", "カスタム"));
    } else if str_eq(name, "random") {
        return String::from_str(localized(language, "Random", "随机", "ランダム移動"));
    } else if str_eq(name, "alternate") {
        return String::from_str(localized(language, "Alternate", "往复", "反復移動"));
    }
    let cs = chars_of(name);
    proof {
        reveal_strlit("ease_in_out_");
        reveal_strlit("ease_out_in_");
        reveal_strlit("ease_in_");
        reveal_strlit("ease_out_");
    }
    let (direction, skip): (&'static str, usize) = if prefix_matches(
        cs.as_slice(),
        "ease_in_out_",
    ) {
        (localized(language, "Ease in/out", "缓入缓出", "加減速"), 12)
    } else if prefix_matches(cs.as_slice(), "ease_out_in_") {
        (localized(language, "Ease out/in", "缓出缓入", "減加速"), 12)
    } else if prefix_matches(cs.as_slice(), "ease_in_") {
        (localized(language, "Ease in", "缓入", "加速"), 8)
    } else if prefix_matches(cs.as_slice(), "ease_out_") {
        (localized(language, "Ease out", "缓出", "減速"), 9)
    } else {
        return family_label_of(language, cs.as_slice());
    };
    let family = sub_chars(cs.as_slice(), skip, cs.len());
    assert(family@ =~= name@.skip(skip as int));
    let mut out = family_label_of(language, family.as_slice());
    out.append(" ");
    out.append(direction);
    out
}

/// The label of a parameter button: a keyframed parameter that moves with a
/// curve shows its easing after the parameter name.
pub open spec fn button_label_text(
    language: UiLanguage,
    label: Seq<char>,
    keyframed: bool,
    interpolation: Seq<char>,
) -> Seq<char> {
    if keyframed && interpolation != ""@ && interpolation != "constant"@ && interpolation
        != "none"@ {
        label + " ("@ + easing_label_text(language, interpolation) + ")"@
    } else {
        label
    }
}

/// The text of a parameter's button in the object settings.
pub fn parameter_button_label(
    language: UiLanguage,
    label: &str,
    keyframed: bool,
    interpolation: &str,
) -> (r: String)
    ensures
        r@ == button_label_text(language, label@, keyframed, interpolation@),
{
    if keyframed && !str_eq(interpolation, "") && !str_eq(interpolation, "constant") && !str_eq(
        interpolation,
        "none",
    ) {
        let mut out = String::from_str(label);
        out.append(" (");
        let easing = easing_label(language, interpolation);
        out.append(easing.as_str());
        out.append(")");
        out
    } else {
        String::from_str(label)
    }
}

/// A catalog query or easing name prepared for matching: underscores
/// removed and every character lowercased.
pub open spec fn normalized_filter_text(value: Seq<char>) -> Seq<char>
    decreases value.len(),
{
    if value.len() == 0 {
        Seq::empty()
    } else {
        let rest = normalized_filter_text(value.drop_last());
        if value.last() == '_' {
            rest
        } else {
            rest + unicode_char_lowercase(value.last())
        }
    }
}

fn normalized_filter_chars(value: &[char]) -> (r: Vec<char>)
    ensures
        r@ == normalized_filter_text(value@),
{
    let mut out: Vec<char> = Vec::new();
    let mut i: usize = 0;
    while i < value.len()
        invariant
            i <= value@.len(),
            out@ == normalized_filter_text(value@.take(i as int)),
        decreases value@.len() - i,
    {
        proof {
            assert(value@.take(i + 1).drop_last() =~= value@.take(i as int));
            assert(value@.take(i + 1).last() == value@[i as int]);
        }
        if value[i] != '_' {
            let lower = crate::text::char_lowercase(value[i]);
            let ghost before = out@;
            let mut k: usize = 0;
            while k < lower.len()
                invariant
                    k <= lower@.len(),
                    out@ == before + lower@.take(k as int),
                decreases lower@.len() - k,
            {
                out.push(lower[k]);
                k = k + 1;
                assert(out@ =~= before + lower@.take(k as int));
            }
            assert(lower@.take(lower@.len() as int) =~= lower@);
        }
        i = i + 1;
    }
    assert(value@.take(value@.len() as int) =~= value@);
    out
}

/// Prepares a catalog query for matching.
pub fn normalized_easing_filter(value: &str) -> (r: String)
    ensures
        r@ == normalized_filter_text(value@),
{
    let cs = chars_of(value);
    let n = normalized_filter_chars(cs.as_slice());
    string_of(n.as_slice())
}

/// The label of an easing catalog category.
pub open spec fn category_label_text(language: UiLanguage, category: Seq<char>) -> Seq<char> {
    if category == "Basic"@ {
        pick(language, "Basic"@, "基础"@, "基本"@)
    } else if category == "Standard curves"@ {
        pick(language, "Standard curves"@, "标准曲线"@, "標準カーブ"@)
    } else if category == "Strong curves"@ {
        pick(language, "Strong curves"@, "强曲线"@, "強いカーブ"@)
    } else if category == "Bounce and elasticity"@ {
        pick(language, "Bounce and elasticity"@, "回弹与弹性"@, "反動と弾性"@)
    } else if category == "Special"@ {
        pick(language, "Special"@, "特殊"@, "特殊"@)
    } else {
        Seq::empty()
    }
}

/// The heading shown for an easing catalog category.
pub fn easing_category_label(language: UiLanguage, category: &str) -> (r: &'static str)
    ensures
        r@ == category_label_text(language, category@),
{
    if str_eq(category, "Basic") {
        localized(language, "Basic", "基础", "基本")
    } else if str_eq(category, "Standard curves") {
        localized(language, "Standard curves", "标准曲线", "標準カーブ")
    } else if str_eq(category, "Strong curves") {
        localized(language, "Strong curves", "强曲线", "強いカーブ")
    } else if str_eq(category, "Bounce and elasticity") {
        localized(language, "Bounce and elasticity", "回弹与弹性", "反動と弾性")
    } else if str_eq(category, "Special") {
        localized(language, "Special", "特殊", "特殊")
    } else {
        proof {
            reveal_strlit("");
        }
        ""
    }
}

/// The easing at `index` of the interpolation names, or `none` when the
/// index is out of range.
pub fn easing_name_at(names: &[&'static str], index: i32) -> (r: &'static str)
    ensures
        r@ == (if 0 <= index < names@.len() {
            names@[index as int]@
        } else {
            "none"@
        }),
{
    if index >= 0 && (index as usize) < names.len() {
        names[index as usize]
    } else {
        "none"
    }
}

/// What a keyframe's easing options hold besides the interpolation's name.
#[derive(Debug, Clone, Copy, PartialEq, Eq, Structural)]
pub enum EasingParameters {
    /// The custom curve's control points.
    Points,
    /// The number of frames each random or alternating step holds.
    StepFrames(i32),
    /// The elastic amplitude and period.
    Elastic,
    /// Nothing more.
    Plain,
}

/// The interpolation when it is one of `names`, else `none`.
pub open spec fn known_interpolation(names: Seq<&str>, interpolation: Seq<char>) -> Seq<char> {
    if exists|i: int| 0 <= i < names.len() && #[trigger] names[i]@ == interpolation {
        interpolation
    } else {
        "none"@
    }
}

/// The parameters that go with an interpolation: control points for
/// `custom`, the step length (at least one frame) for `random` and
/// `alternate`, amplitude and period for an elastic one.
pub open spec fn easing_parameters_for(interpolation: Seq<char>, step_frames: i32) -> EasingParameters {
    if interpolation == "custom"@ {
        EasingParameters::Points
    } else if interpolation == "random"@ || interpolation == "alternate"@ {
        EasingParameters::StepFrames(if step_frames < 1 { 1 } else { step_frames })
    } else if has_substring(interpolation, "elastic"@) {
        EasingParameters::Elastic
    } else {
        EasingParameters::Plain
    }
}

/// The interpolation a keyframe's easing options name (`none` for one that
/// is not among the interpolation `names`) and the parameters that go with
/// it.
pub fn easing_option_plan(interpolation: &str, names: &[&str], step_frames: i32) -> (r: (
    String,
    EasingParameters,
))
    ensures
        r.0@ == known_interpolation(names@, interpolation@),
        r.1 == easing_parameters_for(r.0@, step_frames),
{
    let mut i: usize = 0;
    let mut found = false;
    while i < names.len()
        invariant
            i <= names@.len(),
            !found ==> forall|k: int| 0 <= k < i ==> #[trigger] names@[k]@ != interpolation@,
            found ==> exists|k: int| 0 <= k < names@.len() && #[trigger] names@[k]@ == interpolation@,
        ensures
            !found ==> forall|k: int| 0 <= k < names@.len() ==> #[trigger] names@[k]@ != interpolation@,
            found ==> exists|k: int| 0 <= k < names@.len() && #[trigger] names@[k]@ == interpolation@,
        decreases names@.len() - i,
    {
        if str_eq(names[i], interpolation) {
            found = true;
            assert(names@[i as int]@ == interpolation@);
            break;
        }
        i = i + 1;
    }
    let name: &str = if found {
        interpolation
    } else {
        "none"
    };
    proof {
        reveal_strlit("elastic");
    }
    let parameters = if str_eq(name, "custom") {
        EasingParameters::Points
    } else if str_eq(name, "random") || str_eq(name, "alternate") {
        EasingParameters::StepFrames(if step_frames < 1 { 1 } else { step_frames })
    } else if chars_contain(&chars_of(name), &chars_of("elastic")) {
        EasingParameters::Elastic
    } else {
        EasingParameters::Plain
    };
    (String::from_str(name), parameters)
}

/// The number of easing catalog categories.
pub const EASING_CATEGORY_COUNT: usize = 5;

/// The easing catalog's categories and the easings each lists, in order.
pub open spec fn easing_category(index: int) -> (Seq<char>, Seq<Seq<char>>) {
    if index == 0 {
        ("Basic"@, seq!["none"@, "linear"@])
    } else if index == 1 {
        (
            "Standard curves"@,
            seq![
                "ease_in_sine"@,
                "ease_out_sine"@,
                "ease_in_out_sine"@,
                "ease_out_in_sine"@,
                "ease_in_quad"@,
                "ease_out_quad"@,
                "ease_in_out_quad"@,
                "ease_out_in_quad"@,
                "ease_in_cubic"@,
                "ease_out_cubic"@,
                "ease_in_out_cubic"@,
                "ease_out_in_cubic"@,
            ],
        )
    } else if index == 2 {
        (
            "Strong curves"@,
            seq![
                "ease_in_quart"@,
                "ease_out_quart"@,
                "ease_in_out_quart"@,
                "ease_out_in_quart"@,
                "ease_in_quint"@,
                "ease_out_quint"@,
                "ease_in_out_quint"@,
                "ease_out_in_quint"@,
                "ease_in_expo"@,
                "ease_out_expo"@,
                "ease_in_out_expo"@,
                "ease_out_in_expo"@,
                "ease_in_circ"@,
                "ease_out_circ"@,
                "ease_in_out_circ"@,
                "ease_out_in_circ"@,
            ],
        )
    } else if index == 3 {
        (
            "Bounce and elasticity"@,
            seq![
                "ease_in_back"@,
                "ease_out_back"@,
                "ease_in_out_back"@,
                "ease_out_in_back"@,
                "ease_in_elastic"@,
                "ease_out_elastic"@,
                "ease_in_out_elastic"@,
                "ease_out_in_elastic"@,
                "ease_in_bounce"@,
                "ease_out_bounce"@,
                "ease_in_out_bounce"@,
                "ease_out_in_bounce"@,
            ],
        )
    } else {
        ("Special"@, seq!["random"@, "alternate"@, "custom"@])
    }
}

/// The catalog category at `index`: its name and its easings.
pub fn easing_category_at(index: usize) -> (r: (&'static str, Vec<&'static str>))
    requires
        index < EASING_CATEGORY_COUNT,
    ensures
        r.0@ == easing_category(index as int).0,
        r.1@.map_values(|n: &'static str| n@) == easing_category(index as int).1,
{
    let r = if index == 0 {
        ("Basic", vec!["none", "linear"])
    } else if index == 1 {
        (
            "Standard curves",
            vec![
                "ease_in_sine",
                "ease_out_sine",
                "ease_in_out_sine",
                "ease_out_in_sine",
                "ease_in_quad",
                "ease_out_quad",
                "ease_in_out_quad",
                "ease_out_in_quad",
                "ease_in_cubic",
                "ease_out_cubic",
                "ease_in_out_cubic",
                "ease_out_in_cubic",
            ],
        )
    } else if index == 2 {
        (
            "Strong curves",
            vec![
                "ease_in_quart",
                "ease_out_quart",
                "ease_in_out_quart",
                "ease_out_in_quart",
                "ease_in_quint",
                "ease_out_quint",
                "ease_in_out_quint",
                "ease_out_in_quint",
                "ease_in_expo",
                "ease_out_expo",
                "ease_in_out_expo",
                "ease_out_in_expo",
                "ease_in_circ",
                "ease_out_circ",
                "ease_in_out_circ",
                "ease_out_in_circ",
            ],
        )
    } else if index == 3 {
        (
            "Bounce and elasticity",
            vec![
                "ease_in_back",
                "ease_out_back",
                "ease_in_out_back",
                "ease_out_in_back",
                "ease_in_elastic",
                "ease_out_elastic",
                "ease_in_out_elastic",
                "ease_out_in_elastic",
                "ease_in_bounce",
                "ease_out_bounce",
                "ease_in_out_bounce",
                "ease_out_in_bounce",
            ],
        )
    } else {
        ("Special", vec!["random", "alternate", "custom"])
    };
    assert(r.1@.map_values(|n: &'static str| n@) =~= easing_category(index as int).1);
    r
}

/// A row of the easing catalog: a category heading (index -1) or an easing
/// with its index among the interpolation names.
#[derive(Debug, Clone, PartialEq, Eq)]
pub struct EasingCatalogRow {
    pub header: bool,
    pub easing_index: i32,
    pub name: String,
    pub label: String,
}

/// The content of a catalog row.
pub struct CatalogRowModel {
    pub header: bool,
    pub easing_index: i32,
    pub name: Seq<char>,
    pub label: Seq<char>,
}

impl EasingCatalogRow {
    /// The row's content.
    pub open spec fn model(&self) -> CatalogRowModel {
        CatalogRowModel {
            header: self.header,
            easing_index: self.easing_index,
            name: self.name@,
            label: self.label@,
        }
    }
}

/// The first position of `name` among `names`, at `from` or later.
pub open spec fn name_position(names: Seq<Seq<char>>, name: Seq<char>, from: int) -> Option<int>
    decreases names.len() - from,
{
    if from < 0 || from >= names.len() {
        None
    } else if names[from] == name {
        Some(from)
    } else {
        name_position(names, name, from + 1)
    }
}

/// The easing rows of one category: its easings that are known
/// interpolation names and match the normalized query (every one for an
/// empty query).
pub open spec fn matching_rows(
    language: UiLanguage,
    names: Seq<Seq<char>>,
    query: Seq<char>,
    listed: Seq<Seq<char>>,
) -> Seq<CatalogRowModel>
    decreases listed.len(),
{
    if listed.len() == 0 {
        seq![]
    } else {
        let rest = matching_rows(language, names, query, listed.drop_last());
        let name = listed.last();
        match name_position(names, name, 0) {
            Some(i) => if query.len() == 0 || has_substring(normalized_filter_text(name), query) {
                rest.push(
                    CatalogRowModel {
                        header: false,
                        easing_index: i as i32,
                        name,
                        label: easing_label_text(language, name),
                    },
                )
            } else {
                rest
            },
            None => rest,
        }
    }
}

/// The catalog rows of the categories before `count`: for each category with
/// a matching easing, its heading and then its matching easings.
pub open spec fn catalog_rows(
    language: UiLanguage,
    names: Seq<Seq<char>>,
    query: Seq<char>,
    count: int,
) -> Seq<CatalogRowModel>
    decreases count,
{
    if count <= 0 {
        seq![]
    } else {
        let rest = catalog_rows(language, names, query, count - 1);
        let (category, listed) = easing_category(count - 1);
        let rows = matching_rows(language, names, normalized_filter_text(query), listed);
        if rows.len() == 0 {
            rest
        } else {
            rest + seq![
                CatalogRowModel {
                    header: true,
                    easing_index: -1i32,
                    name: category,
                    label: category_label_text(language, category),
                },
            ] + rows
        }
    }
}

/// The contents of a list of rows.
pub open spec fn row_models(v: Seq<EasingCatalogRow>) -> Seq<CatalogRowModel> {
    v.map_values(|r: EasingCatalogRow| r.model())
}

/// The texts of the interpolation names.
pub open spec fn name_texts(v: Seq<&'static str>) -> Seq<Seq<char>> {
    v.map_values(|n: &'static str| n@)
}

fn find_name(names: &[&'static str], name: &str) -> (r: Option<usize>)
    ensures
        r matches Some(i) ==> name_position(name_texts(names@), name@, 0) == Some(i as int),
        r is None ==> name_position(name_texts(names@), name@, 0) is None,
{
    let ghost texts = name_texts(names@);
    let mut i: usize = 0;
    while i < names.len()
        invariant
            i <= names@.len(),
            texts == name_texts(names@),
            name_position(texts, name@, 0) == name_position(texts, name@, i as int),
        decreases names@.len() - i,
    {
        assert(texts[i as int] == names@[i as int]@);
        if str_eq(names[i], name) {
            return Some(i);
        }
        i = i + 1;
    }
    None
}

/// The rows of the easing catalog for a search query. `names` are the
/// interpolation names whose indices the rows refer to.
pub fn easing_catalog_rows(language: UiLanguage, names: &[&'static str], query: &str) -> (r: Vec<
    EasingCatalogRow,
>)
    ensures
        row_models(r@) == catalog_rows(
            language,
            name_texts(names@),
            query@,
            EASING_CATEGORY_COUNT as int,
        ),
{
    let ghost texts = name_texts(names@);
    let q = chars_of(query);
    let normalized = normalized_filter_chars(q.as_slice());
    let mut rows: Vec<EasingCatalogRow> = Vec::new();
    let mut c: usize = 0;
    while c < EASING_CATEGORY_COUNT
        invariant
            c <= EASING_CATEGORY_COUNT,
            texts == name_texts(names@),
            normalized@ == normalized_filter_text(query@),
            row_models(rows@) == catalog_rows(language, texts, query@, c as int),
        decreases EASING_CATEGORY_COUNT - c,
    {
        let (category, listed) = easing_category_at(c);
        let ghost listed_texts = listed@.map_values(|n: &'static str| n@);
        let mut matching: Vec<EasingCatalogRow> = Vec::new();
        let mut k: usize = 0;
        while k < listed.len()
            invariant
                k <= listed@.len(),
                texts == name_texts(names@),
                normalized@ == normalized_filter_text(query@),
                listed_texts == listed@.map_values(|n: &'static str| n@),
                row_models(matching@) == matching_rows(
                    language,
                    texts,
                    normalized@,
                    listed_texts.take(k as int),
                ),
            decreases listed@.len() - k,
        {
            let name = listed[k];
            proof {
                assert(listed_texts.take(k + 1).drop_last() =~= listed_texts.take(k as int));
                assert(listed_texts.take(k + 1).last() == name@);
            }
            match find_name(names, name) {
                Some(i) => {
                    let name_chars = chars_of(name);
                    let candidate = normalized_filter_chars(name_chars.as_slice());
                    if normalized.len() == 0 || chars_contain(
                        candidate.as_slice(),
                        normalized.as_slice(),
                    ) {
                        matching.push(
                            EasingCatalogRow {
                                header: false,
                                easing_index: i as i32,
                                name: String::from_str(name),
                                label: easing_label(language, name),
                            },
                        );
                        proof {
                            assert(row_models(matching@) =~= matching_rows(
                                language,
                                texts,
                                normalized@,
                                listed_texts.take(k + 1),
                            ));
                        }
                    }
                },
                None => {},
            }
            k = k + 1;
        }
        assert(listed_texts.take(listed@.len() as int) =~= listed_texts);
        if matching.len() > 0 {
            let ghost before = row_models(rows@);
            rows.push(
                EasingCatalogRow {
                    header: true,
                    easing_index: -1,
                    name: String::from_str(category),
                    label: String::from_str(easing_category_label(language, category)),
                },
            );
            rows.append(&mut matching);
            proof {
                let (cat, lst) = easing_category(c as int);
                assert(cat == category@);
                assert(lst == listed_texts);
                assert(row_models(rows@) =~= catalog_rows(language, texts, query@, c + 1));
            }
        } else {
            proof {
                let (cat, lst) = easing_category(c as int);
                assert(lst == listed_texts);
            }
        }
        c = c + 1;
    }
    rows
}

} // verus!
