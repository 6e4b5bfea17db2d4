//! Font selection rules of the text rasterizer and the font picker.
use crate::text::{
    ascii_lowercase, ascii_lowercase_chars, char_is_control, char_is_whitespace, chars_contain,
    chars_equal_str, has_substring, is_control_char, is_white_space, lowercase_chars, trim_str,
    trimmed, unicode_lowercase,
};
use crate::settings::choice_position;
use crate::translations::{
    compare_text, lemma_text_less_total, lemma_text_less_transitive,
    text_less, TextOrder,
};
use vstd::prelude::*;

verus! {

/// A character that does not need a glyph of its own when choosing a font
/// for a text: whitespace, control characters, the zero-width joiner and
/// variation selectors.
pub open spec fn is_ignorable_for_matching(c: char) -> bool {
    let u = c as u32;
    is_white_space(c) || is_control_char(c) || u == 0x200d || (0xfe00 <= u && u <= 0xfe0f) || (
    0xe0100 <= u && u <= 0xe01ef)
}

/// Whether a font need not cover `character` to be used for a text.
pub fn ignorable_for_font_matching(character: char) -> (r: bool)
    ensures
        r == is_ignorable_for_matching(character),
{
    let u = character as u32;
    char_is_whitespace(character) || char_is_control(character) || u == 0x200d || (0xfe00 <= u
        && u <= 0xfe0f) || (0xe0100 <= u && u <= 0xe01ef)
}

/// A requested font family: one of the CSS generic families or a name.
#[derive(Debug, Clone, PartialEq, Eq)]
pub enum RequestedFamily {
    Serif,
    SansSerif,
    Cursive,
    Fantasy,
    Monospace,
    Name(String),
}

/// The family that a font-family setting asks for: the generic families
/// are recognised ignoring ASCII case, an empty name means sans-serif.
pub open spec fn requested_family_of(name: Seq<char>) -> Option<Seq<char>> {
    // `None` for a named family, otherwise the generic family's keyword.
    let l = ascii_lowercase(name);
    if l == "serif"@ {
        Some("serif"@)
    } else if l == "sans-serif"@ || name.len() == 0 {
        Some("sans-serif"@)
    } else if l == "cursive"@ {
        Some("cursive"@)
    } else if l == "fantasy"@ {
        Some("fantasy"@)
    } else if l == "monospace"@ {
        Some("monospace"@)
    } else {
        None
    }
}

impl RequestedFamily {
    /// The generic keyword of the family, or `None` for a named family.
    pub open spec fn keyword(&self) -> Option<Seq<char>> {
        match self {
            RequestedFamily::Serif => Some("serif"@),
            RequestedFamily::SansSerif => Some("sans-serif"@),
            RequestedFamily::Cursive => Some("cursive"@),
            RequestedFamily::Fantasy => Some("fantasy"@),
            RequestedFamily::Monospace => Some("monospace"@),
            RequestedFamily::Name(_) => None,
        }
    }
}

/// The family query for a font-family setting.
pub fn requested_family(name: &str) -> (r: RequestedFamily)
    ensures
        r.keyword() == requested_family_of(name@),
        r matches RequestedFamily::Name(n) ==> n@ == name@,
{
    let cs = crate::text::chars_of(name);
    let l = ascii_lowercase_chars(cs.as_slice());
    if chars_equal_str(l.as_slice(), "serif") {
        RequestedFamily::Serif
    } else if chars_equal_str(l.as_slice(), "sans-serif") || cs.len() == 0 {
        RequestedFamily::SansSerif
    } else if chars_equal_str(l.as_slice(), "cursive") {
        RequestedFamily::Cursive
    } else if chars_equal_str(l.as_slice(), "fantasy") {
        RequestedFamily::Fantasy
    } else if chars_equal_str(l.as_slice(), "monospace") {
        RequestedFamily::Monospace
    } else {
        RequestedFamily::Name(String::from_str(name))
    }
}

/// The slant of a font face.
#[derive(Debug, Clone, Copy, PartialEq, Eq, Structural)]
pub enum FontStyle {
    Normal,
    Italic,
    Oblique,
}

/// How far a face is from the requested style and weight: first whether the
/// style differs, then the distance between the weights. Smaller is better.
pub fn face_match_score(
    actual_style: FontStyle,
    actual_weight: u16,
    requested_style: FontStyle,
    requested_weight: u16,
) -> (r: (u16, u16))
    ensures
        r.0 == (if actual_style == requested_style {
            0u16
        } else {
            1u16
        }),
        r.1 == (if actual_weight >= requested_weight {
            actual_weight - requested_weight
        } else {
            requested_weight - actual_weight
        }),
{
    let style_penalty: u16 = if actual_style == requested_style {
        0
    } else {
        1
    };
    let distance = if actual_weight >= requested_weight {
        actual_weight - requested_weight
    } else {
        requested_weight - actual_weight
    };
    (style_penalty, distance)
}

/// The families that the font picker lists for a query: all of them for a
/// blank query, otherwise those whose lowercase name contains the trimmed,
/// lowercase query; in their original order.
pub open spec fn matching_families(families: Seq<Seq<char>>, query: Seq<char>) -> Seq<Seq<char>>
    decreases families.len(),
{
    if families.len() == 0 {
        seq![]
    } else {
        let rest = matching_families(families.drop_last(), query);
        let q = unicode_lowercase(trimmed(query));
        if q.len() == 0 || has_substring(unicode_lowercase(families.last()), q) {
            rest.push(families.last())
        } else {
            rest
        }
    }
}

/// The characters of each string.
pub open spec fn family_texts(v: Seq<String>) -> Seq<Seq<char>> {
    v.map_values(|s: String| s@)
}

/// Filters the font families by a case-insensitive query.
pub fn filtered_font_families(families: &[String], query: &str) -> (r: Vec<String>)
    ensures
        family_texts(r@) == matching_families(family_texts(families@), query@),
{
    let ghost all = family_texts(families@);
    let t = trim_str(query);
    let q = lowercase_chars(t.as_slice());
    let mut out: Vec<String> = Vec::new();
    let mut i: usize = 0;
    while i < families.len()
        invariant
            i <= families@.len(),
            all == family_texts(families@),
            q@ == unicode_lowercase(trimmed(query@)),
            family_texts(out@) == matching_families(all.take(i as int), query@),
        decreases families@.len() - i,
    {
        proof {
            assert(all.take(i + 1).drop_last() =~= all.take(i as int));
            assert(all.take(i + 1).last() == families@[i as int]@);
        }
        let name = crate::text::chars_of(families[i].as_str());
        let lower = lowercase_chars(name.as_slice());
        if q.len() == 0 || chars_contain(lower.as_slice(), q.as_slice()) {
            out.push(families[i].clone());
            proof {
                assert(family_texts(out@) =~= matching_families(all.take(i + 1), query@));
            }
        }
        i = i + 1;
    }
    assert(all.take(families@.len() as int) =~= all);
    out
}

/// The families tried, in order, when the requested one cannot show a text.
pub const FALLBACK_FAMILIES: [&'static str; 7] = [
    "Hiragino Sans",
    "Noto Sans CJK JP",
    "Noto Sans",
    "Yu Gothic",
    "Meiryo",
    "Microsoft YaHei",
    "Arial Unicode MS",
];

/// An installed font face considered for a text.
#[derive(Debug, Clone, PartialEq, Eq)]
pub struct FaceCandidate {
    pub style: FontStyle,
    pub weight: u16,
    pub post_script_name: String,
    /// The face has a glyph for every character of the text that needs one.
    pub supports_text: bool,
}

/// The face chosen for a text.
#[derive(Debug, Clone, Copy, PartialEq, Eq, Structural)]
pub enum FaceChoice {
    /// The face found for the requested family.
    Primary,
    /// The face found for the fallback family at this position.
    Fallback(usize),
    /// The installed face at this position.
    Candidate(usize),
    /// No face at all.
    NoFace,
}

/// The distance of a face's style from the requested one.
pub open spec fn style_penalty(actual: FontStyle, requested: FontStyle) -> int {
    if actual == requested {
        0
    } else {
        1
    }
}

/// The distance of a face's weight from the requested one.
pub open spec fn weight_distance(actual: u16, requested: u16) -> int {
    if actual >= requested {
        actual - requested
    } else {
        requested - actual
    }
}

/// Face `a` ranks before face `b`: closer in style, then closer in weight,
/// then by PostScript name.
pub open spec fn ranks_before(
    a: FaceCandidate,
    b: FaceCandidate,
    style: FontStyle,
    weight: u16,
) -> bool {
    let (sa, sb) = (style_penalty(a.style, style), style_penalty(b.style, style));
    let (wa, wb) = (weight_distance(a.weight, weight), weight_distance(b.weight, weight));
    sa < sb || (sa == sb && (wa < wb || (wa == wb && text_less(
        a.post_script_name@,
        b.post_script_name@,
    ))))
}

/// Faces `a` and `b` rank alike.
pub open spec fn ranks_alike(a: FaceCandidate, b: FaceCandidate, style: FontStyle, weight: u16) -> bool {
    style_penalty(a.style, style) == style_penalty(b.style, style) && weight_distance(
        a.weight,
        weight,
    ) == weight_distance(b.weight, weight) && a.post_script_name@ == b.post_script_name@
}

/// The face at `i` is the first, in rank order (equal ranks in the given
/// order), of those that can show the text.
pub open spec fn best_supporting(
    faces: Seq<FaceCandidate>,
    i: int,
    style: FontStyle,
    weight: u16,
) -> bool {
    &&& 0 <= i < faces.len()
    &&& faces[i].supports_text
    &&& forall|j: int|
        0 <= j < faces.len() && j != i && (#[trigger] faces[j]).supports_text ==> ranks_before(
            faces[i],
            faces[j],
            style,
            weight,
        ) || (ranks_alike(faces[i], faces[j], style, weight) && i < j)
}

/// Some face can show the text.
pub open spec fn some_supporting(faces: Seq<FaceCandidate>) -> bool {
    exists|j: int| 0 <= j < faces.len() && (#[trigger] faces[j]).supports_text
}

/// The face for a text: the requested family's face when it can show the
/// text; else the first fallback family's face that can; else the best
/// ranked installed face that can; else the requested family's face if
/// there is one. `primary` is `None` when no face was found for the
/// requested family, else whether it can show the text; `fallbacks` says
/// the same of each fallback family.
pub open spec fn chosen_face(
    r: FaceChoice,
    primary: Option<bool>,
    fallbacks: Seq<Option<bool>>,
    faces: Seq<FaceCandidate>,
    style: FontStyle,
    weight: u16,
) -> bool {
    if primary == Some(true) {
        r == FaceChoice::Primary
    } else if choice_position(fallbacks, Some(true), 0) is Some {
        r == FaceChoice::Fallback(choice_position(fallbacks, Some(true), 0)->0 as usize)
    } else if some_supporting(faces) {
        r matches FaceChoice::Candidate(i) && best_supporting(faces, i as int, style, weight)
    } else if primary is Some {
        r == FaceChoice::Primary
    } else {
        r == FaceChoice::NoFace
    }
}

fn rank_before(a: &FaceCandidate, b: &FaceCandidate, style: FontStyle, weight: u16) -> (r: bool)
    ensures
        r == ranks_before(*a, *b, style, weight),
        !r ==> ranks_before(*b, *a, style, weight) || ranks_alike(*a, *b, style, weight),
{
    let sa = face_match_score(a.style, a.weight, style, weight);
    let sb = face_match_score(b.style, b.weight, style, weight);
    if sa.0 != sb.0 {
        return sa.0 < sb.0;
    }
    if sa.1 != sb.1 {
        return sa.1 < sb.1;
    }
    let na = crate::text::chars_of(a.post_script_name.as_str());
    let nb = crate::text::chars_of(b.post_script_name.as_str());
    match compare_text(na.as_slice(), nb.as_slice()) {
        TextOrder::Before => true,
        _ => false,
    }
}

proof fn lemma_ranks_transitive(
    a: FaceCandidate,
    b: FaceCandidate,
    c: FaceCandidate,
    style: FontStyle,
    weight: u16,
)
    requires
        ranks_before(a, b, style, weight) || ranks_alike(a, b, style, weight),
        ranks_before(b, c, style, weight),
    ensures
        ranks_before(a, c, style, weight),
{
    if text_less(a.post_script_name@, b.post_script_name@) && text_less(
        b.post_script_name@,
        c.post_script_name@,
    ) {
        lemma_text_less_transitive(a.post_script_name@, b.post_script_name@, c.post_script_name@);
    }
}

/// Chooses the face for a text from what the font database reports.
pub fn select_face(
    primary: Option<bool>,
    fallbacks: &[Option<bool>],
    faces: &[FaceCandidate],
    style: FontStyle,
    weight: u16,
) -> (r: FaceChoice)
    ensures
        chosen_face(r, primary, fallbacks@, faces@, style, weight),
{
    if let Some(true) = primary {
        return FaceChoice::Primary;
    }
    let mut k: usize = 0;
    while k < fallbacks.len()
        invariant
            k <= fallbacks@.len(),
            primary != Some(true),
            choice_position(fallbacks@, Some(true), 0) == choice_position(
                fallbacks@,
                Some(true),
                k as int,
            ),
        decreases fallbacks@.len() - k,
    {
        if let Some(true) = fallbacks[k] {
            assert(fallbacks@[k as int] == Some(true));
            assert(choice_position(fallbacks@, Some(true), k as int) == Some(k as int));
            return FaceChoice::Fallback(k);
        }
        k = k + 1;
    }
    let mut best: Option<usize> = None;
    let mut j: usize = 0;
    while j < faces.len()
        invariant
            j <= faces@.len(),
            best is None ==> forall|m: int| 0 <= m < j ==> !(#[trigger] faces@[m]).supports_text,
            best matches Some(b) ==> b < j && best_supporting(faces@.take(j as int), b as int, style, weight),
        decreases faces@.len() - j,
    {
        let ghost prefix = faces@.take(j as int);
        let ghost next = faces@.take(j + 1);
        proof {
            assert(next.drop_last() =~= prefix);
        }
        if faces[j].supports_text {
            let replace = match best {
                None => true,
                Some(b) => rank_before(&faces[j], &faces[b], style, weight),
            };
            if replace {
                proof {
                    assert forall|m: int|
                        0 <= m < next.len() && m != j && (#[trigger] next[m]).supports_text implies ranks_before(
                            next[j as int],
                            next[m],
                            style,
                            weight,
                        ) || (ranks_alike(next[j as int], next[m], style, weight) && j < m) by {
                        assert(next[m] == prefix[m]);
                        let b = best->0 as int;
                        if m != b {
                            assert(prefix[m] == faces@[m]);
                            assert(ranks_before(prefix[b], prefix[m], style, weight) || (
                            ranks_alike(prefix[b], prefix[m], style, weight) && b < m));
                            if ranks_before(prefix[b], prefix[m], style, weight) {
                                lemma_ranks_transitive(
                                    faces@[j as int],
                                    faces@[b],
                                    faces@[m],
                                    style,
                                    weight,
                                );
                            } else {
                                assert(ranks_before(faces@[j as int], faces@[m], style, weight));
                            }
                        }
                    }
                }
                best = Some(j);
            } else {
                proof {
                    let b = best->0 as int;
                    assert forall|m: int|
                        0 <= m < next.len() && m != b && (#[trigger] next[m]).supports_text implies ranks_before(
                            next[b],
                            next[m],
                            style,
                            weight,
                        ) || (ranks_alike(next[b], next[m], style, weight) && b < m) by {
                        if m < j {
                            assert(next[m] == prefix[m]);
                        } else {
                            assert(m == j);
                            if !ranks_before(faces@[b], faces@[j as int], style, weight) {
                                assert(ranks_alike(faces@[j as int], faces@[b], style, weight) || ranks_before(
                                    faces@[b],
                                    faces@[j as int],
                                    style,
                                    weight,
                                ));
                            }
                        }
                    }
                }
            }
        } else {
            proof {
                match best {
                    Some(b) => {
                        assert forall|m: int|
                            0 <= m < next.len() && m != b && (#[trigger] next[m]).supports_text implies ranks_before(
                                next[b as int],
                                next[m],
                                style,
                                weight,
                            ) || (ranks_alike(next[b as int], next[m], style, weight) && b < m) by {
                            assert(next[m] == prefix[m]);
                        }
                    },
                    None => {},
                }
            }
        }
        j = j + 1;
    }
    proof {
        assert(faces@.take(faces@.len() as int) =~= faces@);
    }
    match best {
        Some(b) => FaceChoice::Candidate(b),
        None => {
            if primary.is_some() {
                FaceChoice::Primary
            } else {
                FaceChoice::NoFace
            }
        },
    }
}

/// Whether a text holds a character that needs a glyph.
pub fn has_visible_text(text: &str) -> (r: bool)
    ensures
        r == exists|k: int| 0 <= k < text@.len() && !is_ignorable_for_matching(#[trigger] text@[k]),
{
    let cs = crate::text::chars_of(text);
    let mut i: usize = 0;
    while i < cs.len()
        invariant
            i <= cs@.len(),
            cs@ == text@,
            forall|k: int| 0 <= k < i ==> is_ignorable_for_matching(#[trigger] text@[k]),
        decreases cs@.len() - i,
    {
        if !ignorable_for_font_matching(cs[i]) {
            assert(!is_ignorable_for_matching(text@[i as int]));
            return true;
        }
        i = i + 1;
    }
    false
}

/// A line without one trailing carriage return.
pub open spec fn without_carriage_return(line: Seq<char>) -> Seq<char> {
    if line.len() > 0 && line.last() == '\r' {
        line.drop_last()
    } else {
        line
    }
}

/// The lines of a text object: split at line feeds, each without a
/// trailing carriage return.
pub open spec fn text_lines_of(text: Seq<char>) -> Seq<Seq<char>> {
    stripped_lines(crate::settings::line_fields(text))
}

/// Each line without a trailing carriage return.
pub open spec fn stripped_lines(lines: Seq<Seq<char>>) -> Seq<Seq<char>>
    decreases lines.len(),
{
    if lines.len() == 0 {
        seq![]
    } else {
        stripped_lines(lines.drop_last()).push(without_carriage_return(lines.last()))
    }
}

fn strip_carriage_return(line: &Vec<char>) -> (r: String)
    ensures
        r@ == without_carriage_return(line@),
{
    if line.len() > 0 && line[line.len() - 1] == '\r' {
        let mut v: Vec<char> = Vec::new();
        let mut i: usize = 0;
        let end = line.len() - 1;
        while i < end
            invariant
                line@.len() > 0,
                end == line@.len() - 1,
                i <= end,
                v@ == line@.take(i as int),
            decreases line@.len() - i,
        {
            v.push(line[i]);
            i = i + 1;
            proof {
                assert(v@ =~= line@.take(i as int));
            }
        }
        proof {
            assert(v@ =~= line@.drop_last());
        }
        crate::text::string_of(v.as_slice())
    } else {
        crate::text::string_of(line.as_slice())
    }
}

/// The lines of a text object, as the rasterizer lays them out.
pub fn text_lines(text: &str) -> (r: Vec<String>)
    ensures
        family_texts(r@) == text_lines_of(text@),
{
    let cs = crate::text::chars_of(text);
    let mut done: Vec<String> = Vec::new();
    let mut current: Vec<char> = Vec::new();
    let mut i: usize = 0;
    while i < cs.len()
        invariant
            i <= cs@.len(),
            cs@ == text@,
            crate::settings::line_fields(cs@.take(i as int)).len() >= 1,
            family_texts(done@) == stripped_lines(
                crate::settings::line_fields(cs@.take(i as int)).drop_last(),
            ),
            current@ == crate::settings::line_fields(cs@.take(i as int)).last(),
        decreases cs@.len() - i,
    {
        let ghost fields = crate::settings::line_fields(cs@.take(i as int));
        let c = cs[i];
        proof {
            assert(cs@.take(i + 1).drop_last() =~= cs@.take(i as int));
            assert(cs@.take(i + 1).last() == c);
        }
        if c == '\n' {
            done.push(strip_carriage_return(&current));
            current = Vec::new();
            proof {
                let after = crate::settings::line_fields(cs@.take(i + 1));
                assert(after.drop_last() =~= fields);
                assert(family_texts(done@) =~= stripped_lines(after.drop_last()));
                assert(current@ =~= after.last());
            }
        } else {
            current.push(c);
            proof {
                let after = crate::settings::line_fields(cs@.take(i + 1));
                assert(after.drop_last() =~= fields.drop_last());
                assert(current@ =~= after.last());
            }
        }
        i = i + 1;
    }
    done.push(strip_carriage_return(&current));
    proof {
        let fields = crate::settings::line_fields(cs@.take(cs@.len() as int));
        assert(cs@.take(cs@.len() as int) =~= cs@);
        assert(fields =~= fields.drop_last().push(fields.last()));
        assert(family_texts(done@) =~= text_lines_of(text@));
    }
    done
}

/// The names are in strictly increasing order.
pub open spec fn strictly_sorted(names: Seq<Seq<char>>) -> bool {
    forall|a: int, b: int| 0 <= a < b < names.len() ==> text_less(names[a], names[b])
}

/// A family name offered by the font picker: the trimmed name of an
/// installed family, when it is not empty.
pub open spec fn offered_family(families: Seq<Seq<char>>, x: Seq<char>) -> bool {
    x.len() > 0 && exists|k: int| 0 <= k < families.len() && trimmed(#[trigger] families[k]) == x
}

fn insert_name(sorted: &mut Vec<String>, name: String)
    requires
        strictly_sorted(family_texts(old(sorted)@)),
    ensures
        strictly_sorted(family_texts(final(sorted)@)),
        forall|x: Seq<char>|
            family_texts(final(sorted)@).contains(x) <==> (family_texts(old(sorted)@).contains(x)
                || x == name@),
{
    let ghost before = family_texts(sorted@);
    let key = crate::text::chars_of(name.as_str());
    let mut j: usize = 0;
    let mut found = false;
    while j < sorted.len()
        invariant_except_break
            !found,
        invariant
            j <= sorted@.len(),
            sorted@ == old(sorted)@,
            before == family_texts(sorted@),
            strictly_sorted(before),
            key@ == name@,
            forall|k: int| 0 <= k < j ==> text_less(#[trigger] before[k], name@),
        ensures
            j <= sorted@.len(),
            sorted@ == old(sorted)@,
            before == family_texts(sorted@),
            forall|k: int| 0 <= k < j ==> text_less(#[trigger] before[k], name@),
            found ==> j < sorted@.len() && before[j as int] == name@,
            !found && j < sorted@.len() ==> text_less(name@, before[j as int]),
        decreases sorted@.len() - j,
    {
        let current = crate::text::chars_of(sorted[j].as_str());
        assert(before[j as int] == sorted@[j as int]@);
        match compare_text(current.as_slice(), key.as_slice()) {
            TextOrder::Before => {
                j = j + 1;
            },
            TextOrder::Same => {
                found = true;
                break;
            },
            TextOrder::After => {
                break;
            },
        }
    }
    if found {
        proof {
            assert forall|x: Seq<char>|
                family_texts(sorted@).contains(x) <==> (before.contains(x) || x == name@) by {
                if x == name@ {
                    assert(before[j as int] == x);
                }
            }
        }
        return;
    }
    sorted.insert(j, name);
    proof {
        let s = family_texts(sorted@);
        assert(s =~= before.take(j as int).push(key@) + before.skip(j as int));
        assert forall|a: int, b: int| 0 <= a < b < s.len() implies text_less(s[a], s[b]) by {
            if b < j {
                assert(s[a] == before[a] && s[b] == before[b]);
            } else if b == j {
                assert(s[a] == before[a]);
            } else if a < j {
                assert(s[a] == before[a] && s[b] == before[b - 1]);
                lemma_text_less_total(before[j as int], key@);
                if b - 1 > j {
                    lemma_text_less_transitive(key@, before[j as int], before[b - 1]);
                }
                lemma_text_less_transitive(before[a], key@, before[b - 1]);
            } else if a == j {
                assert(s[b] == before[b - 1]);
                if b - 1 > j {
                    lemma_text_less_transitive(key@, before[j as int], before[b - 1]);
                }
            } else {
                assert(s[a] == before[a - 1] && s[b] == before[b - 1]);
            }
        }
        assert forall|x: Seq<char>| s.contains(x) <==> (before.contains(x) || x == key@) by {
            if s.contains(x) {
                let k = choose|k: int| 0 <= k < s.len() && s[k] == x;
                if k < j {
                    assert(before[k] == x);
                } else if k > j {
                    assert(before[k - 1] == x);
                }
            }
            if before.contains(x) {
                let k = choose|k: int| 0 <= k < before.len() && before[k] == x;
                if k < j {
                    assert(s[k] == x);
                } else {
                    assert(s[k + 1] == x);
                }
            }
            if x == key@ {
                assert(s[j as int] == x);
            }
        }
    }
}

/// The font families the font picker offers: the installed family names
/// trimmed, without empty ones and duplicates, in `str` order.
pub fn font_family_names(families: &[String]) -> (r: Vec<String>)
    ensures
        strictly_sorted(family_texts(r@)),
        forall|x: Seq<char>| family_texts(r@).contains(x) <==> offered_family(family_texts(families@), x),
{
    let ghost all = family_texts(families@);
    let mut out: Vec<String> = Vec::new();
    let mut i: usize = 0;
    while i < families.len()
        invariant
            i <= families@.len(),
            all == family_texts(families@),
            strictly_sorted(family_texts(out@)),
            forall|x: Seq<char>|
                family_texts(out@).contains(x) <==> offered_family(all.take(i as int), x),
        decreases families@.len() - i,
    {
        let t = trim_str(families[i].as_str());
        let ghost prefix = all.take(i as int);
        let ghost next = all.take(i + 1);
        proof {
            assert(next[i as int] == families@[i as int]@);
            assert forall|k: int| 0 <= k < i implies next[k] == prefix[k] by {}
        }
        if t.len() > 0 {
            let name = crate::text::string_of(t.as_slice());
            insert_name(&mut out, name);
            proof {
                assert forall|x: Seq<char>|
                    family_texts(out@).contains(x) <==> offered_family(next, x) by {
                    if offered_family(prefix, x) {
                        let k = choose|k: int| 0 <= k < prefix.len() && trimmed(#[trigger] prefix[k]) == x;
                        assert(trimmed(next[k]) == x);
                    }
                    if offered_family(next, x) {
                        let k = choose|k: int| 0 <= k < next.len() && trimmed(#[trigger] next[k]) == x;
                        if k < i {
                            assert(trimmed(prefix[k]) == x);
                        }
                    }
                    if x == t@ {
                        assert(trimmed(next[i as int]) == x);
                    }
                }
            }
        } else {
            proof {
                assert forall|x: Seq<char>|
                    family_texts(out@).contains(x) <==> offered_family(next, x) by {
                    if offered_family(prefix, x) {
                        let k = choose|k: int| 0 <= k < prefix.len() && trimmed(#[trigger] prefix[k]) == x;
                        assert(trimmed(next[k]) == x);
                    }
                    if offered_family(next, x) {
                        let k = choose|k: int| 0 <= k < next.len() && trimmed(#[trigger] next[k]) == x;
                        if k < i {
                            assert(trimmed(prefix[k]) == x);
                        }
                    }
                }
            }
        }
        i = i + 1;
    }
    proof {
        assert(all.take(families@.len() as int) =~= all);
    }
    out
}

} // verus!
