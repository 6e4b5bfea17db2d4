//! Qt file-dialog filter texts such as
//! `Video Files (*.mp4 *.mov);;Images (*.png *.jpg)`.
use crate::text::{vec_views, char_is_whitespace, has_prefix, is_white_space, string_of, sub_chars, trim_chars, trimmed};
use vstd::prelude::*;

verus! {

/// The fields of `s` between `;;` separators, matched from the left as
/// `str::split(";;")` does.
pub open spec fn filter_fields(s: Seq<char>) -> Seq<Seq<char>>
    decreases s.len(),
{
    if s.len() == 0 {
        seq![Seq::empty()]
    } else if s.len() >= 2 && s[0] == ';' && s[1] == ';' {
        seq![Seq::empty()] + filter_fields(s.skip(2))
    } else {
        let rest = filter_fields(s.drop_first());
        rest.update(0, seq![s[0]] + rest[0])
    }
}

proof fn lemma_filter_fields_nonempty(s: Seq<char>)
    ensures
        filter_fields(s).len() >= 1,
    decreases s.len(),
{
    if s.len() >= 2 && s[0] == ';' && s[1] == ';' {
        lemma_filter_fields_nonempty(s.skip(2));
    } else if s.len() > 0 {
        lemma_filter_fields_nonempty(s.drop_first());
    }
}

/// The fields of `s` between single whitespace characters (possibly empty).
pub open spec fn space_fields(s: Seq<char>) -> Seq<Seq<char>>
    decreases s.len(),
{
    if s.len() == 0 {
        seq![Seq::empty()]
    } else if is_white_space(s[0]) {
        seq![Seq::empty()] + space_fields(s.drop_first())
    } else {
        let rest = space_fields(s.drop_first());
        rest.update(0, seq![s[0]] + rest[0])
    }
}

proof fn lemma_space_fields_nonempty(s: Seq<char>)
    ensures
        space_fields(s).len() >= 1,
    decreases s.len(),
{
    if s.len() > 0 {
        lemma_space_fields_nonempty(s.drop_first());
    }
}

/// The fields that are not empty.
pub open spec fn nonempty_fields(fields: Seq<Seq<char>>) -> Seq<Seq<char>>
    decreases fields.len(),
{
    if fields.len() == 0 {
        seq![]
    } else {
        let rest = nonempty_fields(fields.drop_last());
        if fields.last().len() == 0 {
            rest
        } else {
            rest.push(fields.last())
        }
    }
}

/// `str::split_whitespace`: the words of `s`.
pub open spec fn words(s: Seq<char>) -> Seq<Seq<char>> {
    nonempty_fields(space_fields(s))
}

/// The first position of `c` in `s`, at `from` or later.
pub open spec fn char_position(s: Seq<char>, c: char, from: int) -> Option<int>
    decreases s.len() - from,
{
    if from < 0 || from >= s.len() {
        None
    } else if s[from] == c {
        Some(from)
    } else {
        char_position(s, c, from + 1)
    }
}

/// The extension that a pattern selects: `*.ext` gives `ext`, `*` gives `*`.
pub open spec fn pattern_extension(pattern: Seq<char>) -> Option<Seq<char>> {
    let p = trimmed(pattern);
    if has_prefix(p, "*."@) {
        if p.skip(2).len() > 0 {
            Some(p.skip(2))
        } else {
            None
        }
    } else if p == "*"@ {
        Some("*"@)
    } else {
        None
    }
}

/// The extensions of the patterns that select one, in order.
pub open spec fn extensions(patterns: Seq<Seq<char>>) -> Seq<Seq<char>>
    decreases patterns.len(),
{
    if patterns.len() == 0 {
        seq![]
    } else {
        let rest = extensions(patterns.drop_last());
        match pattern_extension(patterns.last()) {
            Some(e) => rest.push(e),
            None => rest,
        }
    }
}

/// One filter `Name (patterns)`: its trimmed name and extensions, when it
/// has the parenthesised form and selects at least one extension.
pub open spec fn parsed_filter(field: Seq<char>) -> Option<(Seq<char>, Seq<Seq<char>>)> {
    let f = trimmed(field);
    match char_position(f, '(', 0) {
        None => None,
        Some(open) => {
            let inner = f.skip(open + 1);
            if inner.len() == 0 || inner.last() != ')' {
                None
            } else {
                let exts = extensions(words(inner.drop_last()));
                if exts.len() == 0 {
                    None
                } else {
                    Some((trimmed(f.take(open)), exts))
                }
            }
        },
    }
}

/// The filters that parse, in order.
pub open spec fn parsed_filters(fields: Seq<Seq<char>>) -> Seq<(Seq<char>, Seq<Seq<char>>)>
    decreases fields.len(),
{
    if fields.len() == 0 {
        seq![]
    } else {
        let rest = parsed_filters(fields.drop_last());
        match parsed_filter(fields.last()) {
            Some(f) => rest.push(f),
            None => rest,
        }
    }
}

/// The content of a parsed filter list.
pub open spec fn filter_views(v: Seq<(String, Vec<String>)>) -> Seq<(Seq<char>, Seq<Seq<char>>)> {
    v.map_values(|f: (String, Vec<String>)| (f.0@, f.1@.map_values(|e: String| e@)))
}

fn split_filter_fields(cs: &[char]) -> (fields: Vec<Vec<char>>)
    ensures
        vec_views(fields@) == filter_fields(cs@),
{
    let n = cs.len();
    let mut done: Vec<Vec<char>> = Vec::new();
    let mut current: Vec<char> = Vec::new();
    let mut i: usize = 0;
    proof {
        lemma_filter_fields_nonempty(cs@);
        assert(cs@.skip(0) =~= cs@);
        let r = filter_fields(cs@);
        assert(r =~= vec_views(done@) + seq![current@ + r[0]] + r.drop_first());
    }
    while i < n
        invariant
            n == cs@.len(),
            i <= n,
            filter_fields(cs@.skip(i as int)).len() >= 1,
            ({
                let r = filter_fields(cs@.skip(i as int));
                filter_fields(cs@) == vec_views(done@) + seq![current@ + r[0]]
                    + r.drop_first()
            }),
        decreases n - i,
    {
        let ghost s = cs@.skip(i as int);
        let ghost r = filter_fields(s);
        let ghost old_done = vec_views(done@);
        let ghost old_current = current@;
        if i + 1 < n && cs[i] == ';' && cs[i + 1] == ';' {
            done.push(current);
            current = Vec::new();
            proof {
                assert(s[0] == cs@[i as int] && s[1] == cs@[i + 1]);
                assert(s.skip(2) =~= cs@.skip(i + 2));
                lemma_filter_fields_nonempty(s.skip(2));
                let r2 = filter_fields(cs@.skip(i + 2));
                assert(r == seq![Seq::<char>::empty()] + r2);
                assert(r[0] =~= Seq::<char>::empty());
                assert(r.drop_first() =~= r2);
                assert(old_current + r[0] =~= old_current);
                assert(current@ + r2[0] =~= r2[0]);
                assert(r2 =~= seq![r2[0]] + r2.drop_first());
                assert(vec_views(done@) =~= old_done.push(old_current));
                assert(filter_fields(cs@) =~= vec_views(done@) + seq![
                    current@ + r2[0],
                ] + r2.drop_first());
            }
            i = i + 2;
        } else {
            current.push(cs[i]);
            proof {
                assert(s[0] == cs@[i as int]);
                assert(s.drop_first() =~= cs@.skip(i + 1));
                lemma_filter_fields_nonempty(s.drop_first());
                let r2 = filter_fields(cs@.skip(i + 1));
                assert(r == r2.update(0, seq![s[0]] + r2[0]));
                assert(vec_views(done@) == old_done);
                assert(r[0] == seq![s[0]] + r2[0]);
                assert(r.drop_first() =~= r2.drop_first());
                assert(old_current + r[0] =~= current@ + r2[0]);
                assert(seq![old_current + r[0]] =~= seq![current@ + r2[0]]);
                assert(filter_fields(cs@) =~= vec_views(done@) + seq![
                    current@ + r2[0],
                ] + r2.drop_first());
            }
            i = i + 1;
        }
    }
    proof {
        assert(cs@.skip(n as int) =~= Seq::<char>::empty());
    }
    done.push(current);
    proof {
        assert(filter_fields(cs@) =~= vec_views(done@));
    }
    done
}

fn split_words(cs: &[char]) -> (ws: Vec<Vec<char>>)
    ensures
        vec_views(ws@) == words(cs@),
{
    let n = cs.len();
    let mut done: Vec<Vec<char>> = Vec::new();
    let mut current: Vec<char> = Vec::new();
    let mut i: usize = 0;
    proof {
        lemma_space_fields_nonempty(cs@);
        assert(cs@.skip(0) =~= cs@);
    }
    // Fields are split first and the empty ones dropped as they end.
    let ghost mut fields: Seq<Seq<char>> = Seq::empty();
    proof {
        let r = space_fields(cs@);
        assert(r =~= fields + seq![current@ + r[0]] + r.drop_first());
    }
    while i < n
        invariant
            n == cs@.len(),
            i <= n,
            space_fields(cs@.skip(i as int)).len() >= 1,
            ({
                let r = space_fields(cs@.skip(i as int));
                space_fields(cs@) == fields + seq![current@ + r[0]] + r.drop_first()
            }),
            vec_views(done@) == nonempty_fields(fields),
        decreases n - i,
    {
        let ghost s = cs@.skip(i as int);
        let ghost r = space_fields(s);
        proof {
            assert(s[0] == cs@[i as int]);
            assert(s.drop_first() =~= cs@.skip(i + 1));
            lemma_space_fields_nonempty(s.drop_first());
        }
        if char_is_whitespace(cs[i]) {
            let ghost old_fields = fields;
            let ghost old_current = current@;
            if current.len() > 0 {
                done.push(current);
            }
            current = Vec::new();
            proof {
                fields = old_fields.push(old_current);
                assert(fields.drop_last() =~= old_fields);
                let r2 = space_fields(cs@.skip(i + 1));
                assert(r == seq![Seq::<char>::empty()] + r2);
                assert(r[0] =~= Seq::<char>::empty());
                assert(r.drop_first() =~= r2);
                assert(old_current + r[0] =~= old_current);
                assert(current@ + r2[0] =~= r2[0]);
                assert(r2 =~= seq![r2[0]] + r2.drop_first());
                assert(space_fields(cs@) == old_fields + seq![old_current + r[0]] + r.drop_first());
                assert(seq![old_current + r[0]] =~= seq![old_current]);
                assert(space_fields(cs@) =~= old_fields + seq![old_current] + r2);
                assert(current@ + r2[0] =~= r2[0]);
                let a = fields + seq![r2[0]] + r2.drop_first();
                assert(a =~= old_fields + seq![old_current] + r2);
                assert(fields + seq![current@ + r2[0]] + r2.drop_first() == a);
                assert(vec_views(done@) =~= nonempty_fields(fields));
            }
        } else {
            let ghost old_current = current@;
            current.push(cs[i]);
            proof {
                let r2 = space_fields(cs@.skip(i + 1));
                assert(r == r2.update(0, seq![s[0]] + r2[0]));
                assert(r[0] == seq![s[0]] + r2[0]);
                assert(r.drop_first() =~= r2.drop_first());
                assert(old_current + r[0] =~= current@ + r2[0]);
                assert(space_fields(cs@) == fields + seq![old_current + r[0]] + r.drop_first());
                assert(seq![old_current + r[0]] =~= seq![current@ + r2[0]]);
                assert(space_fields(cs@) =~= fields + seq![current@ + r2[0]] + r2.drop_first());
            }
        }
        i = i + 1;
    }
    proof {
        assert(cs@.skip(n as int) =~= Seq::<char>::empty());
        let all = fields.push(current@);
        assert(space_fields(cs@) =~= all);
        assert(all.drop_last() =~= fields);
    }
    if current.len() > 0 {
        done.push(current);
    }
    proof {
        let all = fields.push(current@);
        assert(vec_views(done@) =~= nonempty_fields(all));
    }
    done
}

fn find_char(cs: &[char], c: char) -> (r: Option<usize>)
    ensures
        r matches Some(i) ==> char_position(cs@, c, 0) == Some(i as int) && i < cs@.len(),
        r is None ==> char_position(cs@, c, 0) is None,
{
    let mut i: usize = 0;
    while i < cs.len()
        invariant
            i <= cs@.len(),
            char_position(cs@, c, 0) == char_position(cs@, c, i as int),
        decreases cs@.len() - i,
    {
        if cs[i] == c {
            return Some(i);
        }
        i = i + 1;
    }
    None
}

fn extension_of(pattern: &[char]) -> (r: Option<Vec<char>>)
    ensures
        r matches Some(e) ==> pattern_extension(pattern@) == Some(e@),
        r is None ==> pattern_extension(pattern@) is None,
{
    let p = trim_chars(pattern);
    let star_dot = ['*', '.'];
    let star = ['*'];
    proof {
        reveal_strlit("*.");
        reveal_strlit("*");
        assert(star_dot@ =~= "*."@);
        assert(star@ =~= "*"@);
    }
    if crate::text::chars_start_with(p.as_slice(), &star_dot) {
        let e = sub_chars(p.as_slice(), 2, p.len());
        assert(e@ =~= p@.skip(2));
        if e.len() > 0 {
            Some(e)
        } else {
            None
        }
    } else if crate::text::chars_eq(p.as_slice(), &star) {
        Some(sub_chars(&star, 0, 1))
    } else {
        None
    }
}

fn parse_filter(field: &[char]) -> (r: Option<(String, Vec<String>)>)
    ensures
        r matches Some(f) ==> parsed_filter(field@) == Some(
            (f.0@, f.1@.map_values(|e: String| e@)),
        ),
        r is None ==> parsed_filter(field@) is None,
{
    let f = trim_chars(field);
    let found = find_char(f.as_slice(), '(');
    if found.is_none() {
        return None;
    }
    let open = found.unwrap();
    let len = f.len();
    assert(open < len);
    let inner = sub_chars(f.as_slice(), open + 1, len);
    assert(inner@ =~= f@.skip(open + 1));
    if inner.len() == 0 || inner[inner.len() - 1] != ')' {
        return None;
    }
    let body = sub_chars(inner.as_slice(), 0, inner.len() - 1);
    assert(body@ =~= inner@.drop_last());
    let patterns = split_words(body.as_slice());
    let ghost pattern_views = vec_views(patterns@);
    let mut exts: Vec<String> = Vec::new();
    let mut i: usize = 0;
    while i < patterns.len()
        invariant
            i <= patterns@.len(),
            pattern_views == vec_views(patterns@),
            exts@.map_values(|e: String| e@) == extensions(pattern_views.take(i as int)),
        decreases patterns@.len() - i,
    {
        proof {
            assert(pattern_views.take(i + 1).drop_last() =~= pattern_views.take(i as int));
            assert(pattern_views.take(i + 1).last() == patterns@[i as int]@);
        }
        match extension_of(patterns[i].as_slice()) {
            Some(e) => {
                exts.push(string_of(e.as_slice()));
                proof {
                    assert(exts@.map_values(|e: String| e@) =~= extensions(
                        pattern_views.take(i + 1),
                    ));
                }
            },
            None => {},
        }
        i = i + 1;
    }
    assert(pattern_views.take(patterns@.len() as int) =~= pattern_views);
    if exts.len() == 0 {
        return None;
    }
    let name = sub_chars(f.as_slice(), 0, open);
    assert(name@ =~= f@.take(open as int));
    let name = trim_chars(name.as_slice());
    Some((string_of(name.as_slice()), exts))
}

/// Reads a Qt filter text into `(name, extensions)` pairs. Filters are
/// separated by `;;`; each has the form `Name (pattern …)` where a pattern
/// `*.ext` selects `ext` and `*` selects everything. Filters without the
/// parenthesised form or without any extension are dropped.
pub fn qt_file_filters(value: &str) -> (r: Vec<(String, Vec<String>)>)
    ensures
        filter_views(r@) == parsed_filters(filter_fields(value@)),
{
    let cs = crate::text::chars_of(value);
    let fields = split_filter_fields(cs.as_slice());
    let ghost field_views = vec_views(fields@);
    let mut out: Vec<(String, Vec<String>)> = Vec::new();
    let mut i: usize = 0;
    while i < fields.len()
        invariant
            i <= fields@.len(),
            field_views == vec_views(fields@),
            field_views == filter_fields(cs@),
            filter_views(out@) == parsed_filters(field_views.take(i as int)),
        decreases fields@.len() - i,
    {
        proof {
            assert(field_views.take(i + 1).drop_last() =~= field_views.take(i as int));
            assert(field_views.take(i + 1).last() == fields@[i as int]@);
        }
        match parse_filter(fields[i].as_slice()) {
            Some(f) => {
                out.push(f);
                proof {
                    assert(filter_views(out@) =~= parsed_filters(field_views.take(i + 1)));
                }
            },
            None => {},
        }
        i = i + 1;
    }
    assert(field_views.take(fields@.len() as int) =~= field_views);
    out
}

} // verus!
