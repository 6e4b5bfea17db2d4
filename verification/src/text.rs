//! Character-level text helpers shared by the parsers: the whitespace and
//! control classes, trimming, ASCII and Unicode lowercasing, prefix and
//! substring tests, and decimal integer text.
use vstd::prelude::*;

verus! {

// ---------------------------------------------------------------------------
// Character classes
// ---------------------------------------------------------------------------

/// The Unicode `White_Space` code points, which `char::is_whitespace` tests.
pub open spec fn is_white_space(c: char) -> bool {
    let u = c as u32;
    (0x9 <= u && u <= 0xd) || u == 0x20 || u == 0x85 || u == 0xa0 || u == 0x1680 || (0x2000 <= u
        && u <= 0x200a) || u == 0x2028 || u == 0x2029 || u == 0x202f || u == 0x205f || u == 0x3000
}

/// General category `Cc`, which `char::is_control` tests.
pub open spec fn is_control_char(c: char) -> bool {
    let u = c as u32;
    u <= 0x1f || (0x7f <= u && u <= 0x9f)
}

/// An ASCII decimal digit.
pub open spec fn is_digit_char(c: char) -> bool {
    0x30 <= (c as u32) && (c as u32) <= 0x39
}

/// Whether `c` is whitespace, as `char::is_whitespace` decides it: one of
/// the `White_Space` code points.
pub(crate) fn char_is_whitespace(c: char) -> (r: bool)
    ensures
        r == is_white_space(c),
{
    let u = c as u32;
    (0x9 <= u && u <= 0xd) || u == 0x20 || u == 0x85 || u == 0xa0 || u == 0x1680 || (0x2000 <= u
        && u <= 0x200a) || u == 0x2028 || u == 0x2029 || u == 0x202f || u == 0x205f || u == 0x3000
}

/// Whether `c` is a control character, as `char::is_control` decides it:
/// general category `Cc`.
pub(crate) fn char_is_control(c: char) -> (r: bool)
    ensures
        r == is_control_char(c),
{
    let u = c as u32;
    u <= 0x1f || (0x7f <= u && u <= 0x9f)
}

// ---------------------------------------------------------------------------
// Conversions between text and characters
// ---------------------------------------------------------------------------

/// The characters of `s` in order.
pub(crate) fn chars_of(s: &str) -> (v: Vec<char>)
    ensures
        v@ == s@,
{
    let n = s.unicode_len();
    let mut v: Vec<char> = Vec::new();
    let mut i: usize = 0;
    while i < n
        invariant
            n == s@.len(),
            i <= n,
            v@ == s@.subrange(0, i as int),
        decreases n - i,
    {
        v.push(s.get_char(i));
        i = i + 1;
    }
    assert(v@ =~= s@);
    v
}

/// `String: FromIterator<char>`: the string made of `cs` in order.
#[verifier::external_body]
pub(crate) fn string_of(cs: &[char]) -> (s: String)
    ensures
        s@ == cs@,
{
    cs.iter().collect()
}

/// Whether the two texts are the same characters.
pub(crate) fn str_eq(a: &str, b: &str) -> (r: bool)
    ensures
        r == (a@ == b@),
{
    let x = chars_of(a);
    let y = chars_of(b);
    chars_eq(x.as_slice(), y.as_slice())
}

/// The characters held by each vector.
pub open spec fn vec_views(v: Seq<Vec<char>>) -> Seq<Seq<char>> {
    v.map_values(|x: Vec<char>| x@)
}

/// Equality of two character slices.
pub fn chars_eq(a: &[char], b: &[char]) -> (r: bool)
    ensures
        r == (a@ == b@),
{
    if a.len() != b.len() {
        return false;
    }
    let mut i: usize = 0;
    while i < a.len()
        invariant
            a@.len() == b@.len(),
            i <= a@.len(),
            forall|k: int| 0 <= k < i ==> a@[k] == b@[k],
        decreases a@.len() - i,
    {
        if a[i] != b[i] {
            return false;
        }
        i = i + 1;
    }
    assert(a@ =~= b@);
    true
}

/// Whether the characters `cs` spell the text `s`.
pub fn chars_equal_str(cs: &[char], s: &str) -> (r: bool)
    ensures
        r == (cs@ == s@),
{
    let t = chars_of(s);
    chars_eq(cs, t.as_slice())
}

/// The characters `cs[from..to]` as a new vector.
pub fn sub_chars(cs: &[char], from: usize, to: usize) -> (v: Vec<char>)
    requires
        from <= to <= cs@.len(),
    ensures
        v@ == cs@.subrange(from as int, to as int),
{
    let mut v: Vec<char> = Vec::new();
    let mut i = from;
    while i < to
        invariant
            from <= i <= to,
            to <= cs@.len(),
            v@ == cs@.subrange(from as int, i as int),
        decreases to - i,
    {
        v.push(cs[i]);
        i = i + 1;
        assert(v@ =~= cs@.subrange(from as int, i as int));
    }
    v
}

// ---------------------------------------------------------------------------
// Trimming
// ---------------------------------------------------------------------------

/// `s` without its leading whitespace.
pub open spec fn trim_start(s: Seq<char>) -> Seq<char>
    decreases s.len(),
{
    if s.len() > 0 && is_white_space(s[0]) {
        trim_start(s.drop_first())
    } else {
        s
    }
}

/// `s` without its trailing whitespace.
pub open spec fn trim_end(s: Seq<char>) -> Seq<char>
    decreases s.len(),
{
    if s.len() > 0 && is_white_space(s.last()) {
        trim_end(s.drop_last())
    } else {
        s
    }
}

/// `str::trim`: `s` without leading and trailing whitespace.
pub open spec fn trimmed(s: Seq<char>) -> Seq<char> {
    trim_end(trim_start(s))
}

proof fn lemma_trim_start_skip(s: Seq<char>, i: int)
    requires
        0 <= i <= s.len(),
        forall|k: int| 0 <= k < i ==> is_white_space(#[trigger] s[k]),
        i == s.len() || !is_white_space(s[i]),
    ensures
        trim_start(s) == s.skip(i),
    decreases i,
{
    if i == 0 {
        assert(s.skip(0) =~= s);
    } else {
        let t = s.drop_first();
        assert forall|k: int| 0 <= k < i - 1 implies is_white_space(#[trigger] t[k]) by {
            assert(t[k] == s[k + 1]);
        }
        if i - 1 < t.len() {
            assert(t[i - 1] == s[i]);
        }
        lemma_trim_start_skip(t, i - 1);
        assert(t.skip(i - 1) =~= s.skip(i));
    }
}

proof fn lemma_trim_end_take(s: Seq<char>, j: int)
    requires
        0 <= j <= s.len(),
        forall|k: int| j <= k < s.len() ==> is_white_space(#[trigger] s[k]),
        j == 0 || !is_white_space(s[j - 1]),
    ensures
        trim_end(s) == s.take(j),
    decreases s.len() - j,
{
    if j == s.len() {
        assert(s.take(j) =~= s);
    } else {
        let t = s.drop_last();
        assert forall|k: int| j <= k < t.len() implies is_white_space(#[trigger] t[k]) by {
            assert(t[k] == s[k]);
        }
        if j > 0 {
            assert(t[j - 1] == s[j - 1]);
        }
        assert(is_white_space(s.last()));
        lemma_trim_end_take(t, j);
        assert(t.take(j) =~= s.take(j));
    }
}

/// The bounds of the trimmed part of `cs`.
pub fn trim_bounds(cs: &[char]) -> (r: (usize, usize))
    ensures
        r.0 <= r.1 <= cs@.len(),
        trimmed(cs@) == cs@.subrange(r.0 as int, r.1 as int),
{
    let n = cs.len();
    let mut i: usize = 0;
    while i < n && char_is_whitespace(cs[i])
        invariant
            n == cs@.len(),
            i <= n,
            forall|k: int| 0 <= k < i ==> is_white_space(#[trigger] cs@[k]),
        decreases n - i,
    {
        i = i + 1;
    }
    let mut j: usize = n;
    while j > i && char_is_whitespace(cs[j - 1])
        invariant
            n == cs@.len(),
            i <= j <= n,
            forall|k: int| j <= k < n ==> is_white_space(#[trigger] cs@[k]),
        decreases j,
    {
        j = j - 1;
    }
    proof {
        lemma_trim_start_skip(cs@, i as int);
        let t = cs@.skip(i as int);
        assert forall|k: int| (j - i) <= k < t.len() implies is_white_space(#[trigger] t[k]) by {
            assert(t[k] == cs@[k + i]);
        }
        if j > i {
            assert(t[j - i - 1] == cs@[j - 1]);
        }
        lemma_trim_end_take(t, (j - i) as int);
        assert(t.take((j - i) as int) =~= cs@.subrange(i as int, j as int));
    }
    (i, j)
}

/// The characters of `cs` without leading and trailing whitespace.
pub fn trim_chars(cs: &[char]) -> (v: Vec<char>)
    ensures
        v@ == trimmed(cs@),
{
    let (i, j) = trim_bounds(cs);
    sub_chars(cs, i, j)
}

/// The characters of `s` without leading and trailing whitespace.
pub fn trim_str(s: &str) -> (v: Vec<char>)
    ensures
        v@ == trimmed(s@),
{
    let cs = chars_of(s);
    trim_chars(cs.as_slice())
}

/// True when `s` holds only whitespace (or nothing).
pub open spec fn is_blank(s: Seq<char>) -> bool {
    forall|k: int| 0 <= k < s.len() ==> is_white_space(#[trigger] s[k])
}

proof fn lemma_trimmed_empty_iff_blank(s: Seq<char>)
    ensures
        (trimmed(s).len() == 0) == is_blank(s),
    decreases s.len(),
{
    if s.len() > 0 && is_white_space(s[0]) {
        let t = s.drop_first();
        lemma_trimmed_empty_iff_blank(t);
        if is_blank(t) {
            assert forall|k: int| 0 <= k < s.len() implies is_white_space(#[trigger] s[k]) by {
                if k > 0 {
                    assert(s[k] == t[k - 1]);
                }
            }
        }
        if is_blank(s) {
            assert forall|k: int| 0 <= k < t.len() implies is_white_space(#[trigger] t[k]) by {
                assert(t[k] == s[k + 1]);
            }
        }
    } else if s.len() > 0 {
        lemma_trim_end_keeps_first(s);
    }
}

proof fn lemma_trim_end_keeps_first(s: Seq<char>)
    requires
        s.len() > 0,
        !is_white_space(s[0]),
    ensures
        trim_end(s).len() > 0,
    decreases s.len(),
{
    if is_white_space(s.last()) {
        let t = s.drop_last();
        assert(t.len() > 0);
        assert(t[0] == s[0]);
        lemma_trim_end_keeps_first(t);
    }
}

/// True when `s` is empty or holds only whitespace, as `s.trim().is_empty()`.
pub fn is_blank_str(s: &str) -> (r: bool)
    ensures
        r == is_blank(s@),
        r == (trimmed(s@).len() == 0),
{
    let cs = chars_of(s);
    let (i, j) = trim_bounds(cs.as_slice());
    proof {
        lemma_trimmed_empty_iff_blank(s@);
    }
    i == j
}

// ---------------------------------------------------------------------------
// Case
// ---------------------------------------------------------------------------

/// `char::to_ascii_lowercase`.
pub open spec fn ascii_lower(c: char) -> char {
    if 0x41 <= (c as u32) && (c as u32) <= 0x5a {
        ((c as u32) + 32) as char
    } else {
        c
    }
}

/// `str::to_ascii_lowercase`, as a character sequence.
pub open spec fn ascii_lowercase(s: Seq<char>) -> Seq<char> {
    s.map_values(|c: char| ascii_lower(c))
}

/// The ASCII lowercase form of `c`.
pub fn char_ascii_lower(c: char) -> (r: char)
    ensures
        r == ascii_lower(c),
{
    if 'A' <= c && c <= 'Z' {
        let b: u8 = (c as u8) + 32;
        b as char
    } else {
        c
    }
}

/// The ASCII lowercase form of every character of `cs`.
pub fn ascii_lowercase_chars(cs: &[char]) -> (v: Vec<char>)
    ensures
        v@ == ascii_lowercase(cs@),
{
    let mut v: Vec<char> = Vec::new();
    let mut i: usize = 0;
    while i < cs.len()
        invariant
            i <= cs@.len(),
            v@ == ascii_lowercase(cs@.take(i as int)),
        decreases cs@.len() - i,
    {
        v.push(char_ascii_lower(cs[i]));
        i = i + 1;
        assert(ascii_lowercase(cs@.take(i as int)) =~= ascii_lowercase(cs@.take(i - 1)).push(
            ascii_lower(cs@[i - 1]),
        ));
    }
    assert(cs@.take(cs@.len() as int) =~= cs@);
    v
}

/// The Unicode lowercase mapping of a whole text, as `str::to_lowercase`
/// computes it (including the context-dependent final sigma).
pub uninterp spec fn unicode_lowercase(s: Seq<char>) -> Seq<char>;

/// The Unicode lowercase mapping of one character, as `char::to_lowercase`
/// yields it (one to three characters).
pub uninterp spec fn unicode_char_lowercase(c: char) -> Seq<char>;

/// An ASCII character, or one of the private use area `U+E000`–`U+F8FF`.
pub open spec fn ascii_or_private(c: char) -> bool {
    let u = c as u32;
    u < 0x80 || (0xE000 <= u && u <= 0xF8FF)
}

/// `str::to_lowercase` applied to the text made of `cs`; the result is
/// named `unicode_lowercase(cs@)`, a function of the characters alone. Of
/// its value one fact is stated: on a text made only of ASCII and private
/// use characters it is the ASCII lowercase form (`A`–`Z` become `a`–`z`,
/// every other such character has no lowercase mapping and stays, as
/// `char::to_lowercase` documents; the final-sigma rule touches none of
/// them).
#[verifier::external_body]
pub(crate) fn lowercase_chars(cs: &[char]) -> (v: Vec<char>)
    ensures
        v@ == unicode_lowercase(cs@),
        (forall|k: int| 0 <= k < cs@.len() ==> ascii_or_private(#[trigger] cs@[k])) ==> v@
            == ascii_lowercase(cs@),
{
    let text: String = cs.iter().collect();
    text.to_lowercase().chars().collect()
}

/// The Unicode uppercase mapping of a whole text, as `str::to_uppercase`
/// computes it.
pub uninterp spec fn unicode_uppercase(s: Seq<char>) -> Seq<char>;

/// `char::to_ascii_uppercase`.
pub open spec fn ascii_upper(c: char) -> char {
    if 0x61 <= (c as u32) && (c as u32) <= 0x7a {
        ((c as u32) - 32) as char
    } else {
        c
    }
}

/// `str::to_ascii_uppercase`, as a character sequence.
pub open spec fn ascii_uppercase(s: Seq<char>) -> Seq<char> {
    s.map_values(|c: char| ascii_upper(c))
}

/// `str::to_uppercase` applied to the text made of `cs`; the result is
/// named `unicode_uppercase(cs@)`, a function of the characters alone. Of
/// its value one fact is stated: on a text made only of ASCII and private
/// use characters it is the ASCII uppercase form (`a`–`z` become `A`–`Z`,
/// every other such character has no uppercase mapping and stays, as
/// `char::to_uppercase` documents).
#[verifier::external_body]
pub(crate) fn uppercase_chars(cs: &[char]) -> (v: Vec<char>)
    ensures
        v@ == unicode_uppercase(cs@),
        (forall|k: int| 0 <= k < cs@.len() ==> ascii_or_private(#[trigger] cs@[k])) ==> v@
            == ascii_uppercase(cs@),
{
    let text: String = cs.iter().collect();
    text.to_uppercase().chars().collect()
}

/// `char::to_lowercase` collected into a vector; the result is named
/// `unicode_char_lowercase(c)`, a function of `c` alone. For an ASCII or
/// private use character it is the ASCII lowercase form, as for
/// `lowercase_chars`.
#[verifier::external_body]
pub(crate) fn char_lowercase(c: char) -> (v: Vec<char>)
    ensures
        v@ == unicode_char_lowercase(c),
        ascii_or_private(c) ==> v@ == seq![ascii_lower(c)],
{
    c.to_lowercase().collect()
}

// ---------------------------------------------------------------------------
// Prefixes and substrings
// ---------------------------------------------------------------------------

/// `prefix` is a prefix of `s`.
pub open spec fn has_prefix(s: Seq<char>, prefix: Seq<char>) -> bool {
    prefix.len() <= s.len() && s.take(prefix.len() as int) == prefix
}

/// `needle` occurs in `s` as a contiguous run.
pub open spec fn has_substring(s: Seq<char>, needle: Seq<char>) -> bool {
    exists|i: int|
        0 <= i && i + needle.len() <= s.len() && #[trigger] s.subrange(i, i + needle.len())
            == needle
}

/// Whether `cs` holds `needle` at offset `at`.
pub fn chars_match_at(cs: &[char], at: usize, needle: &[char]) -> (r: bool)
    requires
        at <= cs@.len(),
    ensures
        r == (at + needle@.len() <= cs@.len() && cs@.subrange(
            at as int,
            at + needle@.len(),
        ) == needle@),
{
    if needle.len() > cs.len() - at {
        return false;
    }
    let mut k: usize = 0;
    while k < needle.len()
        invariant
            at + needle@.len() <= cs@.len(),
            cs@.len() == cs.len(),
            k <= needle@.len(),
            forall|m: int| 0 <= m < k ==> cs@[at + m] == needle@[m],
        decreases needle@.len() - k,
    {
        if cs[at + k] != needle[k] {
            assert(cs@.subrange(at as int, at + needle@.len())[k as int] != needle@[k as int]);
            return false;
        }
        k = k + 1;
    }
    assert(cs@.subrange(at as int, at + needle@.len()) =~= needle@);
    true
}

/// Whether `prefix` starts `cs`.
pub fn chars_start_with(cs: &[char], prefix: &[char]) -> (r: bool)
    ensures
        r == has_prefix(cs@, prefix@),
{
    let r = chars_match_at(cs, 0, prefix);
    assert(cs@.take(prefix@.len() as int) =~= cs@.subrange(0, prefix@.len() as int));
    r
}

/// Whether `needle` occurs anywhere in `cs`.
pub fn chars_contain(cs: &[char], needle: &[char]) -> (r: bool)
    ensures
        r == has_substring(cs@, needle@),
{
    if needle.len() > cs.len() {
        return false;
    }
    let last = cs.len() - needle.len();
    let mut i: usize = 0;
    while i < last
        invariant
            last + needle@.len() == cs@.len(),
            i <= last,
            forall|p: int|
                0 <= p < i ==> #[trigger] cs@.subrange(p, p + needle@.len()) != needle@,
        decreases last - i,
    {
        if chars_match_at(cs, i, needle) {
            return true;
        }
        i = i + 1;
    }
    chars_match_at(cs, last, needle)
}

// ---------------------------------------------------------------------------
// Decimal integers
// ---------------------------------------------------------------------------

/// The ASCII digit for `d` in `0..10`.
pub open spec fn digit_char(d: int) -> char {
    (48 + d) as char
}

/// The decimal digits of `n`, without leading zeros.
pub open spec fn decimal_digits(n: nat) -> Seq<char>
    decreases n,
{
    if n < 10 {
        seq![digit_char(n as int)]
    } else {
        decimal_digits(n / 10).push(digit_char((n % 10) as int))
    }
}

/// `v.to_string()` for an integer `v`: its decimal digits with a leading
/// `-` when it is negative.
pub open spec fn decimal_text(v: int) -> Seq<char> {
    if v < 0 {
        seq!['-'] + decimal_digits((-v) as nat)
    } else {
        decimal_digits(v as nat)
    }
}

fn decimal_digit_chars(n: u64) -> (v: Vec<char>)
    ensures
        v@ == decimal_digits(n as nat),
    decreases n,
{
    let last = ((48 + n % 10) as u8) as char;
    assert(last == digit_char((n % 10) as int));
    if n < 10 {
        let mut v: Vec<char> = Vec::new();
        v.push(last);
        assert(v@ =~= seq![digit_char(n as int)]);
        v
    } else {
        let mut v = decimal_digit_chars(n / 10);
        v.push(last);
        v
    }
}

/// The decimal text of `v`, as `i64::to_string` writes it: its digits,
/// with a leading `-` when it is negative.
pub(crate) fn i64_text(v: i64) -> (s: String)
    ensures
        s@ == decimal_text(v as int),
{
    if v < 0 {
        let magnitude: u64 = if v == i64::MIN {
            0x8000_0000_0000_0000
        } else {
            (-v) as u64
        };
        let mut digits = decimal_digit_chars(magnitude);
        let mut cs: Vec<char> = Vec::new();
        cs.push('-');
        cs.append(&mut digits);
        assert(cs@ =~= seq!['-'] + decimal_digits((-(v as int)) as nat));
        string_of(cs.as_slice())
    } else {
        let digits = decimal_digit_chars(v as u64);
        string_of(digits.as_slice())
    }
}

/// The value of a run of ASCII decimal digits.
pub open spec fn digits_value(s: Seq<char>) -> int
    decreases s.len(),
{
    if s.len() == 0 {
        0
    } else {
        digits_value(s.drop_last()) * 10 + ((s.last() as u32) - 48)
    }
}

/// Every character of `s` is an ASCII digit.
pub open spec fn all_digits(s: Seq<char>) -> bool {
    forall|k: int| 0 <= k < s.len() ==> is_digit_char(#[trigger] s[k])
}

/// What the `FromStr` of an integer type reads from `s` before its range
/// check: an optional `+` (or `-` when `signed`), then at least one ASCII
/// digit and nothing else. `None` for any other text.
pub open spec fn integer_text_value(s: Seq<char>, signed: bool) -> Option<int> {
    if s.len() == 0 {
        None
    } else {
        let negative = signed && s[0] == '-';
        let digits = if s[0] == '+' || negative {
            s.drop_first()
        } else {
            s
        };
        if digits.len() == 0 || !all_digits(digits) {
            None
        } else if negative {
            Some(-digits_value(digits))
        } else {
            Some(digits_value(digits))
        }
    }
}

/// `i32::from_str` on `s`: the value when the text is an integer in range.
pub open spec fn i32_text_value(s: Seq<char>) -> Option<i32> {
    match integer_text_value(s, true) {
        Some(v) => if i32::MIN <= v && v <= i32::MAX {
            Some(v as i32)
        } else {
            None
        },
        None => None,
    }
}

/// `u64::from_str` on `s`: the value when the text is an integer in range.
pub open spec fn u64_text_value(s: Seq<char>) -> Option<u64> {
    match integer_text_value(s, false) {
        Some(v) => if 0 <= v && v <= u64::MAX {
            Some(v as u64)
        } else {
            None
        },
        None => None,
    }
}

/// `str::parse::<i32>`: `Some` exactly when `s` is the text of an `i32`.
#[verifier::external_body]
pub(crate) fn parse_i32_text(s: &str) -> (r: Option<i32>)
    ensures
        r == i32_text_value(s@),
{
    s.parse::<i32>().ok()
}

/// `str::parse::<u64>`: `Some` exactly when `s` is the text of a `u64`.
#[verifier::external_body]
pub(crate) fn parse_u64_text(s: &str) -> (r: Option<u64>)
    ensures
        r == u64_text_value(s@),
{
    s.parse::<u64>().ok()
}

} // verus!
