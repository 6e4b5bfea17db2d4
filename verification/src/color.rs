//! Qt colour text (`#rgb`, `#argb`, `#rrggbb`, `#aarrggbb`) as the parameter
//! pickers read and write it.
use crate::text::{chars_of, string_of, sub_chars, trim_str, trimmed, trim_start, trim_end, is_white_space};
use vstd::prelude::*;

verus! {

/// The value of an ASCII hexadecimal digit, as `char::to_digit(16)`.
pub open spec fn hex_digit_value(c: char) -> Option<u8> {
    let u = c as u32;
    if 0x30 <= u && u <= 0x39 {
        Some((u - 0x30) as u8)
    } else if 0x61 <= u && u <= 0x66 {
        Some((u - 0x61 + 10) as u8)
    } else if 0x41 <= u && u <= 0x46 {
        Some((u - 0x41 + 10) as u8)
    } else {
        None
    }
}

/// The value that `u8::from_str_radix(_, 16)` reads from two characters:
/// two hex digits, or `+` followed by one.
pub open spec fn hex_pair_value(c0: char, c1: char) -> Option<u8> {
    if c0 == '+' {
        hex_digit_value(c1)
    } else {
        match (hex_digit_value(c0), hex_digit_value(c1)) {
            (Some(high), Some(low)) => Some((high * 16 + low) as u8),
            _ => None,
        }
    }
}

/// Every character of `s` is ASCII.
pub open spec fn all_ascii(s: Seq<char>) -> bool {
    forall|k: int| 0 <= k < s.len() ==> (#[trigger] s[k] as u32) < 128
}

/// The bytes read from consecutive pairs of characters of `s` (a trailing
/// odd character is ignored); `None` when a pair is not a hex byte.
pub open spec fn hex_pairs(s: Seq<char>) -> Option<Seq<u8>> {
    if all_ascii(s) && forall|i: int|
        0 <= i < s.len() / 2 ==> #[trigger] hex_pair_value(s[2 * i], s[2 * i + 1]) is Some {
        Some(Seq::new((s.len() / 2) as nat, |i: int| hex_pair_value(s[2 * i], s[2 * i + 1])->0))
    } else {
        None
    }
}

/// Opaque white, the colour of any text that is not a Qt colour.
pub open spec fn white() -> Seq<u8> {
    seq![255u8, 255u8, 255u8, 255u8]
}

/// A short-form channel: one hex digit `d` stands for `d * 17`.
pub open spec fn short_channel(c: char) -> u8 {
    ((hex_digit_value(c)->0) * 17) as u8
}

/// The ARGB channels that a colour text denotes.
pub open spec fn qt_color_channels(value: Seq<char>) -> Seq<u8> {
    let t = trimmed(value);
    if t.len() == 0 || t[0] != '#' {
        white()
    } else {
        let h = t.drop_first();
        if h.len() == 3 {
            if hex_digit_value(h[0]) is Some && hex_digit_value(h[1]) is Some && hex_digit_value(
                h[2],
            ) is Some {
                seq![255u8, short_channel(h[0]), short_channel(h[1]), short_channel(h[2])]
            } else {
                white()
            }
        } else if h.len() == 4 {
            if hex_digit_value(h[0]) is Some && hex_digit_value(h[1]) is Some && hex_digit_value(
                h[2],
            ) is Some && hex_digit_value(h[3]) is Some {
                seq![
                    short_channel(h[0]),
                    short_channel(h[1]),
                    short_channel(h[2]),
                    short_channel(h[3]),
                ]
            } else {
                white()
            }
        } else if h.len() == 6 {
            match hex_pairs(h) {
                Some(b) => seq![255u8, b[0], b[1], b[2]],
                None => white(),
            }
        } else if h.len() == 8 {
            match hex_pairs(h) {
                Some(b) => seq![b[0], b[1], b[2], b[3]],
                None => white(),
            }
        } else {
            white()
        }
    }
}

/// The value of the hex digit whose code is `value`.
pub fn hex_nibble(value: u8) -> (r: Option<u8>)
    ensures
        r == hex_digit_value(value as char),
{
    if 0x30 <= value && value <= 0x39 {
        Some(value - 0x30)
    } else if 0x61 <= value && value <= 0x66 {
        Some(value - 0x61 + 10)
    } else if 0x41 <= value && value <= 0x46 {
        Some(value - 0x41 + 10)
    } else {
        None
    }
}

fn hex_char_value(c: char) -> (r: Option<u8>)
    ensures
        r == hex_digit_value(c),
        r matches Some(v) ==> v < 16,
{
    if (c as u32) < 128 {
        hex_nibble(c as u8)
    } else {
        None
    }
}

fn hex_pair(c0: char, c1: char) -> (r: Option<u8>)
    ensures
        r == hex_pair_value(c0, c1),
{
    if c0 == '+' {
        hex_char_value(c1)
    } else {
        match (hex_char_value(c0), hex_char_value(c1)) {
            (Some(high), Some(low)) => Some(high * 16 + low),
            _ => None,
        }
    }
}

fn hex_pairs_of(cs: &[char]) -> (r: Option<Vec<u8>>)
    ensures
        r matches Some(v) ==> hex_pairs(cs@) == Some(v@),
        r is None ==> hex_pairs(cs@) is None,
{
    let mut i: usize = 0;
    while i < cs.len()
        invariant
            i <= cs@.len(),
            forall|k: int| 0 <= k < i ==> (#[trigger] cs@[k] as u32) < 128,
        decreases cs@.len() - i,
    {
        if (cs[i] as u32) >= 128 {
            return None;
        }
        i = i + 1;
    }
    let half = cs.len() / 2;
    let mut bytes: Vec<u8> = Vec::new();
    let mut p: usize = 0;
    while p < half
        invariant
            half == cs@.len() / 2,
            half * 2 <= cs@.len(),
            p <= half,
            all_ascii(cs@),
            bytes@.len() == p,
            forall|q: int|
                0 <= q < p ==> #[trigger] hex_pair_value(cs@[2 * q], cs@[2 * q + 1]) == Some(
                    bytes@[q],
                ),
        decreases half - p,
    {
        match hex_pair(cs[2 * p], cs[2 * p + 1]) {
            Some(b) => {
                bytes.push(b);
            },
            None => {
                return None;
            },
        }
        p = p + 1;
    }
    assert(bytes@ =~= Seq::new(
        (cs@.len() / 2) as nat,
        |q: int| hex_pair_value(cs@[2 * q], cs@[2 * q + 1])->0,
    ));
    Some(bytes)
}

/// The bytes written as hex pairs in `value` (a trailing odd character is
/// ignored), or `None` when some pair is not a hex byte.
pub fn parse_hex_bytes(value: &str) -> (r: Option<Vec<u8>>)
    ensures
        r matches Some(v) ==> hex_pairs(value@) == Some(v@),
        r is None ==> hex_pairs(value@) is None,
{
    let cs = chars_of(value);
    hex_pairs_of(cs.as_slice())
}

fn white_channels() -> (r: [u8; 4])
    ensures
        r@ == white(),
{
    let r = [255u8, 255u8, 255u8, 255u8];
    assert(r@ =~= white());
    r
}

/// Reads a Qt colour text into `[alpha, red, green, blue]`; any text that is
/// not one of the four forms gives opaque white.
pub fn parse_qt_color(value: &str) -> (r: [u8; 4])
    ensures
        r@ == qt_color_channels(value@),
{
    let t = trim_str(value);
    if t.len() == 0 || t[0] != '#' {
        return white_channels();
    }
    let h = sub_chars(t.as_slice(), 1, t.len());
    assert(h@ =~= trimmed(value@).drop_first());
    if h.len() == 3 {
        match (hex_char_value(h[0]), hex_char_value(h[1]), hex_char_value(h[2])) {
            (Some(red), Some(green), Some(blue)) => {
                let r = [255u8, red * 17, green * 17, blue * 17];
                assert(r@ =~= qt_color_channels(value@));
                r
            },
            _ => white_channels(),
        }
    } else if h.len() == 4 {
        match (
            hex_char_value(h[0]),
            hex_char_value(h[1]),
            hex_char_value(h[2]),
            hex_char_value(h[3]),
        ) {
            (Some(alpha), Some(red), Some(green), Some(blue)) => {
                let r = [alpha * 17, red * 17, green * 17, blue * 17];
                assert(r@ =~= qt_color_channels(value@));
                r
            },
            _ => white_channels(),
        }
    } else if h.len() == 6 {
        match hex_pairs_of(h.as_slice()) {
            Some(b) => {
                let r = [255u8, b[0], b[1], b[2]];
                assert(r@ =~= qt_color_channels(value@));
                r
            },
            None => white_channels(),
        }
    } else if h.len() == 8 {
        match hex_pairs_of(h.as_slice()) {
            Some(b) => {
                let r = [b[0], b[1], b[2], b[3]];
                assert(r@ =~= qt_color_channels(value@));
                r
            },
            None => white_channels(),
        }
    } else {
        white_channels()
    }
}

/// `value` clamped into `0..=255`.
pub open spec fn channel(value: i32) -> u8 {
    if value < 0 {
        0
    } else if value > 255 {
        255
    } else {
        value as u8
    }
}

/// The lowercase hex digit for `d` in `0..16`.
pub open spec fn lower_hex_digit(d: int) -> char {
    if d < 10 {
        (48 + d) as char
    } else {
        (87 + d) as char
    }
}

/// Two lowercase hex digits for a byte, as `{:02x}` writes it.
pub open spec fn hex2(v: u8) -> Seq<char> {
    seq![lower_hex_digit((v / 16) as int), lower_hex_digit((v % 16) as int)]
}

/// The Qt colour text for the clamped channels: `#rrggbb` when opaque,
/// `#aarrggbb` otherwise.
pub open spec fn qt_color_text(red: i32, green: i32, blue: i32, alpha: i32) -> Seq<char> {
    if channel(alpha) == 255 {
        seq!['#'] + hex2(channel(red)) + hex2(channel(green)) + hex2(channel(blue))
    } else {
        seq!['#'] + hex2(channel(alpha)) + hex2(channel(red)) + hex2(channel(green)) + hex2(
            channel(blue),
        )
    }
}

fn clamp_channel(value: i32) -> (r: u8)
    ensures
        r == channel(value),
{
    if value < 0 {
        0
    } else if value > 255 {
        255
    } else {
        value as u8
    }
}

fn hex_digit_char(d: u8) -> (c: char)
    requires
        d < 16,
    ensures
        c == lower_hex_digit(d as int),
{
    if d < 10 {
        (48 + d) as char
    } else {
        (87 + d) as char
    }
}

fn push_hex2(out: &mut Vec<char>, v: u8)
    ensures
        final(out)@ == old(out)@ + hex2(v),
{
    out.push(hex_digit_char(v / 16));
    out.push(hex_digit_char(v % 16));
    assert(final(out)@ =~= old(out)@ + hex2(v));
}

/// Writes channels (each clamped into `0..=255`) as a Qt colour text.
pub fn format_qt_color(red: i32, green: i32, blue: i32, alpha: i32) -> (s: String)
    ensures
        s@ == qt_color_text(red, green, blue, alpha),
{
    let red = clamp_channel(red);
    let green = clamp_channel(green);
    let blue = clamp_channel(blue);
    let alpha = clamp_channel(alpha);
    let mut out: Vec<char> = Vec::new();
    out.push('#');
    if alpha != 255 {
        push_hex2(&mut out, alpha);
    }
    push_hex2(&mut out, red);
    push_hex2(&mut out, green);
    push_hex2(&mut out, blue);
    string_of(out.as_slice())
}

proof fn lemma_hex2_reads_back(v: u8)
    ensures
        hex_digit_value(hex2(v)[0]) is Some,
        hex_digit_value(hex2(v)[1]) is Some,
        hex_pair_value(hex2(v)[0], hex2(v)[1]) == Some(v),
        (hex2(v)[0] as u32) < 128,
        (hex2(v)[1] as u32) < 128,
        hex2(v)[0] != '+',
{
    let high = (v / 16) as int;
    let low = (v % 16) as int;
    assert(v == high * 16 + low);
}

/// Writing a colour and reading the text back gives the clamped channels, in
/// the order alpha, red, green, blue.
pub proof fn format_then_parse_roundtrip(red: i32, green: i32, blue: i32, alpha: i32)
    ensures
        qt_color_channels(qt_color_text(red, green, blue, alpha)) == seq![
            channel(alpha),
            channel(red),
            channel(green),
            channel(blue),
        ],
{
    let s = qt_color_text(red, green, blue, alpha);
    lemma_hex2_reads_back(channel(red));
    lemma_hex2_reads_back(channel(green));
    lemma_hex2_reads_back(channel(blue));
    lemma_hex2_reads_back(channel(alpha));
    assert(!is_white_space(s[0]));
    assert(!is_white_space(s.last()));
    assert(trim_start(s) == s);
    assert(trim_end(s) == s);
    let h = s.drop_first();
    if channel(alpha) == 255 {
        assert(h =~= hex2(channel(red)) + hex2(channel(green)) + hex2(channel(blue)));
        assert(h.len() == 6);
        assert forall|i: int| 0 <= i < h.len() / 2 implies #[trigger] hex_pair_value(
            h[2 * i],
            h[2 * i + 1],
        ) is Some by {
            if i == 0 {
            } else if i == 1 {
            } else {
            }
        }
        assert(all_ascii(h));
        let b = hex_pairs(h)->0;
        assert(b[0] == channel(red));
        assert(b[1] == channel(green));
        assert(b[2] == channel(blue));
    } else {
        assert(h =~= hex2(channel(alpha)) + hex2(channel(red)) + hex2(channel(green)) + hex2(
            channel(blue),
        ));
        assert(h.len() == 8);
        assert forall|i: int| 0 <= i < h.len() / 2 implies #[trigger] hex_pair_value(
            h[2 * i],
            h[2 * i + 1],
        ) is Some by {
            if i == 0 {
            } else if i == 1 {
            } else if i == 2 {
            } else {
            }
        }
        assert(all_ascii(h));
        let b = hex_pairs(h)->0;
        assert(b[0] == channel(alpha));
        assert(b[1] == channel(red));
        assert(b[2] == channel(green));
        assert(b[3] == channel(blue));
    }
}

} // verus!
