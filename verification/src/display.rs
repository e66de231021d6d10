//! How track properties are shown in the track-info panel: numbers with an
//! optional total, optional texts with an em dash for "unknown", and theme
//! colours given as hex strings.

use vstd::prelude::*;

use crate::audio::fulltrack::{hex_value, is_hex_digit};
use crate::text::{append_dec, append_str, dec, owned, push_char, to_chars};

verus! {

/// The placeholder shown for a missing value: a single em dash.
pub open spec fn dash() -> Seq<char> {
    seq!['\u{2014}']
}

fn dash_string() -> (r: String)
    ensures
        r@ == dash(),
{
    let mut s = String::new();
    push_char(&mut s, '\u{2014}');
    s
}

/// `n / total`, `n` alone when the total is unknown (0), and a dash when the
/// number itself is unknown (0).
pub open spec fn spec_fmt_num(num: u32, total: u32) -> Seq<char> {
    if num > 0 {
        if total > 0 {
            dec(num as nat) + " / "@ + dec(total as nat)
        } else {
            dec(num as nat)
        }
    } else {
        dash()
    }
}

/// Track or disc number with its total, as shown in the info panel.
pub fn fmt_num(num: u32, total: u32) -> (r: String)
    ensures
        r@ == spec_fmt_num(num, total),
{
    if num > 0 {
        let mut s = String::new();
        append_dec(&mut s, num as u64);
        if total > 0 {
            append_str(&mut s, " / ");
            append_dec(&mut s, total as u64);
        }
        s
    } else {
        dash_string()
    }
}

/// The text, or a dash when there is none.
pub fn opt_str(s: &Option<String>) -> (r: String)
    ensures
        r@ == (match s {
            Some(t) => t@,
            None => dash(),
        }),
{
    match s {
        Some(t) => owned(t.as_str()),
        None => dash_string(),
    }
}

/// The text, or a dash when it is empty.
pub fn empty_dash(s: &str) -> (r: String)
    ensures
        r@ == (if s@.len() == 0 { dash() } else { s@ }),
{
    let v = to_chars(s);
    if v.len() == 0 {
        dash_string()
    } else {
        owned(s)
    }
}

/// A positive number followed by its unit (`"24 bit"`), or a dash for 0.
pub fn num_str(v: u32, suffix: &str) -> (r: String)
    ensures
        r@ == (if v > 0 { dec(v as nat) + suffix@ } else { dash() }),
{
    if v > 0 {
        let mut s = String::new();
        append_dec(&mut s, v as u64);
        append_str(&mut s, suffix);
        s
    } else {
        dash_string()
    }
}

/// What the tray shows for the current track: "title — artist", or the
/// title alone when the artist is unknown or empty.
pub fn now_playing_text(title: &str, artist: Option<&str>) -> (r: String)
    ensures
        r@ == (match artist {
            Some(a) => if a@.len() > 0 {
                title@ + " "@ + dash() + " "@ + a@
            } else {
                title@
            },
            None => title@,
        }),
{
    let mut s = owned(title);
    match artist {
        Some(a) => {
            let v = to_chars(a);
            if v.len() > 0 {
                append_str(&mut s, " ");
                push_char(&mut s, '\u{2014}');
                append_str(&mut s, " ");
                append_str(&mut s, a);
            }
        },
        None => {},
    }
    s
}

/// `s` without its leading `#` characters (all of them).
pub open spec fn strip_hashes(s: Seq<char>) -> Seq<char>
    decreases s.len(),
{
    if s.len() > 0 && s[0] == '#' {
        strip_hashes(s.drop_first())
    } else {
        s
    }
}

pub open spec fn hex_pair(h: Seq<char>, i: int) -> u8 {
    (hex_value(h[i]) * 16 + hex_value(h[i + 1])) as u8
}

/// A colour `#RRGGBB` (opaque) or `#AARRGGBB`, as `(alpha, red, green, blue)`.
/// Any number of leading `#` is accepted; the rest must be exactly six or
/// eight hex digits, else there is no colour.
pub open spec fn spec_hex_color(s: Seq<char>) -> Option<(u8, u8, u8, u8)> {
    let h = strip_hashes(s);
    if (h.len() == 6 || h.len() == 8) && (forall|i: int| 0 <= i < h.len() ==> is_hex_digit(#[trigger] h[i])) {
        if h.len() == 8 {
            Some((hex_pair(h, 0), hex_pair(h, 2), hex_pair(h, 4), hex_pair(h, 6)))
        } else {
            Some((255u8, hex_pair(h, 0), hex_pair(h, 2), hex_pair(h, 4)))
        }
    } else {
        None
    }
}

fn digit_value(c: char) -> (r: u8)
    requires
        is_hex_digit(c),
    ensures
        r == hex_value(c),
        r < 16,
{
    if '0' <= c && c <= '9' {
        ((c as u32) - ('0' as u32)) as u8
    } else if 'a' <= c && c <= 'f' {
        ((c as u32) - ('a' as u32) + 10) as u8
    } else {
        ((c as u32) - ('A' as u32) + 10) as u8
    }
}

fn pair_at(v: &Vec<char>, i: usize) -> (r: u8)
    requires
        i + 1 < v.len(),
        is_hex_digit(v@[i as int]),
        is_hex_digit(v@[i + 1]),
    ensures
        r == hex_pair(v@, i as int),
{
    let hi = digit_value(v[i]);
    let lo = digit_value(v[i + 1]);
    hi * 16 + lo
}

proof fn lemma_strip_hashes_skip(s: Seq<char>, i: int)
    requires
        0 <= i <= s.len(),
        forall|k: int| 0 <= k < i ==> s[k] == '#',
    ensures
        strip_hashes(s) == strip_hashes(s.subrange(i, s.len() as int)),
    decreases i,
{
    if i > 0 {
        assert(s.drop_first() =~= s.subrange(1, s.len() as int));
        lemma_strip_hashes_skip(s.drop_first(), i - 1);
        assert(s.drop_first().subrange(i - 1, s.drop_first().len() as int)
            =~= s.subrange(i, s.len() as int));
    } else {
        assert(s.subrange(0, s.len() as int) =~= s);
    }
}

/// Parse a theme colour `#RRGGBB` or `#AARRGGBB` into `(a, r, g, b)`;
/// malformed input gives `None` instead of a panic.
pub fn hex_color(hex: &str) -> (r: Option<(u8, u8, u8, u8)>)
    ensures
        r == spec_hex_color(hex@),
{
    let v = to_chars(hex);
    let mut start: usize = 0;
    while start < v.len() && v[start] == '#'
        invariant
            start <= v@.len(),
            forall|k: int| 0 <= k < start ==> v@[k] == '#',
        decreases v.len() - start,
    {
        start += 1;
    }
    proof {
        lemma_strip_hashes_skip(v@, start as int);
        if start < v@.len() {
            assert(v@.subrange(start as int, v@.len() as int)[0] != '#');
        }
    }
    let mut h: Vec<char> = Vec::new();
    let mut i = start;
    while i < v.len()
        invariant
            start <= i <= v@.len(),
            h@ == v@.subrange(start as int, i as int),
        decreases v.len() - i,
    {
        h.push(v[i]);
        i += 1;
    }
    assert(strip_hashes(v@) == h@);
    if h.len() != 6 && h.len() != 8 {
        return None;
    }
    let mut j: usize = 0;
    while j < h.len()
        invariant
            j <= h@.len(),
            h@ == strip_hashes(hex@),
            h@.len() == 6 || h@.len() == 8,
            forall|k: int| 0 <= k < j ==> is_hex_digit(#[trigger] h@[k]),
        decreases h.len() - j,
    {
        let c = h[j];
        if !(('0' <= c && c <= '9') || ('a' <= c && c <= 'f') || ('A' <= c && c <= 'F')) {
            assert(!is_hex_digit(h@[j as int]));
            return None;
        }
        j += 1;
    }
    if h.len() == 8 {
        Some((pair_at(&h, 0), pair_at(&h, 2), pair_at(&h, 4), pair_at(&h, 6)))
    } else {
        Some((255u8, pair_at(&h, 0), pair_at(&h, 2), pair_at(&h, 4)))
    }
}

} // verus!
