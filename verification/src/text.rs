//! Text helpers with exact specifications: decimal/hex rendering, ASCII case
//! folding, prefix/substring tests, trimming and integer parsing.

use vstd::prelude::*;

verus! {

// ---------------------------------------------------------------------------
// Character-level primitives
// ---------------------------------------------------------------------------

/// Appends one character to a string (std `String::push`).
#[verifier::external_body]
pub(crate) fn push_char(s: &mut String, c: char)
    ensures
        final(s)@ == old(s)@.push(c),
{
    s.push(c);
}

/// Whether `c` is a Unicode scalar value (std `char::from_u32` accepts it).
pub open spec fn is_scalar_value(c: u32) -> bool {
    c <= 0x10FFFF && !(0xD800 <= c && c < 0xE000)
}

/// std `char::from_u32`: `Some` exactly for Unicode scalar values, carrying
/// the character with that code point.
#[verifier::external_body]
pub(crate) fn char_from_u32(c: u32) -> (r: Option<char>)
    ensures
        r is Some <==> is_scalar_value(c),
        r matches Some(ch) ==> ch as u32 == c,
{
    char::from_u32(c)
}

/// The characters of a string slice, as a vector.
pub fn to_chars(s: &str) -> (v: Vec<char>)
    ensures
        v@ == s@,
{
    let mut v: Vec<char> = Vec::new();
    for c in it: s.chars()
        invariant
            v@ == it.seq().take(it.index() as int),
    {
        v.push(c);
    }
    v
}

/// A string holding exactly the characters `v[lo..hi]`.
pub fn string_from_chars(v: &Vec<char>, lo: usize, hi: usize) -> (s: String)
    requires
        lo <= hi <= v.len(),
    ensures
        s@ == v@.subrange(lo as int, hi as int),
{
    let mut s = String::new();
    let mut i = lo;
    while i < hi
        invariant
            lo <= i <= hi <= v.len(),
            s@ == v@.subrange(lo as int, i as int),
        decreases hi - i,
    {
        push_char(&mut s, v[i]);
        i += 1;
        assert(s@ =~= v@.subrange(lo as int, i as int));
    }
    s
}

// ---------------------------------------------------------------------------
// Decimal rendering
// ---------------------------------------------------------------------------

/// The ASCII digit for `d` (taken modulo 10).
pub open spec fn digit_char(d: nat) -> char {
    let k = d % 10;
    if k == 0 { '0' } else if k == 1 { '1' } else if k == 2 { '2' } else if k == 3 { '3' }
    else if k == 4 { '4' } else if k == 5 { '5' } else if k == 6 { '6' } else if k == 7 { '7' }
    else if k == 8 { '8' } else { '9' }
}

/// Decimal notation of `n`, without sign or leading zeros (what `{}` prints).
pub open spec fn dec(n: nat) -> Seq<char>
    decreases n,
{
    if n < 10 {
        seq![digit_char(n)]
    } else {
        dec(n / 10).push(digit_char(n % 10))
    }
}

fn digit_of(d: u64) -> (c: char)
    requires
        d < 10,
    ensures
        c == digit_char(d as nat),
{
    if d == 0 { '0' } else if d == 1 { '1' } else if d == 2 { '2' } else if d == 3 { '3' }
    else if d == 4 { '4' } else if d == 5 { '5' } else if d == 6 { '6' } else if d == 7 { '7' }
    else if d == 8 { '8' } else { '9' }
}

/// Decimal text of `n` (what `format!("{}", n)` gives).
pub fn dec_string(n: u64) -> (s: String)
    ensures
        s@ == dec(n as nat),
{
    let mut s = String::new();
    append_dec(&mut s, n);
    s
}

/// Appends the decimal text of `n` to `s`.
pub fn append_dec(s: &mut String, n: u64)
    ensures
        final(s)@ == old(s)@ + dec(n as nat),
{
    let mut digits: Vec<char> = Vec::new();
    let mut m = n;
    while m >= 10
        invariant
            dec(n as nat) == dec(m as nat) + digits@,
        decreases m,
    {
        let d = digit_of(m % 10);
        let ghost old_digits = digits@;
        digits.insert(0, d);
        assert(dec(m as nat) == dec((m / 10) as nat).push(digit_char((m % 10) as nat)));
        assert(dec(m as nat) + old_digits =~= dec((m / 10) as nat) + digits@);
        m = m / 10;
    }
    let first = digit_of(m);
    assert(dec(m as nat) == seq![first]);
    let ghost s0 = s@;
    push_char(s, first);
    let mut i: usize = 0;
    while i < digits.len()
        invariant
            0 <= i <= digits.len(),
            s@ == s0 + seq![first] + digits@.take(i as int),
        decreases digits.len() - i,
    {
        push_char(s, digits[i]);
        i += 1;
        assert(s@ =~= s0 + seq![first] + digits@.take(i as int));
    }
    assert(digits@.take(digits.len() as int) =~= digits@);
    assert(s@ =~= s0 + dec(n as nat));
}

// ---------------------------------------------------------------------------
// Hexadecimal rendering
// ---------------------------------------------------------------------------

/// Hex digit for `d % 16`, upper or lower case.
pub open spec fn hex_char(d: nat, upper: bool) -> char {
    let k = d % 16;
    if k < 10 {
        digit_char(k)
    } else if upper {
        if k == 10 { 'A' } else if k == 11 { 'B' } else if k == 12 { 'C' } else if k == 13 { 'D' }
        else if k == 14 { 'E' } else { 'F' }
    } else {
        if k == 10 { 'a' } else if k == 11 { 'b' } else if k == 12 { 'c' } else if k == 13 { 'd' }
        else if k == 14 { 'e' } else { 'f' }
    }
}

/// The last `w` hex digits of `n`, most significant first (zero padded).
pub open spec fn hex_fixed(n: nat, w: nat, upper: bool) -> Seq<char>
    decreases w,
{
    if w == 0 {
        Seq::empty()
    } else {
        hex_fixed(n / 16, (w - 1) as nat, upper).push(hex_char(n, upper))
    }
}

fn hex_digit_of(d: u64, upper: bool) -> (c: char)
    requires
        d < 16,
    ensures
        c == hex_char(d as nat, upper),
{
    if d < 10 {
        digit_of(d)
    } else if upper {
        if d == 10 { 'A' } else if d == 11 { 'B' } else if d == 12 { 'C' } else if d == 13 { 'D' }
        else if d == 14 { 'E' } else { 'F' }
    } else {
        if d == 10 { 'a' } else if d == 11 { 'b' } else if d == 12 { 'c' } else if d == 13 { 'd' }
        else if d == 14 { 'e' } else { 'f' }
    }
}

/// Appends the last `w` hex digits of `n` (zero padded).
pub fn append_hex_fixed(s: &mut String, n: u64, w: usize, upper: bool)
    ensures
        final(s)@ == old(s)@ + hex_fixed(n as nat, w as nat, upper),
{
    let mut digits: Vec<char> = Vec::new();
    let mut m = n;
    let mut k: usize = 0;
    while k < w
        invariant
            k <= w,
            digits.len() == k,
            hex_fixed(n as nat, w as nat, upper)
                == hex_fixed(m as nat, (w - k) as nat, upper) + digits@,
        decreases w - k,
    {
        let d = hex_digit_of(m % 16, upper);
        let ghost old_digits = digits@;
        digits.insert(0, d);
        assert(hex_fixed(m as nat, (w - k) as nat, upper) == hex_fixed(
            (m / 16) as nat,
            (w - k - 1) as nat,
            upper,
        ).push(hex_char(m as nat, upper)));
        assert(hex_char(m as nat, upper) == hex_char((m % 16) as nat, upper));
        assert(hex_fixed(m as nat, (w - k) as nat, upper) + old_digits =~= hex_fixed(
            (m / 16) as nat,
            (w - k - 1) as nat,
            upper,
        ) + digits@);
        m = m / 16;
        k += 1;
    }
    assert(hex_fixed(m as nat, 0, upper) =~= Seq::<char>::empty());
    assert(hex_fixed(n as nat, w as nat, upper) =~= digits@);
    let ghost s0 = s@;
    let mut i: usize = 0;
    while i < digits.len()
        invariant
            0 <= i <= digits.len(),
            s@ == s0 + digits@.take(i as int),
        decreases digits.len() - i,
    {
        push_char(s, digits[i]);
        i += 1;
        assert(s@ =~= s0 + digits@.take(i as int));
    }
    assert(digits@.take(digits.len() as int) =~= digits@);
}

// ---------------------------------------------------------------------------
// ASCII case folding and matching
// ---------------------------------------------------------------------------

/// `char::to_ascii_lowercase`: maps `A..=Z` to `a..=z`, keeps everything else.
pub open spec fn ascii_lower(c: char) -> char {
    if 'A' <= c && c <= 'Z' {
        ((c as u32) + 32) as char
    } else {
        c
    }
}

/// `str::to_ascii_lowercase` on a character sequence.
pub open spec fn ascii_lower_seq(s: Seq<char>) -> Seq<char> {
    s.map_values(|c: char| ascii_lower(c))
}

pub fn lower_char(c: char) -> (r: char)
    ensures
        r == ascii_lower(c),
{
    if 'A' <= c && c <= 'Z' {
        (((c as u32) + 32) as u8) as char
    } else {
        c
    }
}

/// The ASCII-lowercased characters of `s`.
pub fn lower_chars(s: &str) -> (v: Vec<char>)
    ensures
        v@ == ascii_lower_seq(s@),
{
    let cs = to_chars(s);
    let mut v: Vec<char> = Vec::new();
    let mut i: usize = 0;
    while i < cs.len()
        invariant
            i <= cs.len(),
            cs@ == s@,
            v@ == ascii_lower_seq(cs@.take(i as int)),
        decreases cs.len() - i,
    {
        v.push(lower_char(cs[i]));
        i += 1;
        assert(v@ =~= ascii_lower_seq(cs@.take(i as int)));
    }
    assert(cs@.take(cs.len() as int) =~= cs@);
    v
}

/// `p` is a prefix of `s`.
pub open spec fn has_prefix(s: Seq<char>, p: Seq<char>) -> bool {
    p.len() <= s.len() && s.subrange(0, p.len() as int) == p
}

/// `p` occurs in `s` at position `i`.
pub open spec fn occurs_at(s: Seq<char>, p: Seq<char>, i: int) -> bool {
    0 <= i && i + p.len() <= s.len() && s.subrange(i, i + p.len()) == p
}

/// `p` occurs somewhere in `s` (`str::contains`).
pub open spec fn has_infix(s: Seq<char>, p: Seq<char>) -> bool {
    exists|i: int| occurs_at(s, p, i)
}

/// Whether `p` occurs in `v` at `i`.
pub fn matches_at(v: &Vec<char>, p: &Vec<char>, i: usize) -> (r: bool)
    ensures
        r == occurs_at(v@, p@, i as int),
{
    if i > v.len() || p.len() > v.len() - i {
        return false;
    }
    let mut k: usize = 0;
    while k < p.len()
        invariant
            i + p.len() <= v.len(),
            k <= p.len(),
            forall|j: int| 0 <= j < k ==> v@[i + j] == p@[j],
        decreases p.len() - k,
    {
        if v[i + k] != p[k] {
            assert(v@.subrange(i as int, i + p.len())[k as int] != p@[k as int]);
            return false;
        }
        k += 1;
    }
    assert(v@.subrange(i as int, i + p.len()) =~= p@);
    true
}

/// Whether `v` starts with the characters of `p`.
pub fn starts_with(v: &Vec<char>, p: &str) -> (r: bool)
    ensures
        r == has_prefix(v@, p@),
{
    let pc = to_chars(p);
    matches_at(v, &pc, 0)
}

/// Whether the characters of `p` occur in `v`.
pub fn contains(v: &Vec<char>, p: &str) -> (r: bool)
    ensures
        r == has_infix(v@, p@),
{
    let pc = to_chars(p);
    if pc.len() > v.len() {
        assert forall|i: int| !occurs_at(v@, pc@, i) by {}
        return false;
    }
    let lim = v.len() - pc.len();
    let mut i: usize = 0;
    while i < lim
        invariant
            pc@ == p@,
            lim == v.len() - pc.len(),
            i <= lim,
            forall|j: int| 0 <= j < i ==> !occurs_at(v@, pc@, j),
        decreases lim - i,
    {
        if matches_at(v, &pc, i) {
            return true;
        }
        i += 1;
    }
    if matches_at(v, &pc, lim) {
        return true;
    }
    assert forall|j: int| !occurs_at(v@, pc@, j) by {
        if 0 <= j && j + pc@.len() <= v@.len() && j != lim {
            assert(j < i);
        }
    }
    false
}

/// Whether two character vectors are equal.
pub fn chars_eq(a: &Vec<char>, b: &str) -> (r: bool)
    ensures
        r == (a@ == b@),
{
    let bc = to_chars(b);
    if a.len() != bc.len() {
        return false;
    }
    let r = matches_at(a, &bc, 0);
    proof {
        if r {
            assert(a@ =~= a@.subrange(0, a@.len() as int));
        } else {
            assert(a@.subrange(0, a@.len() as int) =~= a@);
        }
    }
    r
}

} // verus!

verus! {

/// A fresh `String` with the characters of `s`.
pub fn owned(s: &str) -> (r: String)
    ensures
        r@ == s@,
{
    <String as vstd::string::StringExecFns>::from_str(s)
}

/// Appends `t` to `s`.
pub fn append_str(s: &mut String, t: &str)
    ensures
        final(s)@ == old(s)@ + t@,
{
    <String as vstd::string::StringExecFns>::append(s, t);
}

/// Whether two strings hold the same characters.
pub fn str_eq(a: &str, b: &str) -> (r: bool)
    ensures
        r == (a@ == b@),
{
    let av = to_chars(a);
    chars_eq(&av, b)
}

/// `parts` with `sep` between each two consecutive parts.
pub open spec fn join(parts: Seq<Seq<char>>, sep: Seq<char>) -> Seq<char>
    decreases parts.len(),
{
    if parts.len() == 0 {
        Seq::empty()
    } else if parts.len() == 1 {
        parts[0]
    } else {
        join(parts.drop_last(), sep) + sep + parts.last()
    }
}

/// Joining one more part appends the separator and the part.
pub proof fn lemma_join_push(parts: Seq<Seq<char>>, sep: Seq<char>, p: Seq<char>)
    ensures
        join(parts.push(p), sep) == if parts.len() == 0 {
            p
        } else {
            join(parts, sep) + sep + p
        },
{
    assert(parts.push(p).drop_last() =~= parts);
}

/// Appends `part` to `s`, after `sep` unless `first`.
pub fn append_part(s: &mut String, first: bool, sep: &str, part: &str)
    ensures
        final(s)@ == if first {
            old(s)@ + part@
        } else {
            old(s)@ + sep@ + part@
        },
{
    if !first {
        append_str(s, sep);
    }
    append_str(s, part);
}

// ---------------------------------------------------------------------------
// Whitespace and trimming
// ---------------------------------------------------------------------------

/// The Unicode `White_Space` property (what `char::is_whitespace` tests).
pub open spec fn is_white_space(c: char) -> bool {
    let u = c as u32;
    ||| 0x09 <= u <= 0x0D
    ||| u == 0x20
    ||| u == 0x85
    ||| u == 0xA0
    ||| u == 0x1680
    ||| 0x2000 <= u <= 0x200A
    ||| u == 0x2028
    ||| u == 0x2029
    ||| u == 0x202F
    ||| u == 0x205F
    ||| u == 0x3000
}

/// Whether `c` is white space (see [`is_white_space`]).
pub fn is_whitespace(c: char) -> (r: bool)
    ensures
        r == is_white_space(c),
{
    let u = c as u32;
    (0x09 <= u && u <= 0x0D) || u == 0x20 || u == 0x85 || u == 0xA0 || u == 0x1680 || (0x2000
        <= u && u <= 0x200A) || u == 0x2028 || u == 0x2029 || u == 0x202F || u == 0x205F || u
        == 0x3000
}

/// `s` without leading white space.
pub open spec fn trim_start(s: Seq<char>) -> Seq<char>
    decreases s.len(),
{
    if s.len() > 0 && is_white_space(s[0]) {
        trim_start(s.skip(1))
    } else {
        s
    }
}

/// `s` without trailing white space.
pub open spec fn trim_end(s: Seq<char>) -> Seq<char>
    decreases s.len(),
{
    if s.len() > 0 && is_white_space(s.last()) {
        trim_end(s.drop_last())
    } else {
        s
    }
}

/// `str::trim`: `s` without leading and trailing white space.
pub open spec fn trim(s: Seq<char>) -> Seq<char> {
    trim_end(trim_start(s))
}

proof fn lemma_trim_start_at(s: Seq<char>, k: int)
    requires
        0 <= k <= s.len(),
        forall|j: int| 0 <= j < k ==> is_white_space(s[j]),
        k == s.len() || !is_white_space(s[k]),
    ensures
        trim_start(s) == s.skip(k),
    decreases k,
{
    if k == 0 {
        assert(s.skip(0) =~= s);
    } else {
        lemma_trim_start_at(s.skip(1), k - 1);
        assert(s.skip(1).skip(k - 1) =~= s.skip(k));
    }
}

proof fn lemma_trim_end_at(s: Seq<char>, k: int)
    requires
        0 <= k <= s.len(),
        forall|j: int| k <= j < s.len() ==> is_white_space(s[j]),
        k == 0 || !is_white_space(s[k - 1]),
    ensures
        trim_end(s) == s.take(k),
    decreases s.len() - k,
{
    if k == s.len() {
        assert(s.take(k) =~= s);
    } else {
        lemma_trim_end_at(s.drop_last(), k);
        assert(s.drop_last().take(k) =~= s.take(k));
    }
}

/// Bounds `[lo, hi)` of `v` without its leading and trailing white space.
pub fn trim_bounds(v: &Vec<char>) -> (r: (usize, usize))
    ensures
        r.0 <= r.1 <= v@.len(),
        v@.subrange(r.0 as int, r.1 as int) == trim(v@),
{
    let mut lo: usize = 0;
    while lo < v.len() && is_whitespace(v[lo])
        invariant
            lo <= v@.len(),
            forall|j: int| 0 <= j < lo ==> is_white_space(v@[j]),
        decreases v.len() - lo,
    {
        lo += 1;
    }
    let mut hi: usize = v.len();
    while hi > lo && is_whitespace(v[hi - 1])
        invariant
            lo <= hi <= v@.len(),
            forall|j: int| hi <= j < v@.len() ==> is_white_space(v@[j]),
        decreases hi,
    {
        hi -= 1;
    }
    proof {
        lemma_trim_start_at(v@, lo as int);
        let t = v@.skip(lo as int);
        lemma_trim_end_at(t, (hi - lo) as int);
        assert(t.take((hi - lo) as int) =~= v@.subrange(lo as int, hi as int));
    }
    (lo, hi)
}

/// `str::trim` as a new string.
pub fn trimmed(s: &str) -> (r: String)
    ensures
        r@ == trim(s@),
{
    let v = to_chars(s);
    let (lo, hi) = trim_bounds(&v);
    string_from_chars(&v, lo, hi)
}

// ---------------------------------------------------------------------------
// Integer parsing
// ---------------------------------------------------------------------------

pub open spec fn is_digit(c: char) -> bool {
    '0' <= c && c <= '9'
}

pub open spec fn all_digits(d: Seq<char>) -> bool {
    forall|i: int| 0 <= i < d.len() ==> is_digit(#[trigger] d[i])
}

/// Decimal value of a digit string.
pub open spec fn digits_value(d: Seq<char>) -> nat
    decreases d.len(),
{
    if d.len() == 0 {
        0
    } else {
        10 * digits_value(d.drop_last()) + ((d.last() as u32) - ('0' as u32)) as nat
    }
}

/// `u32::from_str`: an optional `+`, then one or more ASCII digits whose
/// value fits in 32 bits.
pub open spec fn spec_parse_u32(s: Seq<char>) -> Option<u32> {
    let d = if s.len() > 0 && s[0] == '+' {
        s.skip(1)
    } else {
        s
    };
    if d.len() == 0 || !all_digits(d) || digits_value(d) > u32::MAX {
        None
    } else {
        Some(digits_value(d) as u32)
    }
}

proof fn lemma_digits_value_prefix(d: Seq<char>, i: int)
    requires
        0 <= i <= d.len(),
    ensures
        digits_value(d.take(i)) <= digits_value(d),
    decreases d.len() - i,
{
    if i < d.len() {
        lemma_digits_value_prefix(d, i + 1);
        assert(d.take(i + 1).drop_last() =~= d.take(i));
    } else {
        assert(d.take(i) =~= d);
    }
}

/// Parse the characters `v[lo..hi]` as `u32::from_str` does.
pub fn parse_u32_chars(v: &Vec<char>, lo: usize, hi: usize) -> (r: Option<u32>)
    requires
        lo <= hi <= v@.len(),
    ensures
        r == spec_parse_u32(v@.subrange(lo as int, hi as int)),
{
    let ghost s = v@.subrange(lo as int, hi as int);
    let mut start = lo;
    if lo < hi && v[lo] == '+' {
        start = lo + 1;
    }
    let ghost d = v@.subrange(start as int, hi as int);
    assert(d =~= if s.len() > 0 && s[0] == '+' {
        s.skip(1)
    } else {
        s
    });
    if start == hi {
        return None;
    }
    let mut acc: u32 = 0;
    let mut i = start;
    while i < hi
        invariant
            start <= i <= hi <= v@.len(),
            d == v@.subrange(start as int, hi as int),
            s == v@.subrange(lo as int, hi as int),
            d == (if s.len() > 0 && s[0] == '+' {
                s.skip(1)
            } else {
                s
            }),
            all_digits(d.take(i - start)),
            acc as nat == digits_value(d.take(i - start)),
        decreases hi - i,
    {
        let c = v[i];
        if !('0' <= c && c <= '9') {
            assert(!is_digit(d[i - start]));
            return None;
        }
        let digit = (c as u32) - ('0' as u32);
        proof {
            assert(d.take(i - start + 1).drop_last() =~= d.take(i - start));
        }
        if acc > 429496729 || (acc == 429496729 && digit > 5) {
            proof {
                lemma_digits_value_prefix(d, i - start + 1);
            }
            return None;
        }
        acc = acc * 10 + digit;
        i += 1;
        assert(all_digits(d.take(i - start)));
    }
    assert(d.take(d.len() as int) =~= d);
    Some(acc)
}

/// `u32::from_str` on a string slice.
pub fn parse_u32(s: &str) -> (r: Option<u32>)
    ensures
        r == spec_parse_u32(s@),
{
    let v = to_chars(s);
    assert(v@.subrange(0, v@.len() as int) =~= v@);
    parse_u32_chars(&v, 0, v.len())
}

// ---------------------------------------------------------------------------
// Replacement
// ---------------------------------------------------------------------------

/// `str::replace` for a non-empty pattern: every non-overlapping occurrence
/// of `p`, scanning left to right, becomes `t`.
pub open spec fn replace_all(s: Seq<char>, p: Seq<char>, t: Seq<char>) -> Seq<char>
    decreases s.len(),
{
    if p.len() == 0 || s.len() < p.len() {
        s
    } else if s.take(p.len() as int) == p {
        t + replace_all(s.skip(p.len() as int), p, t)
    } else {
        seq![s[0]] + replace_all(s.skip(1), p, t)
    }
}

/// `s` with every occurrence of `p` replaced by `t`.
pub fn replace(s: &str, p: &str, t: &str) -> (r: String)
    requires
        p@.len() > 0,
    ensures
        r@ == replace_all(s@, p@, t@),
{
    let v = to_chars(s);
    let pv = to_chars(p);
    let mut out = String::new();
    let mut i: usize = 0;
    assert(v@.skip(0) =~= v@);
    while i < v.len()
        invariant
            i <= v@.len(),
            v@ == s@,
            pv@ == p@,
            pv@.len() > 0,
            out@ + replace_all(v@.skip(i as int), p@, t@) == replace_all(s@, p@, t@),
        decreases v.len() - i,
    {
        let ghost rest = v@.skip(i as int);
        if v.len() - i >= pv.len() && matches_at(&v, &pv, i) {
            proof {
                assert(rest.take(p@.len() as int) =~= v@.subrange(i as int, i + p@.len()));
                assert(rest.skip(p@.len() as int) =~= v@.skip(i + p@.len()));
            }
            append_str(&mut out, t);
            i += pv.len();
        } else {
            proof {
                if rest.len() >= p@.len() {
                    assert(rest.take(p@.len() as int) =~= v@.subrange(i as int, i + p@.len()));
                }
                assert(rest.skip(1) =~= v@.skip(i + 1));
            }
            if v.len() - i < pv.len() {
                proof {
                    assert(replace_all(rest, p@, t@) == rest);
                    assert(replace_all(rest.skip(1), p@, t@) == rest.skip(1));
                    assert(rest =~= seq![rest[0]] + rest.skip(1));
                }
            }
            push_char(&mut out, v[i]);
            i += 1;
        }
    }
    assert(replace_all(v@.skip(i as int), p@, t@) =~= Seq::<char>::empty());
    out
}

// ---------------------------------------------------------------------------
// Minimal-width lower-case hex (`{:x}`)
// ---------------------------------------------------------------------------

/// `n` in lower-case hex without leading zeros (`format!("{:x}", n)`).
pub open spec fn hex_min(n: nat) -> Seq<char>
    decreases n,
{
    if n < 16 {
        seq![hex_char(n, false)]
    } else {
        hex_min(n / 16).push(hex_char(n % 16, false))
    }
}

/// Appends `n` in lower-case hex without leading zeros.
pub fn append_hex(s: &mut String, n: u64)
    ensures
        final(s)@ == old(s)@ + hex_min(n as nat),
{
    let mut digits: Vec<char> = Vec::new();
    let mut m = n;
    while m >= 16
        invariant
            hex_min(n as nat) == hex_min(m as nat) + digits@,
        decreases m,
    {
        let d = hex_digit_of(m % 16, false);
        let ghost old_digits = digits@;
        digits.insert(0, d);
        assert(hex_char((m % 16) as nat, false) == hex_char(((m % 16) % 16) as nat, false));
        assert(hex_min(m as nat) == hex_min((m / 16) as nat).push(hex_char((m % 16) as nat, false)));
        assert(hex_min(m as nat) + old_digits =~= hex_min((m / 16) as nat) + digits@);
        m = m / 16;
    }
    let first = hex_digit_of(m, false);
    assert(hex_min(m as nat) == seq![first]);
    let ghost s0 = s@;
    push_char(s, first);
    let mut i: usize = 0;
    while i < digits.len()
        invariant
            0 <= i <= digits.len(),
            s@ == s0 + seq![first] + digits@.take(i as int),
        decreases digits.len() - i,
    {
        push_char(s, digits[i]);
        i += 1;
        assert(s@ =~= s0 + seq![first] + digits@.take(i as int));
    }
    assert(digits@.take(digits.len() as int) =~= digits@);
    assert(s@ =~= s0 + hex_min(n as nat));
}

// ---------------------------------------------------------------------------
// Paths
// ---------------------------------------------------------------------------

/// Joining a name onto a directory path: an absolute name (leading `/`)
/// stands alone; otherwise the name follows a `/` separator, which is only
/// added when `dir` is non-empty and does not already end with one.
pub open spec fn join_path(dir: Seq<char>, name: Seq<char>) -> Seq<char> {
    if name.len() > 0 && name[0] == '/' {
        name
    } else if dir.len() == 0 {
        name
    } else if dir.last() == '/' {
        dir + name
    } else {
        dir + seq!['/'] + name
    }
}

/// `dir` joined with `name` as a path (see [`join_path`]): an absolute
/// `name` replaces `dir`.
pub fn path_join(dir: &str, name: &str) -> (r: String)
    ensures
        r@ == join_path(dir@, name@),
{
    let n = to_chars(name);
    if n.len() > 0 && n[0] == '/' {
        return owned(name);
    }
    let v = to_chars(dir);
    let mut s = owned(dir);
    if v.len() > 0 && v[v.len() - 1] != '/' {
        push_char(&mut s, '/');
    }
    append_str(&mut s, name);
    s
}

} // verus!
