//! Playlist rules: which files are audio, and where "next"/"previous" lead
//! in linear and shuffled order under each repeat mode.

use vstd::prelude::*;

use crate::settings::RepeatMode;
use crate::text::{ascii_lower_seq, chars_eq, lower_char, to_chars};

verus! {

// ---------------------------------------------------------------------------
// Supported files
// ---------------------------------------------------------------------------

/// The audio extensions the player opens (lower case).
pub open spec fn spec_supported_extension(e: Seq<char>) -> bool {
    ||| e == "flac"@
    ||| e == "wav"@
    ||| e == "aiff"@
    ||| e == "aif"@
    ||| e == "alac"@
    ||| e == "m4a"@
    ||| e == "m4b"@
    ||| e == "mp4"@
    ||| e == "mp3"@
    ||| e == "mp2"@
    ||| e == "ogg"@
    ||| e == "oga"@
    ||| e == "opus"@
    ||| e == "aac"@
    ||| e == "dsf"@
    ||| e == "dff"@
}

/// Index of the last `c` in `s`.
pub open spec fn last_index_of(s: Seq<char>, c: char) -> Option<int>
    decreases s.len(),
{
    if s.len() == 0 {
        None
    } else if s.last() == c {
        Some(s.len() - 1)
    } else {
        last_index_of(s.drop_last(), c)
    }
}

pub proof fn lemma_last_index_in_range(s: Seq<char>, c: char)
    ensures
        last_index_of(s, c) matches Some(k) ==> 0 <= k < s.len() && s[k] == c,
    decreases s.len(),
{
    if s.len() > 0 && s.last() != c {
        lemma_last_index_in_range(s.drop_last(), c);
    }
}

/// `k` starts the final run of `s` that holds no `c`.
proof fn lemma_last_index_at(s: Seq<char>, c: char, k: int)
    requires
        0 <= k <= s.len(),
        forall|j: int| k <= j < s.len() ==> s[j] != c,
        k == 0 || s[k - 1] == c,
    ensures
        last_index_of(s, c) == if k > 0 {
            Some(k - 1)
        } else {
            None::<int>
        },
    decreases s.len(),
{
    if s.len() > k {
        lemma_last_index_at(s.drop_last(), c, k);
    }
}

/// The final component of a `/`-separated path, as `Path::file_name` reads
/// it: trailing separators and `.` components are skipped, and a path that
/// ends in `..` (or has no normal component) has none.
pub open spec fn path_file_name(p: Seq<char>) -> Option<Seq<char>>
    decreases p.len(),
{
    if p.len() == 0 {
        None
    } else if p.last() == '/' {
        path_file_name(p.drop_last())
    } else {
        let k = match last_index_of(p, '/') {
            Some(k) => k,
            None => -1,
        };
        let comp = p.skip(k + 1);
        if comp == seq!['.'] {
            if k < 0 {
                None
            } else {
                proof {
                    lemma_last_index_in_range(p, '/');
                }
                path_file_name(p.take(k))
            }
        } else if comp == seq!['.', '.'] {
            None
        } else {
            Some(comp)
        }
    }
}

/// `Path::extension`: the part of the file name after its last `.`, unless
/// the name has no `.` or its only `.` is the first character.
pub open spec fn path_extension(p: Seq<char>) -> Option<Seq<char>> {
    match path_file_name(p) {
        None => None,
        Some(f) => match last_index_of(f, '.') {
            None => None,
            Some(k) => if k == 0 {
                None
            } else {
                Some(f.skip(k + 1))
            },
        },
    }
}

/// Whether a file is one the player opens: its extension, lower-cased, is
/// one of the supported audio extensions.
pub open spec fn spec_is_supported_audio(path: Seq<char>) -> bool {
    match path_extension(path) {
        Some(e) => spec_supported_extension(ascii_lower_seq(e)),
        None => false,
    }
}

/// The audio formats the player opens by extension: a file whose extension,
/// in any letter case, is flac, wav, aiff, aif, alac, m4a, m4b, mp4, mp3,
/// mp2, ogg, oga, opus, aac, dsf or dff is supported audio.
pub proof fn law_listed_extensions_are_audio(path: Seq<char>, e: Seq<char>)
    requires
        path_extension(path) == Some(e),
        ({
            let l = ascii_lower_seq(e);
            ||| l == "flac"@
            ||| l == "wav"@
            ||| l == "aiff"@
            ||| l == "aif"@
            ||| l == "alac"@
            ||| l == "m4a"@
            ||| l == "m4b"@
            ||| l == "mp4"@
            ||| l == "mp3"@
            ||| l == "mp2"@
            ||| l == "ogg"@
            ||| l == "oga"@
            ||| l == "opus"@
            ||| l == "aac"@
            ||| l == "dsf"@
            ||| l == "dff"@
        }),
    ensures
        spec_is_supported_audio(path),
{
}

/// A file without an extension is never taken for audio.
pub proof fn law_no_extension_no_audio(path: Seq<char>)
    requires
        path_extension(path) is None,
    ensures
        !spec_is_supported_audio(path),
{
}

/// Start of the component that ends at `end` (just after the previous `/`).
fn component_start(v: &Vec<char>, end: usize) -> (k: usize)
    requires
        end <= v@.len(),
    ensures
        k <= end,
        forall|j: int| k <= j < end ==> v@[j] != '/',
        k == 0 || v@[k - 1] == '/',
{
    let mut k = end;
    while k > 0 && v[k - 1] != '/'
        invariant
            k <= end <= v@.len(),
            forall|j: int| k <= j < end ==> v@[j] != '/',
        decreases k,
    {
        k -= 1;
    }
    k
}

/// Bounds `[k, end)` of the file name of the path `v`, if it has one.
fn file_name_range(v: &Vec<char>) -> (r: Option<(usize, usize)>)
    ensures
        match r {
            Some((k, e)) => k <= e <= v@.len() && path_file_name(v@) == Some(
                v@.subrange(k as int, e as int),
            ),
            None => path_file_name(v@) is None,
        },
{
    let mut end: usize = v.len();
    assert(v@.take(end as int) =~= v@);
    loop
        invariant
            end <= v@.len(),
            path_file_name(v@.take(end as int)) == path_file_name(v@),
        decreases end,
    {
        let ghost p = v@.take(end as int);
        if end == 0 {
            return None;
        }
        if v[end - 1] == '/' {
            assert(p.drop_last() =~= v@.take(end - 1));
            end -= 1;
        } else {
            let k = component_start(v, end);
            proof {
                lemma_last_index_at(p, '/', k as int);
            }
            let ghost kk: int = if k > 0 {
                k - 1
            } else {
                -1
            };
            assert(p.skip(kk + 1) =~= v@.subrange(k as int, end as int));
            if end - k == 1 && v[k] == '.' {
                assert(v@.subrange(k as int, end as int) =~= seq!['.']);
                if k == 0 {
                    return None;
                }
                assert(p.take(kk) =~= v@.take(k - 1));
                end = k - 1;
            } else if end - k == 2 && v[k] == '.' && v[k + 1] == '.' {
                assert(v@.subrange(k as int, end as int) =~= seq!['.', '.']);
                return None;
            } else {
                proof {
                    let comp = v@.subrange(k as int, end as int);
                    if comp == seq!['.'] {
                        assert(comp[0] == v@[k as int]);
                    }
                    if comp == seq!['.', '.'] {
                        assert(comp[0] == v@[k as int]);
                        assert(comp[1] == v@[k + 1]);
                    }
                }
                return Some((k, end));
            }
        }
    }
}

/// Whether `e` (already lower-cased) is a supported audio extension.
fn is_supported_extension(e: &Vec<char>) -> (r: bool)
    ensures
        r == spec_supported_extension(e@),
{
    chars_eq(e, "flac") || chars_eq(e, "wav") || chars_eq(e, "aiff") || chars_eq(e, "aif")
        || chars_eq(e, "alac") || chars_eq(e, "m4a") || chars_eq(e, "m4b") || chars_eq(e, "mp4")
        || chars_eq(e, "mp3") || chars_eq(e, "mp2") || chars_eq(e, "ogg") || chars_eq(e, "oga")
        || chars_eq(e, "opus") || chars_eq(e, "aac") || chars_eq(e, "dsf") || chars_eq(e, "dff")
}

/// The extension of `path` (see [`path_extension`]), as characters.
pub fn extension_chars(path: &str) -> (r: Option<Vec<char>>)
    ensures
        match (r, path_extension(path@)) {
            (Some(v), Some(e)) => v@ == e,
            (None, None) => true,
            _ => false,
        },
{
    let v = to_chars(path);
    match file_name_range(&v) {
        None => None,
        Some((k, end)) => {
            let ghost f = v@.subrange(k as int, end as int);
            let d = component_start_dot(&v, k, end);
            proof {
                lemma_last_index_at(f, '.', d - k);
            }
            if d == k || d == k + 1 {
                // no '.', or the only '.' starts the name
                return None;
            }
            let mut e: Vec<char> = Vec::new();
            let mut i = d;
            while i < end
                invariant
                    d <= i <= end <= v@.len(),
                    e@ == v@.subrange(d as int, i as int),
                decreases end - i,
            {
                e.push(v[i]);
                i += 1;
                assert(e@ =~= v@.subrange(d as int, i as int));
            }
            assert(f.skip(d - k) =~= v@.subrange(d as int, end as int));
            Some(e)
        },
    }
}

/// The ASCII-lowercased characters of `v`.
pub fn lower_vec(v: &Vec<char>) -> (r: Vec<char>)
    ensures
        r@ == ascii_lower_seq(v@),
{
    let mut e: Vec<char> = Vec::new();
    let mut i: usize = 0;
    while i < v.len()
        invariant
            i <= v@.len(),
            e@ == ascii_lower_seq(v@.take(i as int)),
        decreases v.len() - i,
    {
        e.push(lower_char(v[i]));
        i += 1;
        assert(e@ =~= ascii_lower_seq(v@.take(i as int)));
    }
    assert(v@.take(v@.len() as int) =~= v@);
    e
}

/// Whether the file at `path` is audio the player opens, judged by its
/// extension (case-insensitive).
pub fn is_supported_audio(path: &str) -> (r: bool)
    ensures
        r == spec_is_supported_audio(path@),
{
    match extension_chars(path) {
        None => false,
        Some(e) => is_supported_extension(&lower_vec(&e)),
    }
}

/// Start of the final run of `v[k..end]` without a `.`.
fn component_start_dot(v: &Vec<char>, k: usize, end: usize) -> (d: usize)
    requires
        k <= end <= v@.len(),
    ensures
        k <= d <= end,
        forall|j: int| d <= j < end ==> v@[j] != '.',
        d == k || v@[d - 1] == '.',
        forall|j: int|
            d - k <= j < end - k ==> v@.subrange(k as int, end as int)[j] != '.',
        d == k || v@.subrange(k as int, end as int)[d - k - 1] == '.',
{
    let mut d = end;
    while d > k && v[d - 1] != '.'
        invariant
            k <= d <= end <= v@.len(),
            forall|j: int| d <= j < end ==> v@[j] != '.',
        decreases d,
    {
        d -= 1;
    }
    d
}

// ---------------------------------------------------------------------------
// Navigation
// ---------------------------------------------------------------------------

/// Where a move of `direction` steps from position `cur` leads in a list of
/// `n` entries: Repeat All wraps around (Euclidean remainder), Off and One
/// stop at either end.
pub open spec fn spec_step(cur: int, direction: int, n: int, repeat: RepeatMode) -> Option<int> {
    if repeat == RepeatMode::All {
        Some((cur + direction) % n)
    } else {
        let next = cur + direction;
        if next < 0 || next >= n {
            None
        } else {
            Some(next)
        }
    }
}

/// The current position, defaulting to the first entry and clamped to the
/// last one.
pub open spec fn clamp_position(current: Option<usize>, n: int) -> int {
    let c = match current {
        Some(c) => c as int,
        None => 0,
    };
    if c < n - 1 {
        c
    } else {
        n - 1
    }
}

/// Linear navigation destination.
pub open spec fn spec_advance_index(
    current: Option<usize>,
    direction: i32,
    n: usize,
    repeat: RepeatMode,
) -> Option<int> {
    if n == 0 {
        None
    } else {
        spec_step(clamp_position(current, n as int), direction as int, n as int, repeat)
    }
}

/// Shuffle navigation: destination position within `order`.
pub open spec fn spec_shuffle_position(
    order_len: nat,
    pos: usize,
    direction: i32,
    repeat: RepeatMode,
) -> Option<int> {
    if order_len == 0 {
        None
    } else {
        spec_step(
            clamp_position(Some(pos), order_len as int),
            direction as int,
            order_len as int,
            repeat,
        )
    }
}

/// `(cur + direction) % n` (Euclidean) without overflow.
fn wrap_step(cur: usize, direction: i32, n: usize) -> (r: usize)
    requires
        n > 0,
        cur < n,
    ensures
        r == (cur + direction) % (n as int),
{
    let nn = n as u128;
    if direction >= 0 {
        let r = ((cur as u128) + (direction as u128)) % nn;
        r as usize
    } else {
        let m = (0i64 - direction as i64) as u128;
        let a = m % nn;
        let r = ((cur as u128) + nn - a) % nn;
        proof {
            let mi = m as int;
            let ni = n as int;
            vstd::arithmetic::div_mod::lemma_fundamental_div_mod(mi, ni);
            vstd::arithmetic::div_mod::lemma_mod_multiples_vanish(
                -(mi / ni + 1),
                cur + ni - mi % ni,
                ni,
            );
            assert(ni * (-(mi / ni + 1)) + (cur + ni - mi % ni) == cur - mi) by (nonlinear_arith)
                requires
                    mi == ni * (mi / ni) + mi % ni,
            ;
            assert(direction as int == -mi);
        }
        r as usize
    }
}

/// `cur + direction` when it stays within `0..n`.
fn bounded_step(cur: usize, direction: i32, n: usize) -> (r: Option<usize>)
    requires
        cur < n,
    ensures
        match r {
            Some(x) => x == cur + direction && x < n,
            None => cur + direction < 0 || cur + direction >= n,
        },
{
    if direction >= 0 {
        let step = direction as usize;
        if step >= n - cur {
            None
        } else {
            Some(cur + step)
        }
    } else {
        let step = (0i64 - direction as i64) as usize;
        if step > cur {
            None
        } else {
            Some(cur - step)
        }
    }
}

fn step(cur: usize, direction: i32, n: usize, repeat: RepeatMode) -> (r: Option<usize>)
    requires
        n > 0,
        cur < n,
    ensures
        match r {
            Some(x) => spec_step(cur as int, direction as int, n as int, repeat) == Some(x as int),
            None => spec_step(cur as int, direction as int, n as int, repeat) is None,
        },
{
    match repeat {
        RepeatMode::All => Some(wrap_step(cur, direction, n)),
        _ => bounded_step(cur, direction, n),
    }
}

/// Linear (non-shuffle) navigation destination; `direction` is +1 for next
/// and -1 for previous. Repeat All wraps; Off and One stop at the ends
/// (manual navigation under Repeat One still moves to the next track).
pub fn advance_index(current: Option<usize>, direction: i32, n: usize, repeat: RepeatMode) -> (r:
    Option<usize>)
    ensures
        match r {
            Some(x) => spec_advance_index(current, direction, n, repeat) == Some(x as int),
            None => spec_advance_index(current, direction, n, repeat) is None,
        },
{
    if n == 0 {
        return None;
    }
    let c = match current {
        Some(c) => c,
        None => 0,
    };
    let cur = if c < n - 1 {
        c
    } else {
        n - 1
    };
    step(cur, direction, n, repeat)
}

/// Shuffle navigation along a permuted `order`: the destination playlist
/// index and the new position within `order`, or `None` when the move is
/// not allowed (end or start without Repeat All).
pub fn advance_shuffle(order: &[usize], pos: usize, direction: i32, repeat: RepeatMode) -> (r:
    Option<(usize, usize)>)
    ensures
        match r {
            Some((idx, np)) => spec_shuffle_position(order@.len(), pos, direction, repeat) == Some(
                np as int,
            ) && np < order@.len() && idx == order@[np as int],
            None => spec_shuffle_position(order@.len(), pos, direction, repeat) is None,
        },
{
    let n = order.len();
    if n == 0 {
        return None;
    }
    let p = if pos < n - 1 {
        pos
    } else {
        n - 1
    };
    match step(p, direction, n, repeat) {
        Some(np) => Some((order[np], np)),
        None => None,
    }
}

// ---------------------------------------------------------------------------
// Laws
// ---------------------------------------------------------------------------

/// A destination is always a valid position of the list.
pub proof fn law_step_in_range(cur: int, direction: int, n: int, repeat: RepeatMode)
    requires
        n > 0,
    ensures
        spec_step(cur, direction, n, repeat) matches Some(x) ==> 0 <= x < n,
{
}

/// Under Repeat All every move from a non-empty list succeeds.
pub proof fn law_repeat_all_never_stops(current: Option<usize>, direction: i32, n: usize)
    requires
        n > 0,
    ensures
        spec_advance_index(current, direction, n, RepeatMode::All) is Some,
{
}

/// An empty list has no destination.
pub proof fn law_empty_list_has_no_destination(
    current: Option<usize>,
    direction: i32,
    repeat: RepeatMode,
)
    ensures
        spec_advance_index(current, direction, 0, repeat) is None,
{
}

/// "Previous" undoes "next": stepping forward and then back returns to the
/// (clamped) starting position, in every repeat mode.
pub proof fn law_next_then_previous(current: Option<usize>, n: usize, repeat: RepeatMode)
    requires
        n > 0,
    ensures
        spec_advance_index(current, 1, n, repeat) matches Some(j) ==> spec_step(
            j,
            -1,
            n as int,
            repeat,
        ) == Some(clamp_position(current, n as int)),
{
    let c = clamp_position(current, n as int);
    let ni = n as int;
    if repeat == RepeatMode::All {
        let j = (c + 1) % ni;
        if c + 1 < ni {
            vstd::arithmetic::div_mod::lemma_small_mod((c + 1) as nat, ni as nat);
            vstd::arithmetic::div_mod::lemma_small_mod(c as nat, ni as nat);
        } else {
            vstd::arithmetic::div_mod::lemma_mod_self_0(ni);
            vstd::arithmetic::div_mod::lemma_mod_sub_multiples_vanish(ni - 1, ni);
            vstd::arithmetic::div_mod::lemma_small_mod((ni - 1) as nat, ni as nat);
        }
    }
}

/// Under Repeat All, `n` steps forward lead back to the start.
pub proof fn law_full_cycle_returns(cur: int, n: int)
    requires
        n > 0,
        0 <= cur < n,
    ensures
        spec_step(cur, n, n, RepeatMode::All) == Some(cur),
{
    vstd::arithmetic::div_mod::lemma_mod_sub_multiples_vanish(cur + n, n);
    vstd::arithmetic::div_mod::lemma_small_mod(cur as nat, n as nat);
}

} // verus!
