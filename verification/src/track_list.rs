//! The saved playlist: a plain M3U file with one absolute path per line.
//! Reading keeps the supported audio files in order, skipping blank lines,
//! comments and repeats of a path already taken; writing puts each path on
//! a line of its own.

use vstd::prelude::*;

use crate::playlist::{is_supported_audio, spec_is_supported_audio};
use crate::text::{
    append_str, is_white_space, push_char, string_from_chars, to_chars, trim, trim_bounds, trim_end,
    trim_start,
};

verus! {

// ---------------------------------------------------------------------------
// Specification
// ---------------------------------------------------------------------------

/// `s` cut at every `sep`: one piece per separator plus one, empty pieces
/// included.
pub open spec fn split_at_char(s: Seq<char>, sep: char) -> Seq<Seq<char>>
    decreases s.len(),
{
    if s.len() == 0 {
        seq![Seq::empty()]
    } else {
        let prev = split_at_char(s.drop_last(), sep);
        if s.last() == sep {
            prev.push(Seq::empty())
        } else {
            prev.update(prev.len() - 1, prev.last().push(s.last()))
        }
    }
}

pub proof fn lemma_split_nonempty(s: Seq<char>, sep: char)
    ensures
        split_at_char(s, sep).len() >= 1,
    decreases s.len(),
{
    if s.len() > 0 {
        lemma_split_nonempty(s.drop_last(), sep);
    }
}

/// The named parts of a path cut at `/`: empty parts (repeated or trailing
/// separators) and `.` parts do not count.
pub open spec fn named_parts(parts: Seq<Seq<char>>) -> Seq<Seq<char>>
    decreases parts.len(),
{
    if parts.len() == 0 {
        Seq::empty()
    } else {
        let prev = named_parts(parts.drop_last());
        let p = parts.last();
        if p.len() == 0 || p == seq!['.'] {
            prev
        } else {
            prev.push(p)
        }
    }
}

/// The components of an absolute path after the root: two absolute paths
/// name the same file entry exactly when their components agree.
pub open spec fn path_components(p: Seq<char>) -> Seq<Seq<char>> {
    named_parts(split_at_char(p, '/'))
}

/// What one line of the file contributes: its trimmed text when that is an
/// absolute path of a supported audio file; nothing for blank lines,
/// comments (`#`, `;`), relative paths and other files.
pub open spec fn list_entry(line: Seq<char>) -> Option<Seq<char>> {
    let t = trim(line);
    if t.len() == 0 || t[0] == '#' || t[0] == ';' || t[0] != '/' || !spec_is_supported_audio(t) {
        None
    } else {
        Some(t)
    }
}

/// A playlist line naming, by an absolute path, a file of a supported audio
/// format (see `law_listed_extensions_are_audio`) contributes that path,
/// trimmed.
pub proof fn law_audio_lines_are_kept(line: Seq<char>)
    requires
        trim(line).len() > 0,
        trim(line)[0] == '/',
        spec_is_supported_audio(trim(line)),
    ensures
        list_entry(line) == Some(trim(line)),
{
}

/// Whether `acc` already holds a path with the components of `p`.
pub open spec fn seen_path(acc: Seq<Seq<char>>, p: Seq<char>) -> bool {
    exists|i: int| 0 <= i < acc.len() && path_components(#[trigger] acc[i]) == path_components(p)
}

/// The paths taken from `lines`, in order, each file once (its first line).
pub open spec fn collect_entries(lines: Seq<Seq<char>>) -> Seq<Seq<char>>
    decreases lines.len(),
{
    if lines.len() == 0 {
        Seq::empty()
    } else {
        let acc = collect_entries(lines.drop_last());
        match list_entry(lines.last()) {
            Some(p) => if seen_path(acc, p) {
                acc
            } else {
                acc.push(p)
            },
            None => acc,
        }
    }
}

/// The track paths listed by the text of a playlist file.
pub open spec fn spec_parse_track_list(text: Seq<char>) -> Seq<Seq<char>> {
    collect_entries(split_at_char(text, '\n'))
}

/// The text of a playlist file listing `paths`: each path and a newline.
pub open spec fn spec_track_list_text(paths: Seq<Seq<char>>) -> Seq<char>
    decreases paths.len(),
{
    if paths.len() == 0 {
        Seq::empty()
    } else {
        spec_track_list_text(paths.drop_last()) + paths.last() + seq!['\n']
    }
}

pub open spec fn strings_view(v: Seq<String>) -> Seq<Seq<char>> {
    v.map_values(|s: String| s@)
}

pub open spec fn parts_view(v: Seq<Vec<char>>) -> Seq<Seq<char>> {
    v.map_values(|p: Vec<char>| p@)
}

// ---------------------------------------------------------------------------
// Writing then reading
// ---------------------------------------------------------------------------

proof fn lemma_split_append_plain(s: Seq<char>, p: Seq<char>, sep: char)
    requires
        !p.contains(sep),
    ensures
        split_at_char(s + p, sep) == {
            let prev = split_at_char(s, sep);
            prev.update(prev.len() - 1, prev.last() + p)
        },
    decreases p.len(),
{
    lemma_split_nonempty(s, sep);
    if p.len() == 0 {
        assert(s + p =~= s);
        let prev = split_at_char(s, sep);
        assert(prev.last() + p =~= prev.last());
        assert(prev.update(prev.len() - 1, prev.last()) =~= prev);
    } else {
        let q = p.drop_last();
        assert(!q.contains(sep)) by {
            if q.contains(sep) {
                let k = choose|k: int| 0 <= k < q.len() && q[k] == sep;
                assert(p[k] == sep);
            }
        }
        assert(p.last() != sep) by {
            assert(p[p.len() - 1] == p.last());
        }
        lemma_split_append_plain(s, q, sep);
        assert((s + p).drop_last() =~= s + q);
        assert((s + p).last() == p.last());
        lemma_split_nonempty(s + q, sep);
        let prev = split_at_char(s, sep);
        let mid = split_at_char(s + q, sep);
        assert(mid.len() == prev.len());
        assert(mid.last() == prev.last() + q);
        assert(mid.last().push(p.last()) =~= prev.last() + p);
        assert(mid.update(mid.len() - 1, mid.last().push(p.last())) =~= prev.update(
            prev.len() - 1,
            prev.last() + p,
        ));
    }
}

/// The pieces of a written playlist file: its paths, then the empty piece
/// after the final newline.
proof fn lemma_split_written(ps: Seq<Seq<char>>)
    requires
        forall|i: int| 0 <= i < ps.len() ==> !(#[trigger] ps[i]).contains('\n'),
    ensures
        split_at_char(spec_track_list_text(ps), '\n') == ps.push(Seq::empty()),
    decreases ps.len(),
{
    if ps.len() == 0 {
        assert(split_at_char(Seq::<char>::empty(), '\n') =~= seq![Seq::<char>::empty()]);
        assert(ps.push(Seq::empty()) =~= seq![Seq::<char>::empty()]);
    } else {
        let init = ps.drop_last();
        let p = ps.last();
        assert(!p.contains('\n')) by {
            assert(ps[ps.len() - 1] == p);
        }
        assert forall|i: int| 0 <= i < init.len() implies !(#[trigger] init[i]).contains('\n') by {
            assert(init[i] == ps[i]);
        }
        lemma_split_written(init);
        let s0 = spec_track_list_text(init);
        lemma_split_append_plain(s0, p, '\n');
        let s1 = s0 + p;
        let full = s1 + seq!['\n'];
        assert(spec_track_list_text(ps) =~= full);
        assert(full.drop_last() =~= s1);
        let prev = init.push(Seq::<char>::empty());
        assert(Seq::<char>::empty() + p =~= p);
        assert(prev.update(prev.len() - 1, prev.last() + p) =~= ps);
    }
}

/// Reading lines that are each a valid entry, with no two naming the same
/// file, gives them back unchanged (a blank last line adds nothing).
proof fn lemma_collect_valid(ps: Seq<Seq<char>>)
    requires
        forall|i: int| 0 <= i < ps.len() ==> list_entry(#[trigger] ps[i]) == Some(ps[i]),
        forall|i: int, j: int|
            0 <= i < j < ps.len() ==> path_components(#[trigger] ps[i]) != path_components(
                #[trigger] ps[j],
            ),
    ensures
        collect_entries(ps) == ps,
    decreases ps.len(),
{
    if ps.len() > 0 {
        let init = ps.drop_last();
        let p = ps.last();
        assert forall|i: int| 0 <= i < init.len() implies list_entry(#[trigger] init[i]) == Some(
            init[i],
        ) by {
            assert(init[i] == ps[i]);
        }
        assert forall|i: int, j: int| 0 <= i < j < init.len() implies path_components(
            #[trigger] init[i],
        ) != path_components(#[trigger] init[j]) by {
            assert(init[i] == ps[i] && init[j] == ps[j]);
        }
        lemma_collect_valid(init);
        assert(list_entry(p) == Some(p)) by {
            assert(ps[ps.len() - 1] == p);
        }
        assert(!seen_path(init, p)) by {
            if seen_path(init, p) {
                let i = choose|i: int| 0 <= i < init.len() && path_components(#[trigger] init[i]) == path_components(p);
                assert(ps[i] == init[i] && ps[ps.len() - 1] == p);
            }
        }
        assert(init.push(p) =~= ps);
    }
}

/// Writing a playlist and reading it back gives the same paths, when each
/// path is a valid entry (an absolute, trimmed path of a supported audio
/// file, on one line) and no two paths name the same file.
pub proof fn law_track_list_round_trip(ps: Seq<Seq<char>>)
    requires
        forall|i: int| 0 <= i < ps.len() ==> list_entry(#[trigger] ps[i]) == Some(ps[i]),
        forall|i: int| 0 <= i < ps.len() ==> !(#[trigger] ps[i]).contains('\n'),
        forall|i: int, j: int|
            0 <= i < j < ps.len() ==> path_components(#[trigger] ps[i]) != path_components(
                #[trigger] ps[j],
            ),
    ensures
        spec_parse_track_list(spec_track_list_text(ps)) == ps,
{
    lemma_split_written(ps);
    let lines = ps.push(Seq::<char>::empty());
    assert(lines.drop_last() =~= ps);
    assert(lines.last() == Seq::<char>::empty());
    assert(list_entry(Seq::<char>::empty()) is None) by {
        assert(trim(Seq::<char>::empty()) =~= Seq::<char>::empty());
    }
    lemma_collect_valid(ps);
}

// ---------------------------------------------------------------------------
// Saving what was read
// ---------------------------------------------------------------------------

proof fn lemma_trim_start_shape(s: Seq<char>)
    ensures
        exists|k: int| 0 <= k <= s.len() && trim_start(s) == s.skip(k),
        trim_start(s).len() > 0 ==> !is_white_space(trim_start(s)[0]),
    decreases s.len(),
{
    if s.len() > 0 && is_white_space(s[0]) {
        lemma_trim_start_shape(s.skip(1));
        let k = choose|k: int| 0 <= k <= s.skip(1).len() && trim_start(s.skip(1)) == s.skip(1).skip(k);
        assert(s.skip(1).skip(k) =~= s.skip(k + 1));
    } else {
        assert(s.skip(0) =~= s);
    }
}

proof fn lemma_trim_end_shape(s: Seq<char>)
    ensures
        exists|k: int| 0 <= k <= s.len() && trim_end(s) == s.take(k),
        trim_end(s).len() > 0 ==> !is_white_space(trim_end(s).last()),
    decreases s.len(),
{
    if s.len() > 0 && is_white_space(s.last()) {
        lemma_trim_end_shape(s.drop_last());
        let k = choose|k: int| 0 <= k <= s.drop_last().len() && trim_end(s.drop_last()) == s.drop_last().take(k);
        assert(s.drop_last().take(k) =~= s.take(k));
    } else {
        assert(s.take(s.len() as int) =~= s);
    }
}

/// Trimming twice is trimming once, and a trimmed text holds only
/// characters of the untrimmed text.
proof fn lemma_trim_facts(s: Seq<char>)
    ensures
        trim(trim(s)) == trim(s),
        forall|c: char| trim(s).contains(c) ==> s.contains(c),
{
    lemma_trim_start_shape(s);
    let ts = trim_start(s);
    let k1 = choose|k: int| 0 <= k <= s.len() && trim_start(s) == s.skip(k);
    lemma_trim_end_shape(ts);
    let k2 = choose|k: int| 0 <= k <= ts.len() && trim_end(ts) == ts.take(k);
    let t = trim(s);
    assert(t == ts.take(k2));
    if t.len() > 0 {
        assert(t[0] == ts[0]);
        assert(!is_white_space(t[0]));
        assert(trim_start(t) == t);
        assert(!is_white_space(t.last()));
        assert(trim_end(t) == t);
    } else {
        assert(trim_start(t) == t);
        assert(trim_end(t) == t);
    }
    assert forall|c: char| t.contains(c) implies s.contains(c) by {
        let i = choose|i: int| 0 <= i < t.len() && t[i] == c;
        assert(s[k1 + i] == c);
    }
}

proof fn lemma_split_pieces(s: Seq<char>, sep: char)
    ensures
        forall|i: int| 0 <= i < split_at_char(s, sep).len() ==> !(#[trigger] split_at_char(s, sep)[i]).contains(sep),
    decreases s.len(),
{
    lemma_split_nonempty(s, sep);
    if s.len() > 0 {
        lemma_split_pieces(s.drop_last(), sep);
        lemma_split_nonempty(s.drop_last(), sep);
        let prev = split_at_char(s.drop_last(), sep);
        let cur = split_at_char(s, sep);
        if s.last() == sep {
            assert forall|i: int| 0 <= i < cur.len() implies !(#[trigger] cur[i]).contains(sep) by {
                if i < prev.len() {
                    assert(cur[i] == prev[i]);
                } else {
                    assert(cur[i] =~= Seq::<char>::empty());
                }
            }
        } else {
            assert forall|i: int| 0 <= i < cur.len() implies !(#[trigger] cur[i]).contains(sep) by {
                if i < prev.len() - 1 {
                    assert(cur[i] == prev[i]);
                } else {
                    let piece = prev.last().push(s.last());
                    assert(cur[i] == piece);
                    assert(!prev[prev.len() - 1].contains(sep));
                    if piece.contains(sep) {
                        let j = choose|j: int| 0 <= j < piece.len() && piece[j] == sep;
                        assert(j < prev.last().len());
                        assert(prev.last()[j] == sep);
                    }
                }
            }
        }
    }
}

/// What reading keeps: valid one-line entries naming distinct files.
proof fn lemma_collect_kept(lines: Seq<Seq<char>>)
    requires
        forall|i: int| 0 <= i < lines.len() ==> !(#[trigger] lines[i]).contains('\n'),
    ensures
        forall|i: int| 0 <= i < collect_entries(lines).len() ==> list_entry(
            #[trigger] collect_entries(lines)[i],
        ) == Some(collect_entries(lines)[i]),
        forall|i: int|
            0 <= i < collect_entries(lines).len() ==> !(#[trigger] collect_entries(lines)[i]).contains(
                '\n',
            ),
        forall|i: int, j: int|
            0 <= i < j < collect_entries(lines).len() ==> path_components(
                #[trigger] collect_entries(lines)[i],
            ) != path_components(#[trigger] collect_entries(lines)[j]),
    decreases lines.len(),
{
    if lines.len() > 0 {
        let init = lines.drop_last();
        assert forall|i: int| 0 <= i < init.len() implies !(#[trigger] init[i]).contains('\n') by {
            assert(init[i] == lines[i]);
        }
        lemma_collect_kept(init);
        let acc = collect_entries(init);
        let line = lines.last();
        assert(!line.contains('\n')) by {
            assert(lines[lines.len() - 1] == line);
        }
        if let Some(p) = list_entry(line) {
            if !seen_path(acc, p) {
                let out = acc.push(p);
                assert(collect_entries(lines) == out);
                lemma_trim_facts(line);
                assert(trim(p) == p);
                assert(list_entry(p) == Some(p));
                assert(!p.contains('\n'));
                assert forall|i: int| 0 <= i < out.len() implies list_entry(#[trigger] out[i]) == Some(
                    out[i],
                ) by {
                    if i < acc.len() {
                        assert(out[i] == acc[i]);
                    }
                }
                assert forall|i: int| 0 <= i < out.len() implies !(#[trigger] out[i]).contains('\n') by {
                    if i < acc.len() {
                        assert(out[i] == acc[i]);
                    }
                }
                assert forall|i: int, j: int| 0 <= i < j < out.len() implies path_components(
                    #[trigger] out[i],
                ) != path_components(#[trigger] out[j]) by {
                    assert(out[i] == acc[i]);
                    if j < acc.len() {
                        assert(out[j] == acc[j]);
                    } else {
                        assert(out[j] == p);
                        if path_components(acc[i]) == path_components(p) {
                            assert(seen_path(acc, p));
                        }
                    }
                }
            }
        }
    }
}

/// Saving a playlist that was read and reading it again gives the same
/// tracks: reading keeps only entries that survive a save.
pub proof fn law_reading_a_saved_read_is_stable(text: Seq<char>)
    ensures
        spec_parse_track_list(spec_track_list_text(spec_parse_track_list(text))) == spec_parse_track_list(text),
{
    lemma_split_pieces(text, '\n');
    lemma_collect_kept(split_at_char(text, '\n'));
    law_track_list_round_trip(spec_parse_track_list(text));
}

// ---------------------------------------------------------------------------
// Implementation
// ---------------------------------------------------------------------------

proof fn lemma_split_step(s: Seq<char>, i: int, sep: char)
    requires
        0 <= i < s.len(),
    ensures
        split_at_char(s.take(i + 1), sep) == (if s[i] == sep {
            split_at_char(s.take(i), sep).push(Seq::empty())
        } else {
            let prev = split_at_char(s.take(i), sep);
            prev.update(prev.len() - 1, prev.last().push(s[i]))
        }),
{
    assert(s.take(i + 1).drop_last() =~= s.take(i));
}

fn chars_equal(a: &Vec<char>, b: &Vec<char>) -> (r: bool)
    ensures
        r == (a@ == b@),
{
    if a.len() != b.len() {
        return false;
    }
    let mut i: usize = 0;
    while i < a.len()
        invariant
            i <= a@.len(),
            a@.len() == b@.len(),
            forall|k: int| 0 <= k < i ==> a@[k] == b@[k],
        decreases a.len() - i,
    {
        if a[i] != b[i] {
            return false;
        }
        i += 1;
    }
    assert(a@ =~= b@);
    true
}

fn parts_equal(a: &Vec<Vec<char>>, b: &Vec<Vec<char>>) -> (r: bool)
    ensures
        r == (parts_view(a@) == parts_view(b@)),
{
    if a.len() != b.len() {
        assert(parts_view(a@).len() != parts_view(b@).len());
        return false;
    }
    let mut i: usize = 0;
    while i < a.len()
        invariant
            i <= a@.len(),
            a@.len() == b@.len(),
            forall|k: int| 0 <= k < i ==> a@[k]@ == b@[k]@,
        decreases a.len() - i,
    {
        if !chars_equal(&a[i], &b[i]) {
            assert(parts_view(a@)[i as int] != parts_view(b@)[i as int]);
            return false;
        }
        i += 1;
    }
    assert(parts_view(a@) =~= parts_view(b@));
    true
}

fn is_named_part(p: &Vec<char>) -> (r: bool)
    ensures
        r == !(p@.len() == 0 || p@ == seq!['.']),
{
    if p.len() == 0 {
        false
    } else if p.len() == 1 && p[0] == '.' {
        assert(p@ =~= seq!['.']);
        false
    } else {
        assert(p@.len() != 1 ==> p@ != seq!['.']);
        assert(p@.len() == 1 ==> p@[0] != '.' ==> p@ != seq!['.']);
        true
    }
}

/// The components of `p` (see [`path_components`]).
fn components(p: &Vec<char>) -> (r: Vec<Vec<char>>)
    ensures
        parts_view(r@) == path_components(p@),
{
    let mut parts: Vec<Vec<char>> = Vec::new();
    let mut cur: Vec<char> = Vec::new();
    let mut i: usize = 0;
    proof {
        assert(p@.take(0) =~= Seq::<char>::empty());
    }
    while i < p.len()
        invariant
            i <= p@.len(),
            split_at_char(p@.take(i as int), '/').len() >= 1,
            cur@ == split_at_char(p@.take(i as int), '/').last(),
            parts_view(parts@) == named_parts(split_at_char(p@.take(i as int), '/').drop_last()),
        decreases p.len() - i,
    {
        let ghost before = split_at_char(p@.take(i as int), '/');
        proof {
            lemma_split_step(p@, i as int, '/');
        }
        if p[i] == '/' {
            let ghost after = before.push(Seq::empty());
            assert(after.drop_last() =~= before);
            assert(before.drop_last() =~= before.take(before.len() - 1));
            if is_named_part(&cur) {
                parts.push(cur);
                assert(parts_view(parts@) =~= named_parts(before.drop_last()).push(before.last()));
            }
            cur = Vec::new();
            assert(cur@ =~= after.last());
        } else {
            let ghost after = before.update(before.len() - 1, before.last().push(p@[i as int]));
            assert(after.drop_last() =~= before.drop_last());
            cur.push(p[i]);
        }
        i += 1;
    }
    assert(p@.take(p@.len() as int) =~= p@);
    let ghost all = split_at_char(p@, '/');
    assert(all.drop_last() =~= all.take(all.len() - 1));
    if is_named_part(&cur) {
        parts.push(cur);
        assert(parts_view(parts@) =~= named_parts(all.drop_last()).push(all.last()));
    }
    parts
}

/// Whether one of `seen` has the components `c`.
fn already_seen(seen: &Vec<Vec<Vec<char>>>, c: &Vec<Vec<char>>) -> (r: bool)
    ensures
        r == exists|i: int| 0 <= i < seen@.len() && parts_view(#[trigger] seen@[i]@) == parts_view(c@),
{
    let mut i: usize = 0;
    while i < seen.len()
        invariant
            i <= seen@.len(),
            forall|k: int| 0 <= k < i ==> parts_view(#[trigger] seen@[k]@) != parts_view(c@),
        decreases seen.len() - i,
    {
        if parts_equal(&seen[i], c) {
            return true;
        }
        i += 1;
    }
    false
}

/// Adds the entry of one line to `acc` (and its components to `seen`).
fn take_line(acc: &mut Vec<String>, seen: &mut Vec<Vec<Vec<char>>>, line: &Vec<char>)
    requires
        old(seen)@.len() == old(acc)@.len(),
        forall|k: int| 0 <= k < old(acc)@.len() ==> parts_view(#[trigger] old(seen)@[k]@)
            == path_components(old(acc)@[k]@),
    ensures
        final(seen)@.len() == final(acc)@.len(),
        forall|k: int| 0 <= k < final(acc)@.len() ==> parts_view(#[trigger] final(seen)@[k]@)
            == path_components(final(acc)@[k]@),
        strings_view(final(acc)@) == (match list_entry(line@) {
            Some(p) => if seen_path(strings_view(old(acc)@), p) {
                strings_view(old(acc)@)
            } else {
                strings_view(old(acc)@).push(p)
            },
            None => strings_view(old(acc)@),
        }),
{
    let (lo, hi) = trim_bounds(line);
    let ghost t = trim(line@);
    if hi == lo || line[lo] != '/' {
        return;
    }
    let path = string_from_chars(line, lo, hi);
    if !is_supported_audio(path.as_str()) {
        return;
    }
    let mut tv: Vec<char> = Vec::new();
    let mut j = lo;
    while j < hi
        invariant
            lo <= j <= hi <= line@.len(),
            tv@ == line@.subrange(lo as int, j as int),
        decreases hi - j,
    {
        tv.push(line[j]);
        j += 1;
    }
    let c = components(&tv);
    assert(list_entry(line@) == Some(t));
    let dup = already_seen(seen, &c);
    let ghost accv = strings_view(acc@);
    proof {
        if dup {
            let i = choose|i: int| 0 <= i < seen@.len() && parts_view(#[trigger] seen@[i]@) == parts_view(c@);
            assert(path_components(accv[i]) == path_components(t));
            assert(seen_path(accv, t));
        } else {
            if seen_path(accv, t) {
                let i = choose|i: int| 0 <= i < accv.len() && path_components(#[trigger] accv[i]) == path_components(t);
                assert(parts_view(seen@[i]@) == parts_view(c@));
                assert(false);
            }
        }
    }
    if !dup {
        acc.push(path);
        seen.push(c);
        assert(strings_view(acc@) =~= accv.push(t));
    }
}

/// The track paths of a playlist file's text (see [`spec_parse_track_list`]).
pub fn parse_track_list(text: &str) -> (r: Vec<String>)
    ensures
        strings_view(r@) == spec_parse_track_list(text@),
{
    let v = to_chars(text);
    let mut acc: Vec<String> = Vec::new();
    let mut seen: Vec<Vec<Vec<char>>> = Vec::new();
    let mut cur: Vec<char> = Vec::new();
    let mut i: usize = 0;
    proof {
        assert(v@.take(0) =~= Seq::<char>::empty());
        assert(strings_view(acc@) =~= Seq::<Seq<char>>::empty());
    }
    while i < v.len()
        invariant
            i <= v@.len(),
            split_at_char(v@.take(i as int), '\n').len() >= 1,
            cur@ == split_at_char(v@.take(i as int), '\n').last(),
            strings_view(acc@) == collect_entries(split_at_char(v@.take(i as int), '\n').drop_last()),
            seen@.len() == acc@.len(),
            forall|k: int| 0 <= k < acc@.len() ==> parts_view(#[trigger] seen@[k]@)
                == path_components(acc@[k]@),
        decreases v.len() - i,
    {
        let ghost before = split_at_char(v@.take(i as int), '\n');
        proof {
            lemma_split_step(v@, i as int, '\n');
        }
        if v[i] == '\n' {
            let ghost after = before.push(Seq::empty());
            assert(after.drop_last() =~= before);
            assert(before.drop_last() =~= before.take(before.len() - 1));
            take_line(&mut acc, &mut seen, &cur);
            cur = Vec::new();
            assert(cur@ =~= after.last());
        } else {
            let ghost after = before.update(before.len() - 1, before.last().push(v@[i as int]));
            assert(after.drop_last() =~= before.drop_last());
            cur.push(v[i]);
        }
        i += 1;
    }
    assert(v@.take(v@.len() as int) =~= v@);
    let ghost all = split_at_char(v@, '\n');
    assert(all.drop_last() =~= all.take(all.len() - 1));
    take_line(&mut acc, &mut seen, &cur);
    acc
}

/// The text of a playlist file listing `paths` (see [`spec_track_list_text`]).
pub fn track_list_text(paths: &[String]) -> (r: String)
    ensures
        r@ == spec_track_list_text(strings_view(paths@)),
{
    let mut out = String::new();
    let mut i: usize = 0;
    while i < paths.len()
        invariant
            i <= paths@.len(),
            out@ == spec_track_list_text(strings_view(paths@.take(i as int))),
        decreases paths.len() - i,
    {
        proof {
            assert(strings_view(paths@.take(i + 1)).drop_last() =~= strings_view(paths@.take(i as int)));
        }
        append_str(&mut out, paths[i].as_str());
        push_char(&mut out, '\n');
        i += 1;
    }
    assert(paths@.take(paths@.len() as int) =~= paths@);
    out
}

} // verus!
