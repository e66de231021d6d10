//! The playlist table: the text of each cell, the order of two rows under a
//! column, and the stable sort of the rows by a column.
//!
//! Every column orders its rows through a sort key, a sequence of integers
//! compared lexicographically: text by its characters, numbers by value, an
//! absent value before any present one, paths component by component.

use vstd::prelude::*;

use std::cmp::Ordering;

use crate::settings::ColumnId;
use crate::text::{append_dec, append_str, dec, owned, push_char, to_chars};

verus! {

// ---------------------------------------------------------------------------
// Lexicographic order of keys
// ---------------------------------------------------------------------------

/// Lexicographic comparison of two keys: -1, 0 or 1.
pub open spec fn lex(a: Seq<u64>, b: Seq<u64>) -> int
    decreases a.len(),
{
    if a.len() == 0 {
        if b.len() == 0 {
            0
        } else {
            -1
        }
    } else if b.len() == 0 {
        1
    } else if a[0] < b[0] {
        -1
    } else if a[0] > b[0] {
        1
    } else {
        lex(a.drop_first(), b.drop_first())
    }
}

pub proof fn lemma_lex_antisymmetric(a: Seq<u64>, b: Seq<u64>)
    ensures
        lex(a, b) == -lex(b, a),
        -1 <= lex(a, b) <= 1,
    decreases a.len(),
{
    if a.len() > 0 && b.len() > 0 && a[0] == b[0] {
        lemma_lex_antisymmetric(a.drop_first(), b.drop_first());
    }
}

pub proof fn lemma_lex_zero(a: Seq<u64>, b: Seq<u64>)
    ensures
        lex(a, b) == 0 <==> a == b,
    decreases a.len(),
{
    if a.len() > 0 && b.len() > 0 && a[0] == b[0] {
        lemma_lex_zero(a.drop_first(), b.drop_first());
        if a.drop_first() == b.drop_first() {
            assert(a =~= seq![a[0]] + a.drop_first());
            assert(b =~= seq![b[0]] + b.drop_first());
        }
    }
    if a.len() == 0 && b.len() == 0 {
        assert(a =~= b);
    }
    if a == b && a.len() > 0 {
        assert(a.drop_first() == b.drop_first());
    }
}

pub proof fn lemma_lex_transitive(a: Seq<u64>, b: Seq<u64>, c: Seq<u64>)
    requires
        lex(a, b) <= 0,
        lex(b, c) <= 0,
    ensures
        lex(a, c) <= 0,
        lex(a, b) < 0 || lex(b, c) < 0 ==> lex(a, c) < 0,
    decreases a.len(),
{
    if a.len() > 0 && b.len() > 0 && c.len() > 0 && a[0] == b[0] && b[0] == c[0] {
        lemma_lex_transitive(a.drop_first(), b.drop_first(), c.drop_first());
    }
}

/// Lexicographic comparison of two keys.
pub fn lex_order(a: &[u64], b: &[u64]) -> (r: i8)
    ensures
        r == lex(a@, b@),
{
    let mut i: usize = 0;
    assert(a@.skip(0) =~= a@);
    assert(b@.skip(0) =~= b@);
    while i < a.len() && i < b.len()
        invariant
            i <= a@.len(),
            i <= b@.len(),
            lex(a@, b@) == lex(a@.skip(i as int), b@.skip(i as int)),
        decreases a.len() - i,
    {
        if a[i] < b[i] {
            return -1;
        } else if a[i] > b[i] {
            return 1;
        }
        assert(a@.skip(i as int).drop_first() =~= a@.skip(i + 1));
        assert(b@.skip(i as int).drop_first() =~= b@.skip(i + 1));
        i += 1;
    }
    if i < b.len() {
        -1
    } else if i < a.len() {
        1
    } else {
        0
    }
}

// ---------------------------------------------------------------------------
// Keys of the cells
// ---------------------------------------------------------------------------

/// Key of a text: each character's code point plus one.
pub open spec fn text_key(s: Seq<char>) -> Seq<u64> {
    Seq::new(s.len(), |i: int| ((s[i] as u32) as int + 1) as u64)
}

/// Append the key of `s` to `k`.
pub fn push_text_key(k: &mut Vec<u64>, s: &str)
    ensures
        final(k)@ == old(k)@ + text_key(s@),
{
    let v = to_chars(s);
    let ghost start = k@;
    let mut i: usize = 0;
    while i < v.len()
        invariant
            i <= v@.len(),
            v@ == s@,
            k@ == start + text_key(s@).take(i as int),
        decreases v.len() - i,
    {
        let c = v[i] as u32;
        k.push(c as u64 + 1);
        i += 1;
        assert(k@ =~= start + text_key(s@).take(i as int));
    }
    assert(text_key(s@).take(i as int) =~= text_key(s@));
}


// ---------------------------------------------------------------------------
// Rows
// ---------------------------------------------------------------------------

/// One component of a file path, as `std::path::Path::components` yields it
/// for a Unix path.
pub enum PathPart {
    RootDir,
    CurDir,
    ParentDir,
    Normal(String),
}

/// What the table shows and sorts of one track.
pub struct TrackRow {
    pub title: String,
    pub artist: Option<String>,
    pub album: Option<String>,
    pub genre: Option<String>,
    /// Track number in its album (0 when unknown).
    pub track_number: u32,
    pub year: String,
    pub format: String,
    /// Average bitrate in kbps (0 when unknown).
    pub bitrate: u32,
    pub bit_depth: String,
    /// Sample rate in Hz (0 when unknown).
    pub sample_rate: u32,
    /// The duration rounded to whole seconds, when it is known, finite and
    /// not negative.
    pub duration_secs: Option<u64>,
    /// An integer that orders as the duration does (absent when unknown).
    pub duration_order: Option<u64>,
    /// The components of the file's path.
    pub path_parts: Vec<PathPart>,
    /// The file's path as text.
    pub path_text: String,
}

/// Key of a path component: its kind, in std's order of components (root,
/// current directory, parent directory, named), then for a named component
/// its text and a closing 0 that sorts before any character.
pub open spec fn part_key(p: PathPart) -> Seq<u64> {
    match p {
        PathPart::RootDir => seq![0u64],
        PathPart::CurDir => seq![1u64],
        PathPart::ParentDir => seq![2u64],
        PathPart::Normal(name) => seq![3u64] + text_key(name@) + seq![0u64],
    }
}

/// Key of a path: the keys of its components one after the other, so that
/// paths order component by component.
pub open spec fn path_key(parts: Seq<PathPart>) -> Seq<u64>
    decreases parts.len(),
{
    if parts.len() == 0 {
        Seq::empty()
    } else {
        path_key(parts.drop_last()) + part_key(parts.last())
    }
}

/// The file name of a path: its last component when that is a name, else
/// empty.
pub open spec fn file_name_of(parts: Seq<PathPart>) -> Seq<char> {
    if parts.len() > 0 {
        match parts.last() {
            PathPart::Normal(name) => name@,
            _ => Seq::empty(),
        }
    } else {
        Seq::empty()
    }
}

/// The text of an optional field; absent reads as empty.
pub open spec fn opt_text(o: Option<String>) -> Seq<char> {
    match o {
        Some(t) => t@,
        None => Seq::empty(),
    }
}

/// Sort key of a row under a column: text by characters, numbers by value,
/// an unknown duration before every known one, paths by components. The
/// now-playing and index columns give every row the same key.
pub open spec fn row_key(r: TrackRow, col: ColumnId) -> Seq<u64> {
    match col {
        ColumnId::NowPlaying => Seq::empty(),
        ColumnId::Index => Seq::empty(),
        ColumnId::TrackNumber => seq![r.track_number as u64],
        ColumnId::Title => text_key(r.title@),
        ColumnId::Artist => text_key(opt_text(r.artist)),
        ColumnId::Album => text_key(opt_text(r.album)),
        ColumnId::Genre => text_key(opt_text(r.genre)),
        ColumnId::Year => text_key(r.year@),
        ColumnId::Format => text_key(r.format@),
        ColumnId::Bitrate => seq![r.bitrate as u64],
        ColumnId::BitDepth => text_key(r.bit_depth@),
        ColumnId::SampleRate => seq![r.sample_rate as u64],
        ColumnId::Duration => match r.duration_order {
            Some(d) => seq![d],
            None => Seq::empty(),
        },
        ColumnId::FileName => text_key(file_name_of(r.path_parts@)),
        ColumnId::FilePath => path_key(r.path_parts@),
    }
}

fn push_opt_text_key(k: &mut Vec<u64>, o: &Option<String>)
    ensures
        final(k)@ == old(k)@ + text_key(opt_text(*o)),
{
    match o {
        Some(t) => push_text_key(k, t.as_str()),
        None => {
            assert(text_key(Seq::<char>::empty()) =~= Seq::<u64>::empty());
            assert(k@ + Seq::<u64>::empty() =~= k@);
        },
    }
}

fn push_path_key(k: &mut Vec<u64>, parts: &[PathPart])
    ensures
        final(k)@ == old(k)@ + path_key(parts@),
{
    let ghost start = k@;
    let mut i: usize = 0;
    assert(parts@.take(0) =~= Seq::<PathPart>::empty());
    assert(start + Seq::<u64>::empty() =~= start);
    while i < parts.len()
        invariant
            i <= parts@.len(),
            k@ == start + path_key(parts@.take(i as int)),
        decreases parts.len() - i,
    {
        let ghost before = k@;
        match &parts[i] {
            PathPart::RootDir => k.push(0),
            PathPart::CurDir => k.push(1),
            PathPart::ParentDir => k.push(2),
            PathPart::Normal(name) => {
                k.push(3);
                push_text_key(k, name.as_str());
                k.push(0);
            },
        }
        assert(k@ =~= before + part_key(parts@[i as int]));
        assert(parts@.take(i + 1).drop_last() =~= parts@.take(i as int));
        i += 1;
        assert(k@ =~= start + path_key(parts@.take(i as int)));
    }
    assert(parts@.take(i as int) =~= parts@);
}

/// The file name of a path (see [`file_name_of`]).
pub fn file_name(parts: &[PathPart]) -> (r: String)
    ensures
        r@ == file_name_of(parts@),
{
    if parts.len() == 0 {
        return String::new();
    }
    match &parts[parts.len() - 1] {
        PathPart::Normal(name) => owned(name.as_str()),
        _ => String::new(),
    }
}

/// Sort key of a row under a column (see [`row_key`]).
pub fn row_key_of(r: &TrackRow, col: ColumnId) -> (k: Vec<u64>)
    ensures
        k@ == row_key(*r, col),
{
    let mut k: Vec<u64> = Vec::new();
    assert(k@ =~= Seq::<u64>::empty());
    match col {
        ColumnId::NowPlaying => {},
        ColumnId::Index => {},
        ColumnId::TrackNumber => k.push(r.track_number as u64),
        ColumnId::Title => push_text_key(&mut k, r.title.as_str()),
        ColumnId::Artist => push_opt_text_key(&mut k, &r.artist),
        ColumnId::Album => push_opt_text_key(&mut k, &r.album),
        ColumnId::Genre => push_opt_text_key(&mut k, &r.genre),
        ColumnId::Year => push_text_key(&mut k, r.year.as_str()),
        ColumnId::Format => push_text_key(&mut k, r.format.as_str()),
        ColumnId::Bitrate => k.push(r.bitrate as u64),
        ColumnId::BitDepth => push_text_key(&mut k, r.bit_depth.as_str()),
        ColumnId::SampleRate => k.push(r.sample_rate as u64),
        ColumnId::Duration => match r.duration_order {
            Some(d) => k.push(d),
            None => {},
        },
        ColumnId::FileName => {
            let name = file_name(r.path_parts.as_slice());
            push_text_key(&mut k, name.as_str());
        },
        ColumnId::FilePath => push_path_key(&mut k, r.path_parts.as_slice()),
    }
    k
}


// ---------------------------------------------------------------------------
// What each column orders by
// ---------------------------------------------------------------------------

/// Lexicographic order of two texts by their characters: -1, 0 or 1; a text
/// that is a proper prefix of the other comes first.
pub open spec fn char_order(x: Seq<char>, y: Seq<char>) -> int
    decreases x.len(),
{
    if x.len() == 0 {
        if y.len() == 0 {
            0
        } else {
            -1
        }
    } else if y.len() == 0 {
        1
    } else if (x[0] as u32) < (y[0] as u32) {
        -1
    } else if (x[0] as u32) > (y[0] as u32) {
        1
    } else {
        char_order(x.drop_first(), y.drop_first())
    }
}

/// Order of two numbers: -1, 0 or 1.
pub open spec fn num_order(a: int, b: int) -> int {
    if a < b {
        -1
    } else if a > b {
        1
    } else {
        0
    }
}

/// Order of two optional numbers, an absent one first.
pub open spec fn opt_num_order(a: Option<u64>, b: Option<u64>) -> int {
    match (a, b) {
        (None, None) => 0,
        (None, Some(_)) => -1,
        (Some(_), None) => 1,
        (Some(x), Some(y)) => num_order(x as int, y as int),
    }
}

proof fn lemma_text_key_order(x: Seq<char>, y: Seq<char>)
    ensures
        lex(text_key(x), text_key(y)) == char_order(x, y),
    decreases x.len(),
{
    if x.len() > 0 && y.len() > 0 {
        assert(text_key(x)[0] == ((x[0] as u32) as int + 1) as u64);
        assert(text_key(y)[0] == ((y[0] as u32) as int + 1) as u64);
        if (x[0] as u32) == (y[0] as u32) {
            assert(text_key(x).drop_first() =~= text_key(x.drop_first()));
            assert(text_key(y).drop_first() =~= text_key(y.drop_first()));
            lemma_text_key_order(x.drop_first(), y.drop_first());
        }
    }
}

/// Each column orders two rows by that column's own field, and by nothing
/// else: text columns by their characters (an absent artist, album or genre
/// reads as empty), number columns by value, the duration with an unknown
/// one first, the file name by the last component of the path; the
/// now-playing and index columns leave every pair tied.
pub proof fn law_columns_order_by_their_field(a: TrackRow, b: TrackRow)
    ensures
        lex(row_key(a, ColumnId::Title), row_key(b, ColumnId::Title)) == char_order(a.title@, b.title@),
        lex(row_key(a, ColumnId::Artist), row_key(b, ColumnId::Artist)) == char_order(
            opt_text(a.artist),
            opt_text(b.artist),
        ),
        lex(row_key(a, ColumnId::Album), row_key(b, ColumnId::Album)) == char_order(
            opt_text(a.album),
            opt_text(b.album),
        ),
        lex(row_key(a, ColumnId::Genre), row_key(b, ColumnId::Genre)) == char_order(
            opt_text(a.genre),
            opt_text(b.genre),
        ),
        lex(row_key(a, ColumnId::Year), row_key(b, ColumnId::Year)) == char_order(a.year@, b.year@),
        lex(row_key(a, ColumnId::Format), row_key(b, ColumnId::Format)) == char_order(a.format@, b.format@),
        lex(row_key(a, ColumnId::BitDepth), row_key(b, ColumnId::BitDepth)) == char_order(
            a.bit_depth@,
            b.bit_depth@,
        ),
        lex(row_key(a, ColumnId::FileName), row_key(b, ColumnId::FileName)) == char_order(
            file_name_of(a.path_parts@),
            file_name_of(b.path_parts@),
        ),
        lex(row_key(a, ColumnId::TrackNumber), row_key(b, ColumnId::TrackNumber)) == num_order(
            a.track_number as int,
            b.track_number as int,
        ),
        lex(row_key(a, ColumnId::Bitrate), row_key(b, ColumnId::Bitrate)) == num_order(
            a.bitrate as int,
            b.bitrate as int,
        ),
        lex(row_key(a, ColumnId::SampleRate), row_key(b, ColumnId::SampleRate)) == num_order(
            a.sample_rate as int,
            b.sample_rate as int,
        ),
        lex(row_key(a, ColumnId::Duration), row_key(b, ColumnId::Duration)) == opt_num_order(
            a.duration_order,
            b.duration_order,
        ),
        lex(row_key(a, ColumnId::NowPlaying), row_key(b, ColumnId::NowPlaying)) == 0,
        lex(row_key(a, ColumnId::Index), row_key(b, ColumnId::Index)) == 0,
{
    lemma_text_key_order(a.title@, b.title@);
    lemma_text_key_order(opt_text(a.artist), opt_text(b.artist));
    lemma_text_key_order(opt_text(a.album), opt_text(b.album));
    lemma_text_key_order(opt_text(a.genre), opt_text(b.genre));
    lemma_text_key_order(a.year@, b.year@);
    lemma_text_key_order(a.format@, b.format@);
    lemma_text_key_order(a.bit_depth@, b.bit_depth@);
    lemma_text_key_order(file_name_of(a.path_parts@), file_name_of(b.path_parts@));
    let e = Seq::<u64>::empty();
    assert(lex(e, e) == 0);
    assert(lex(seq![a.track_number as u64], seq![b.track_number as u64]) == num_order(
        a.track_number as int,
        b.track_number as int,
    )) by {
        assert(seq![a.track_number as u64].drop_first() =~= e);
        assert(seq![b.track_number as u64].drop_first() =~= e);
    }
    assert(lex(seq![a.bitrate as u64], seq![b.bitrate as u64]) == num_order(a.bitrate as int, b.bitrate as int)) by {
        assert(seq![a.bitrate as u64].drop_first() =~= e);
        assert(seq![b.bitrate as u64].drop_first() =~= e);
    }
    assert(lex(seq![a.sample_rate as u64], seq![b.sample_rate as u64]) == num_order(
        a.sample_rate as int,
        b.sample_rate as int,
    )) by {
        assert(seq![a.sample_rate as u64].drop_first() =~= e);
        assert(seq![b.sample_rate as u64].drop_first() =~= e);
    }
    match (a.duration_order, b.duration_order) {
        (Some(x), Some(y)) => {
            assert(seq![x].drop_first() =~= e);
            assert(seq![y].drop_first() =~= e);
        },
        _ => {},
    }
}

/// Sorting by the album column puts the rows in album order: in the result
/// no row comes before another whose album text orders first, and rows with
/// the same album keep their order.
pub proof fn law_album_sort(rows: Seq<TrackRow>, order: Seq<usize>, desc: bool)
    requires
        sorted_by(order, rows_keys(rows, ColumnId::Album), desc),
        forall|i: int| 0 <= i < order.len() ==> #[trigger] order[i] < rows.len(),
    ensures
        forall|i: int, j: int|
            #![trigger order[i], order[j]]
            0 <= i < j < order.len() ==> {
                let x = opt_text(rows[order[i] as int].album);
                let y = opt_text(rows[order[j] as int].album);
                &&& !desc ==> char_order(x, y) <= 0
                &&& desc ==> char_order(y, x) <= 0
                &&& x == y ==> order[i] < order[j]
            },
{
    let ks = rows_keys(rows, ColumnId::Album);
    assert forall|i: int, j: int| #![trigger order[i], order[j]] 0 <= i < j < order.len() implies {
        let x = opt_text(rows[order[i] as int].album);
        let y = opt_text(rows[order[j] as int].album);
        &&& !desc ==> char_order(x, y) <= 0
        &&& desc ==> char_order(y, x) <= 0
        &&& x == y ==> order[i] < order[j]
    } by {
        let p = order[i] as int;
        let q = order[j] as int;
        assert(goes_before(ks, desc, p, q));
        law_columns_order_by_their_field(rows[p], rows[q]);
        law_columns_order_by_their_field(rows[q], rows[p]);
        lemma_text_key_order(opt_text(rows[p].album), opt_text(rows[q].album));
        if opt_text(rows[p].album) == opt_text(rows[q].album) {
            lemma_lex_zero(ks[p], ks[q]);
            lemma_lex_zero(ks[q], ks[p]);
        }
    }
}

// ---------------------------------------------------------------------------
// Sorting the rows
// ---------------------------------------------------------------------------

/// The keys of all rows under a column.
pub open spec fn rows_keys(rows: Seq<TrackRow>, col: ColumnId) -> Seq<Seq<u64>> {
    Seq::new(rows.len(), |i: int| row_key(rows[i], col))
}

/// Key order of rows `x` and `y`, reversed when sorting in descending order.
pub open spec fn key_sign(keys: Seq<Seq<u64>>, desc: bool, x: int, y: int) -> int {
    if desc {
        lex(keys[y], keys[x])
    } else {
        lex(keys[x], keys[y])
    }
}

/// Row `x` comes before row `y` in the stable sort: its key comes first, or
/// the keys tie and `x` was first already.
pub open spec fn goes_before(keys: Seq<Seq<u64>>, desc: bool, x: int, y: int) -> bool {
    key_sign(keys, desc, x, y) < 0 || (key_sign(keys, desc, x, y) == 0 && x < y)
}

/// Each earlier entry of `order` goes before each later one.
pub open spec fn sorted_by(order: Seq<usize>, keys: Seq<Seq<u64>>, desc: bool) -> bool {
    forall|i: int, j: int|
        0 <= i < j < order.len() ==> goes_before(keys, desc, #[trigger] order[i] as int, #[trigger] order[j] as int)
}

proof fn lemma_key_sign_antisymmetric(keys: Seq<Seq<u64>>, desc: bool, x: int, y: int)
    ensures
        key_sign(keys, desc, x, y) == -key_sign(keys, desc, y, x),
{
    lemma_lex_antisymmetric(keys[x], keys[y]);
}

/// Of two different rows exactly one goes before the other.
pub proof fn lemma_goes_before_total(keys: Seq<Seq<u64>>, desc: bool, x: int, y: int)
    requires
        x != y,
    ensures
        goes_before(keys, desc, x, y) != goes_before(keys, desc, y, x),
{
    lemma_key_sign_antisymmetric(keys, desc, x, y);
}

/// Going before is transitive.
pub proof fn lemma_goes_before_transitive(keys: Seq<Seq<u64>>, desc: bool, x: int, y: int, z: int)
    requires
        goes_before(keys, desc, x, y),
        goes_before(keys, desc, y, z),
    ensures
        goes_before(keys, desc, x, z),
{
    if desc {
        lemma_lex_transitive(keys[z], keys[y], keys[x]);
    } else {
        lemma_lex_transitive(keys[x], keys[y], keys[z]);
    }
}

/// An order of `0..n` holds every value below `n`.
proof fn lemma_order_contains(s: Seq<usize>, n: nat, v: usize)
    requires
        crate::queue::is_order_of(s, n),
        v < n,
    ensures
        s.contains(v),
{
    let t = s.map_values(|x: usize| x as int);
    assert forall|i: int, j: int| 0 <= i < t.len() && 0 <= j < t.len() && i != j implies t[i] != t[j] by {
        assert(s[i] != s[j]);
    }
    assert(t.no_duplicates());
    t.unique_seq_to_set();
    vstd::set_lib::lemma_int_range(0, n as int);
    let r = vstd::set_lib::set_int_range(0, n as int);
    assert forall|x: int| t.to_set().contains(x) implies r.contains(x) by {
        assert(t.contains(x));
        let i = choose|i: int| 0 <= i < t.len() && t[i] == x;
        assert(s[i] < n);
    }
    vstd::seq_lib::seq_to_set_is_finite(t);
    vstd::set_lib::lemma_subset_equality(t.to_set(), r);
    assert(r.contains(v as int));
    assert(t.to_set().contains(v as int));
    assert(t.contains(v as int));
    let i = choose|i: int| 0 <= i < t.len() && t[i] == v as int;
    assert(s[i] == v);
}

proof fn lemma_sorted_prefix(a: Seq<usize>, b: Seq<usize>, keys: Seq<Seq<u64>>, desc: bool, k: nat)
    requires
        crate::queue::is_order_of(a, keys.len()),
        crate::queue::is_order_of(b, keys.len()),
        sorted_by(a, keys, desc),
        sorted_by(b, keys, desc),
        k <= a.len(),
    ensures
        forall|j: int| 0 <= j < k ==> a[j] == b[j],
    decreases k,
{
    if k > 0 {
        lemma_sorted_prefix(a, b, keys, desc, (k - 1) as nat);
        let i = k - 1;
        if a[i] != b[i] {
            lemma_order_contains(b, keys.len(), a[i]);
            let p = choose|p: int| 0 <= p < b.len() && b[p] == a[i];
            lemma_order_contains(a, keys.len(), b[i]);
            let q = choose|q: int| 0 <= q < a.len() && a[q] == b[i];
            if p < i {
                assert(a[p] == b[p]);
            }
            if q < i {
                assert(a[q] == b[q]);
            }
            assert(goes_before(keys, desc, b[i] as int, b[p] as int));
            assert(goes_before(keys, desc, a[i] as int, a[q] as int));
            lemma_goes_before_total(keys, desc, a[i] as int, b[i] as int);
        }
    }
}

/// A stable sort has one result: two orders of the rows that are both sorted
/// (each earlier row going before each later one) are the same order.
pub proof fn law_sorted_order_unique(a: Seq<usize>, b: Seq<usize>, keys: Seq<Seq<u64>>, desc: bool)
    requires
        crate::queue::is_order_of(a, keys.len()),
        crate::queue::is_order_of(b, keys.len()),
        sorted_by(a, keys, desc),
        sorted_by(b, keys, desc),
    ensures
        a == b,
{
    lemma_sorted_prefix(a, b, keys, desc, a.len());
    assert(a =~= b);
}

/// When no two rows have the same key, sorting in descending order gives
/// the ascending order reversed.
pub proof fn law_descending_reverses_ascending(
    a: Seq<usize>,
    b: Seq<usize>,
    keys: Seq<Seq<u64>>,
)
    requires
        crate::queue::is_order_of(a, keys.len()),
        crate::queue::is_order_of(b, keys.len()),
        sorted_by(a, keys, false),
        sorted_by(b, keys, true),
        forall|x: int, y: int| 0 <= x < keys.len() && 0 <= y < keys.len() && x != y ==> keys[x] != keys[y],
    ensures
        b == a.reverse(),
{
    let r = a.reverse();
    let n = a.len();
    assert forall|i: int, j: int| 0 <= i < r.len() && 0 <= j < r.len() && i != j implies r[i] != r[j] by {
        assert(a[n - 1 - i] != a[n - 1 - j]);
    }
    assert forall|i: int| 0 <= i < r.len() implies #[trigger] r[i] < keys.len() by {
        assert(a[n - 1 - i] < keys.len());
    }
    assert forall|i: int, j: int| 0 <= i < j < r.len() implies goes_before(keys, true, #[trigger] r[i] as int, #[trigger] r[j] as int) by {
        let x = r[i] as int;
        let y = r[j] as int;
        assert(x == a[n - 1 - i] && y == a[n - 1 - j]);
        assert(goes_before(keys, false, a[n - 1 - j] as int, a[n - 1 - i] as int));
        assert(x != y);
        lemma_lex_zero(keys[y], keys[x]);
    }
    law_sorted_order_unique(r, b, keys, true);
}

/// The keys of the rows, computed once.
fn keys_of(rows: &[TrackRow], col: ColumnId) -> (r: Vec<Vec<u64>>)
    ensures
        r@.len() == rows@.len(),
        forall|i: int| 0 <= i < rows@.len() ==> (#[trigger] r@[i])@ == row_key(rows@[i], col),
{
    let mut r: Vec<Vec<u64>> = Vec::new();
    let mut i: usize = 0;
    while i < rows.len()
        invariant
            i <= rows@.len(),
            r@.len() == i,
            forall|j: int| 0 <= j < i ==> (#[trigger] r@[j])@ == row_key(rows@[j], col),
        decreases rows.len() - i,
    {
        r.push(row_key_of(&rows[i], col));
        i += 1;
    }
    r
}

/// Whether the new row `i` goes before the placed row `y` (`y < i`).
fn new_goes_before(keys: &Vec<Vec<u64>>, desc: bool, i: usize, y: usize) -> (r: bool)
    requires
        y < i < keys@.len(),
    ensures
        r == goes_before(keys@.map_values(|k: Vec<u64>| k@), desc, i as int, y as int),
{
    let s = if desc {
        lex_order(keys[y].as_slice(), keys[i].as_slice())
    } else {
        lex_order(keys[i].as_slice(), keys[y].as_slice())
    };
    s < 0
}

/// The order of the rows sorted by `col` (descending when `desc`), stable:
/// rows whose keys tie keep their order. Entry `k` of the result is the
/// position of the row that goes to position `k`.
pub fn sort_order(rows: &[TrackRow], col: ColumnId, desc: bool) -> (r: Vec<usize>)
    ensures
        crate::queue::is_order_of(r@, rows@.len()),
        sorted_by(r@, rows_keys(rows@, col), desc),
{
    let keys = keys_of(rows, col);
    let ghost ks = keys@.map_values(|k: Vec<u64>| k@);
    assert(ks =~= rows_keys(rows@, col));
    let mut order: Vec<usize> = Vec::new();
    let mut i: usize = 0;
    while i < rows.len()
        invariant
            i <= rows@.len(),
            keys@.len() == rows@.len(),
            ks == keys@.map_values(|k: Vec<u64>| k@),
            ks == rows_keys(rows@, col),
            crate::queue::is_order_of(order@, i as nat),
            sorted_by(order@, ks, desc),
        decreases rows.len() - i,
    {
        // The first place whose row the new row goes before.
        let mut lo: usize = 0;
        let mut hi: usize = order.len();
        while lo < hi
            invariant
                0 <= lo <= hi <= order@.len(),
                i < keys@.len(),
                ks == keys@.map_values(|k: Vec<u64>| k@),
                crate::queue::is_order_of(order@, i as nat),
                sorted_by(order@, ks, desc),
                forall|p: int| 0 <= p < lo ==> !goes_before(ks, desc, i as int, #[trigger] order@[p] as int),
                forall|p: int| hi <= p < order@.len() ==> goes_before(ks, desc, i as int, #[trigger] order@[p] as int),
            decreases hi - lo,
        {
            let mid = lo + (hi - lo) / 2;
            if new_goes_before(&keys, desc, i, order[mid]) {
                proof {
                    assert forall|p: int| mid <= p < order@.len() implies goes_before(ks, desc, i as int, #[trigger] order@[p] as int) by {
                        if p > mid {
                            lemma_goes_before_transitive(ks, desc, i as int, order@[mid as int] as int, order@[p] as int);
                        }
                    }
                }
                hi = mid;
            } else {
                proof {
                    assert forall|p: int| 0 <= p <= mid implies !goes_before(ks, desc, i as int, #[trigger] order@[p] as int) by {
                        if p < mid && goes_before(ks, desc, i as int, order@[p] as int) {
                            lemma_goes_before_transitive(ks, desc, i as int, order@[p] as int, order@[mid as int] as int);
                        }
                    }
                }
                lo = mid + 1;
            }
        }
        let ghost old_order = order@;
        order.insert(lo, i);
        proof {
            let o = order@;
            assert(o == old_order.insert(lo as int, i));
            assert forall|a: int, b: int| 0 <= a < b < o.len() implies goes_before(ks, desc, #[trigger] o[a] as int, #[trigger] o[b] as int) by {
                if b == lo {
                    assert(o[a] == old_order[a]);
                    assert(old_order[a] < i);
                    lemma_goes_before_total(ks, desc, i as int, old_order[a] as int);
                } else if a == lo {
                    assert(o[b] == old_order[b - 1]);
                } else {
                    let a0 = if a < lo { a } else { a - 1 };
                    let b0 = if b < lo { b } else { b - 1 };
                    assert(o[a] == old_order[a0]);
                    assert(o[b] == old_order[b0]);
                    assert(a0 < b0);
                }
            }
            assert forall|a: int| 0 <= a < o.len() implies #[trigger] o[a] < i + 1 by {
                if a < lo {
                    assert(o[a] == old_order[a]);
                } else if a > lo {
                    assert(o[a] == old_order[a - 1]);
                }
            }
            assert forall|a: int, b: int| 0 <= a < b < o.len() implies o[a] != o[b] by {
                if a == lo {
                    assert(o[b] == old_order[b - 1]);
                } else if b == lo {
                    assert(o[a] == old_order[a]);
                } else {
                    let a0 = if a < lo { a } else { a - 1 };
                    let b0 = if b < lo { b } else { b - 1 };
                    assert(o[a] == old_order[a0]);
                    assert(o[b] == old_order[b0]);
                }
            }
            assert(o.no_duplicates());
        }
        i += 1;
    }
    order
}


// ---------------------------------------------------------------------------
// Cell texts
// ---------------------------------------------------------------------------

/// `n` with at least two digits (what `{:02}` prints).
pub open spec fn pad2(n: nat) -> Seq<char> {
    if n < 10 {
        seq!['0'] + dec(n)
    } else {
        dec(n)
    }
}

/// A duration of `total` seconds as `m:ss`, or `h:mm:ss` from an hour on.
pub open spec fn clock_text(total: nat) -> Seq<char> {
    let h = total / 3600;
    let m = (total % 3600) / 60;
    let s = total % 60;
    if h > 0 {
        dec(h) + seq![':'] + pad2(m) + seq![':'] + pad2(s)
    } else {
        dec(m) + seq![':'] + pad2(s)
    }
}

/// The text of a duration in whole seconds; `--:--` when unknown.
pub open spec fn duration_cell(secs: Option<u64>) -> Seq<char> {
    match secs {
        Some(t) => clock_text(t as nat),
        None => "--:--"@,
    }
}

fn append_pad2(s: &mut String, n: u64)
    ensures
        final(s)@ == old(s)@ + pad2(n as nat),
{
    if n < 10 {
        push_char(s, '0');
    }
    append_dec(s, n);
    assert(final(s)@ =~= old(s)@ + pad2(n as nat));
}

/// The text of a duration in whole seconds (see [`duration_cell`]).
pub fn duration_text(secs: Option<u64>) -> (r: String)
    ensures
        r@ == duration_cell(secs),
{
    match secs {
        None => owned("--:--"),
        Some(t) => {
            let h = t / 3600;
            let m = (t % 3600) / 60;
            let sec = t % 60;
            let mut out = String::new();
            if h > 0 {
                append_dec(&mut out, h);
                push_char(&mut out, ':');
                append_pad2(&mut out, m);
            } else {
                append_dec(&mut out, m);
            }
            push_char(&mut out, ':');
            append_pad2(&mut out, sec);
            assert(out@ =~= clock_text(t as nat));
            out
        },
    }
}

/// `n` followed by `unit` when `n` is positive, else empty.
pub open spec fn count_cell(n: u32, unit: Seq<char>) -> Seq<char> {
    if n > 0 {
        dec(n as nat) + unit
    } else {
        Seq::empty()
    }
}

/// What the cell of a row shows under a column.
pub open spec fn cell_text(r: TrackRow, col: ColumnId) -> Seq<char> {
    match col {
        ColumnId::NowPlaying => Seq::empty(),
        ColumnId::Index => Seq::empty(),
        ColumnId::TrackNumber => count_cell(r.track_number, Seq::empty()),
        ColumnId::Title => r.title@,
        ColumnId::Artist => opt_text(r.artist),
        ColumnId::Album => opt_text(r.album),
        ColumnId::Genre => opt_text(r.genre),
        ColumnId::Year => r.year@,
        ColumnId::Format => r.format@,
        ColumnId::Bitrate => count_cell(r.bitrate, " kbps"@),
        ColumnId::BitDepth => r.bit_depth@,
        ColumnId::SampleRate => count_cell(r.sample_rate, " Hz"@),
        ColumnId::Duration => duration_cell(r.duration_secs),
        ColumnId::FileName => file_name_of(r.path_parts@),
        ColumnId::FilePath => r.path_text@,
    }
}

fn opt_string(o: &Option<String>) -> (r: String)
    ensures
        r@ == opt_text(*o),
{
    match o {
        Some(t) => owned(t.as_str()),
        None => String::new(),
    }
}

fn count_text(n: u32, unit: &str) -> (r: String)
    ensures
        r@ == count_cell(n, unit@),
{
    let mut s = String::new();
    if n > 0 {
        append_dec(&mut s, n as u64);
        append_str(&mut s, unit);
    }
    s
}

/// What the cell of a row shows under a column (see [`cell_text`]).
pub fn sort_rows_text(r: &TrackRow, col: ColumnId) -> (t: String)
    ensures
        t@ == cell_text(*r, col),
{
    match col {
        ColumnId::NowPlaying => String::new(),
        ColumnId::Index => String::new(),
        ColumnId::TrackNumber => {
            proof {
                reveal_strlit("");
            }
            count_text(r.track_number, "")
        },
        ColumnId::Title => owned(r.title.as_str()),
        ColumnId::Artist => opt_string(&r.artist),
        ColumnId::Album => opt_string(&r.album),
        ColumnId::Genre => opt_string(&r.genre),
        ColumnId::Year => owned(r.year.as_str()),
        ColumnId::Format => owned(r.format.as_str()),
        ColumnId::Bitrate => count_text(r.bitrate, " kbps"),
        ColumnId::BitDepth => owned(r.bit_depth.as_str()),
        ColumnId::SampleRate => count_text(r.sample_rate, " Hz"),
        ColumnId::Duration => duration_text(r.duration_secs),
        ColumnId::FileName => file_name(r.path_parts.as_slice()),
        ColumnId::FilePath => owned(r.path_text.as_str()),
    }
}


// ---------------------------------------------------------------------------
// Comparing two rows, choosing the direction
// ---------------------------------------------------------------------------

/// -1, 0 or 1 for less, equal, greater.
pub open spec fn ordering_sign(o: Ordering) -> int {
    match o {
        Ordering::Less => -1,
        Ordering::Equal => 0,
        Ordering::Greater => 1,
    }
}

/// Order of two rows under a column, ascending: their keys compared.
pub fn sort_rows_compare(a: &TrackRow, b: &TrackRow, col: ColumnId) -> (r: Ordering)
    ensures
        ordering_sign(r) == lex(row_key(*a, col), row_key(*b, col)),
{
    let ka = row_key_of(a, col);
    let kb = row_key_of(b, col);
    let o = lex_order(ka.as_slice(), kb.as_slice());
    proof {
        lemma_lex_antisymmetric(ka@, kb@);
    }
    if o < 0 {
        Ordering::Less
    } else if o > 0 {
        Ordering::Greater
    } else {
        Ordering::Equal
    }
}

/// Direction of a sort requested on `col`: sorting again by the column the
/// table is sorted by flips the direction; another column sorts ascending.
pub fn sort_direction(sorted_col: Option<ColumnId>, sort_desc: bool, col: ColumnId) -> (desc: bool)
    ensures
        desc == (sorted_col == Some(col) && !sort_desc),
{
    match sorted_col {
        Some(c) => c == col && !sort_desc,
        None => false,
    }
}

/// The new order of the rows when the table is sorted by `col`; the index
/// column keeps the table as it is.
pub fn sort_for_column(rows: &[TrackRow], col: ColumnId, desc: bool) -> (r: Option<Vec<usize>>)
    ensures
        r is None <==> col == ColumnId::Index,
        r matches Some(o) ==> crate::queue::is_order_of(o@, rows@.len()) && sorted_by(
            o@,
            rows_keys(rows@, col),
            desc,
        ),
{
    if col == ColumnId::Index {
        None
    } else {
        Some(sort_order(rows, col, desc))
    }
}

} // verus!
