//! Track metadata: the tag record, how container tags fill it (first value
//! wins, totals take the maximum), and the small value parsers involved.

use vstd::prelude::*;

use crate::text::{
    ascii_lower_seq, chars_eq, digits_value, is_digit, lower_chars, parse_u32_chars,
    spec_parse_u32, to_chars, trim, trim_bounds, trimmed,
};

verus! {

/// Tag values of a track.
#[derive(Debug, Clone)]
pub struct Tags {
    pub title: Option<String>,
    pub artist: Option<String>,
    pub album: Option<String>,
    pub album_artist: Option<String>,
    pub genre: Option<String>,
    pub year: Option<String>,
    pub track_number: u32,
    pub track_total: u32,
    pub disc_number: u32,
    pub disc_total: u32,
}

/// The tag record with its strings as character sequences.
pub struct TagsView {
    pub title: Option<Seq<char>>,
    pub artist: Option<Seq<char>>,
    pub album: Option<Seq<char>>,
    pub album_artist: Option<Seq<char>>,
    pub genre: Option<Seq<char>>,
    pub year: Option<Seq<char>>,
    pub track_number: u32,
    pub track_total: u32,
    pub disc_number: u32,
    pub disc_total: u32,
}

pub open spec fn opt_view(o: Option<String>) -> Option<Seq<char>> {
    match o {
        Some(s) => Some(s@),
        None => None,
    }
}

impl View for Tags {
    type V = TagsView;

    open spec fn view(&self) -> TagsView {
        TagsView {
            title: opt_view(self.title),
            artist: opt_view(self.artist),
            album: opt_view(self.album),
            album_artist: opt_view(self.album_artist),
            genre: opt_view(self.genre),
            year: opt_view(self.year),
            track_number: self.track_number,
            track_total: self.track_total,
            disc_number: self.disc_number,
            disc_total: self.disc_total,
        }
    }
}

/// The empty tag record.
pub open spec fn empty_tags() -> TagsView {
    TagsView {
        title: None,
        artist: None,
        album: None,
        album_artist: None,
        genre: None,
        year: None,
        track_number: 0,
        track_total: 0,
        disc_number: 0,
        disc_total: 0,
    }
}

impl Tags {
    /// No tag values.
    pub fn new() -> (r: Tags)
        ensures
            r@ == empty_tags(),
    {
        Tags {
            title: None,
            artist: None,
            album: None,
            album_artist: None,
            genre: None,
            year: None,
            track_number: 0,
            track_total: 0,
            disc_number: 0,
            disc_total: 0,
        }
    }
}

impl Default for Tags {
    fn default() -> (r: Tags)
        ensures
            r@ == empty_tags(),
    {
        Tags::new()
    }
}

/// Static information about an opened track.
#[derive(Debug, Clone)]
pub struct TrackInfo {
    pub sample_rate: u32,
    pub channels: usize,
    pub num_frames: Option<u64>,
    pub format_name: String,
    pub bitrate: u32,
    pub bits: Option<u32>,
    pub tags: Tags,
}

// ---------------------------------------------------------------------------
// Value parsers
// ---------------------------------------------------------------------------

/// Index of the first `c` in `s`.
pub open spec fn first_index_of(s: Seq<char>, c: char) -> Option<int>
    decreases s.len(),
{
    if s.len() == 0 {
        None
    } else if s[0] == c {
        Some(0)
    } else {
        match first_index_of(s.skip(1), c) {
            Some(i) => Some(i + 1),
            None => None,
        }
    }
}

/// The first two `/`-separated fields of `s` (the second may be missing).
pub open spec fn split_pair(s: Seq<char>) -> (Seq<char>, Option<Seq<char>>) {
    match first_index_of(s, '/') {
        None => (s, None),
        Some(i) => {
            let rest = s.skip(i + 1);
            (
                s.take(i),
                Some(
                    match first_index_of(rest, '/') {
                        Some(j) => rest.take(j),
                        None => rest,
                    },
                ),
            )
        },
    }
}

/// A trimmed field parsed as `u32`, 0 when it does not parse.
pub open spec fn field_number(f: Seq<char>) -> u32 {
    match spec_parse_u32(trim(f)) {
        Some(n) => n,
        None => 0,
    }
}

/// `"N"` or `"N/M"` (track or disc numbers) as `(number, total)`; fields
/// that do not parse count as 0.
pub open spec fn spec_parse_number_pair(s: Seq<char>) -> (u32, u32) {
    let p = split_pair(trim(s));
    (
        field_number(p.0),
        match p.1 {
            Some(f) => field_number(f),
            None => 0,
        },
    )
}

proof fn lemma_first_index_at(s: Seq<char>, c: char, k: int)
    requires
        0 <= k <= s.len(),
        forall|j: int| 0 <= j < k ==> s[j] != c,
        k < s.len() ==> s[k] == c,
    ensures
        first_index_of(s, c) == if k < s.len() {
            Some(k)
        } else {
            None::<int>
        },
    decreases k,
{
    if k > 0 {
        lemma_first_index_at(s.skip(1), c, k - 1);
    }
}

/// End of the field starting at `lo` (the next `/` before `hi`, or `hi`).
fn field_end(v: &Vec<char>, lo: usize, hi: usize) -> (e: usize)
    requires
        lo <= hi <= v@.len(),
    ensures
        lo <= e <= hi,
        forall|j: int| lo <= j < e ==> v@[j] != '/',
        e < hi ==> v@[e as int] == '/',
        first_index_of(v@.subrange(lo as int, hi as int), '/') == if e < hi {
            Some(e - lo)
        } else {
            None::<int>
        },
{
    let mut e = lo;
    while e < hi && v[e] != '/'
        invariant
            lo <= e <= hi <= v@.len(),
            forall|j: int| lo <= j < e ==> v@[j] != '/',
        decreases hi - e,
    {
        e += 1;
    }
    proof {
        lemma_first_index_at(v@.subrange(lo as int, hi as int), '/', e - lo);
    }
    e
}

/// Parse `v[lo..hi]`, trimmed, as `u32` (0 when it does not parse).
fn field_value(v: &Vec<char>, lo: usize, hi: usize) -> (r: u32)
    requires
        lo <= hi <= v@.len(),
    ensures
        r == field_number(v@.subrange(lo as int, hi as int)),
{
    let f = crate::text::string_from_chars(v, lo, hi);
    let fv = to_chars(f.as_str());
    let (a, b) = trim_bounds(&fv);
    match parse_u32_chars(&fv, a, b) {
        Some(n) => n,
        None => 0,
    }
}

/// Parse a `"N"` or `"N/M"` track/disc number pair (see
/// [`spec_parse_number_pair`]).
pub fn parse_number_pair(s: &str) -> (r: (u32, u32))
    ensures
        r == spec_parse_number_pair(s@),
{
    let t = trimmed(s);
    let v = to_chars(t.as_str());
    let n = v.len();
    let e1 = field_end(&v, 0, n);
    assert(v@.subrange(0, n as int) =~= v@);
    let num = field_value(&v, 0, e1);
    assert(v@.subrange(0, e1 as int) =~= v@.take(e1 as int));
    if e1 == n {
        return (num, 0);
    }
    let e2 = field_end(&v, e1 + 1, n);
    let total = field_value(&v, e1 + 1, e2);
    proof {
        let rest = v@.skip(e1 + 1);
        assert(rest =~= v@.subrange(e1 + 1, n as int));
        assert(e2 < n ==> v@.subrange(e1 + 1, e2 as int) =~= rest.take(e2 - e1 - 1));
        assert(e2 == n ==> v@.subrange(e1 + 1, e2 as int) =~= rest);
    }
    (num, total)
}

/// The year of a date string: its first four characters when they are
/// ASCII digits ("2019-05-01" -> "2019"), else the trimmed string.
pub open spec fn spec_year_from_date(s: Seq<char>) -> Seq<char> {
    let t = trim(s);
    if t.len() >= 4 && is_digit(t[0]) && is_digit(t[1]) && is_digit(t[2]) && is_digit(t[3]) {
        t.take(4)
    } else {
        t
    }
}

/// The first four bytes of the trimmed string end on a character boundary
/// (slicing there does not fail).
pub open spec fn year_slice_ok(s: Seq<char>) -> bool {
    let t = trim(s);
    vstd::utf8::encode_utf8(t).len() >= 4 ==> exists|k: int|
        0 <= k <= t.len() && #[trigger] vstd::utf8::encode_utf8(t.take(k)).len() == 4
}

/// Extract the year from a date tag (see [`spec_year_from_date`]).
pub fn year_from_date(s: &str) -> (r: String)
    requires
        year_slice_ok(s@),
    ensures
        r@ == spec_year_from_date(s@),
{
    let t = trimmed(s);
    let v = to_chars(t.as_str());
    if v.len() >= 4 && '0' <= v[0] && v[0] <= '9' && '0' <= v[1] && v[1] <= '9' && '0' <= v[2]
        && v[2] <= '9' && '0' <= v[3] && v[3] <= '9' {
        crate::text::string_from_chars(&v, 0, 4)
    } else {
        t
    }
}

/// Uncompressed PCM bitrate in kbps (16 bits when unknown; 0 without a
/// rate or channels), truncated to 32 bits.
pub open spec fn spec_compute_bitrate(sample_rate: u32, channels: usize, bits: Option<u32>) -> u32 {
    let bps: int = match bits {
        Some(b) => b as int,
        None => 16,
    };
    if sample_rate == 0 || channels == 0 {
        0
    } else {
        (((sample_rate as int * channels as int * bps) % 0x1_0000_0000_0000_0000) / 1000) as u32
    }
}

/// PCM bitrate from codec parameters, used when the file size is unknown.
pub fn compute_bitrate(sample_rate: u32, channels: usize, bits: Option<u32>) -> (r: u32)
    requires
        sample_rate as int * channels as int <= u64::MAX,
        sample_rate as int * channels as int * (match bits {
            Some(b) => b as int,
            None => 16,
        }) <= u64::MAX,
    ensures
        r == spec_compute_bitrate(sample_rate, channels, bits),
{
    let rate = sample_rate as u64;
    let bps: u64 = match bits {
        Some(b) => b as u64,
        None => 16,
    };
    if rate == 0 || channels == 0 {
        return 0;
    }
    ((rate * channels as u64 * bps) / 1000) as u32
}

// ---------------------------------------------------------------------------
// Container tags
// ---------------------------------------------------------------------------

/// A standard tag a container reader recognised.
#[derive(Debug, Clone)]
pub enum StdTag {
    Artist(String),
    AlbumArtist(String),
    Album(String),
    Genre(String),
    ReleaseDate(String),
    TrackNumber(u64),
    TrackTotal(u64),
    DiscNumber(u64),
    DiscTotal(u64),
    Other,
}

/// One tag of a container: its raw key, its value when it is a string (the
/// first entry of a string list), and the standard tag it maps to, if any.
#[derive(Debug, Clone)]
pub struct MetaTag {
    pub key: String,
    pub value: Option<String>,
    pub std: Option<StdTag>,
}

/// Set `slot` to `v` unless it already holds a value.
pub open spec fn first_wins(slot: Option<Seq<char>>, v: Seq<char>) -> Option<Seq<char>> {
    if slot is None {
        Some(v)
    } else {
        slot
    }
}

pub open spec fn max_u32(a: u32, b: u32) -> u32 {
    if a < b {
        b
    } else {
        a
    }
}

pub open spec fn key_in(k: Seq<char>, a: Seq<char>, b: Seq<char>, c: Seq<char>) -> bool {
    k == a || k == b || k == c
}

/// The effect of one raw key/value pair (key compared lower-case).
pub open spec fn apply_raw(t: TagsView, key: Seq<char>, v: Seq<char>) -> TagsView {
    let k = ascii_lower_seq(key);
    if key_in(k, "title"@, "tracktitle"@, "titre"@) {
        TagsView { title: first_wins(t.title, v), ..t }
    } else if key_in(k, "artist"@, "tpe1"@, "tp1"@) {
        TagsView { artist: first_wins(t.artist, v), ..t }
    } else if key_in(k, "albumartist"@, "album_artist"@, "album artist"@) || k == "tpe2"@ {
        TagsView {
            artist: first_wins(t.artist, v),
            album_artist: first_wins(t.album_artist, v),
            ..t
        }
    } else if key_in(k, "album"@, "talbum"@, "tal"@) {
        TagsView { album: first_wins(t.album, v), ..t }
    } else if k == "genre"@ || k == "tcon"@ {
        TagsView { genre: first_wins(t.genre, v), ..t }
    } else if key_in(k, "date"@, "year"@, "tyer"@) || k == "tdrc"@ || k == "tory"@ {
        TagsView { year: first_wins(t.year, spec_year_from_date(v)), ..t }
    } else if key_in(k, "tracknumber"@, "trck"@, "trk"@) {
        let p = spec_parse_number_pair(v);
        TagsView {
            track_number: if t.track_number == 0 {
                p.0
            } else {
                t.track_number
            },
            track_total: max_u32(t.track_total, p.1),
            ..t
        }
    } else if key_in(k, "discnumber"@, "disk"@, "tpa"@) {
        let p = spec_parse_number_pair(v);
        TagsView {
            disc_number: if t.disc_number == 0 {
                p.0
            } else {
                t.disc_number
            },
            disc_total: max_u32(t.disc_total, p.1),
            ..t
        }
    } else {
        t
    }
}

/// The effect of a standard tag (numbers truncated to 32 bits).
pub open spec fn apply_std(t: TagsView, s: StdTag) -> TagsView {
    match s {
        StdTag::Artist(v) => TagsView { artist: first_wins(t.artist, v@), ..t },
        StdTag::AlbumArtist(v) => TagsView {
            artist: first_wins(t.artist, v@),
            album_artist: first_wins(t.album_artist, v@),
            ..t
        },
        StdTag::Album(v) => TagsView { album: first_wins(t.album, v@), ..t },
        StdTag::Genre(v) => TagsView { genre: first_wins(t.genre, v@), ..t },
        StdTag::ReleaseDate(v) => TagsView { year: first_wins(t.year, spec_year_from_date(v@)), ..t },
        StdTag::TrackNumber(n) => TagsView {
            track_number: if t.track_number == 0 {
                n as u32
            } else {
                t.track_number
            },
            ..t
        },
        StdTag::TrackTotal(n) => TagsView { track_total: max_u32(t.track_total, n as u32), ..t },
        StdTag::DiscNumber(n) => TagsView {
            disc_number: if t.disc_number == 0 {
                n as u32
            } else {
                t.disc_number
            },
            ..t
        },
        StdTag::DiscTotal(n) => TagsView { disc_total: max_u32(t.disc_total, n as u32), ..t },
        StdTag::Other => t,
    }
}

/// The effect of one container tag: its raw string value first, then its
/// standard meaning.
pub open spec fn apply_tag(t: TagsView, tag: MetaTag) -> TagsView {
    let t1 = match tag.value {
        Some(v) => apply_raw(t, tag.key@, v@),
        None => t,
    };
    match tag.std {
        Some(s) => apply_std(t1, s),
        None => t1,
    }
}

/// All tags applied in order to the empty record.
pub open spec fn spec_read_tags(tags: Seq<MetaTag>) -> TagsView
    decreases tags.len(),
{
    if tags.len() == 0 {
        empty_tags()
    } else {
        apply_tag(spec_read_tags(tags.drop_last()), tags.last())
    }
}

/// Whether a raw key (compared lower-case) reaches the release-date case of
/// [`apply_raw`]: it names the date and none of the fields tested before.
pub open spec fn is_date_key(key: Seq<char>) -> bool {
    let k = ascii_lower_seq(key);
    &&& !key_in(k, "title"@, "tracktitle"@, "titre"@)
    &&& !key_in(k, "artist"@, "tpe1"@, "tp1"@)
    &&& !(key_in(k, "albumartist"@, "album_artist"@, "album artist"@) || k == "tpe2"@)
    &&& !key_in(k, "album"@, "talbum"@, "tal"@)
    &&& !(k == "genre"@ || k == "tcon"@)
    &&& (key_in(k, "date"@, "year"@, "tyer"@) || k == "tdrc"@ || k == "tory"@)
}

/// The date strings of one tag, in the order they are applied: the raw
/// value under a date key, then a standard release date.
pub open spec fn tag_dates(t: MetaTag) -> Seq<Seq<char>> {
    let raw = match t.value {
        Some(v) => if is_date_key(t.key@) {
            seq![v@]
        } else {
            Seq::empty()
        },
        None => Seq::empty(),
    };
    let std = match t.std {
        Some(StdTag::ReleaseDate(v)) => seq![v@],
        _ => Seq::empty(),
    };
    raw + std
}

/// The first date string of `tags[i..]`: the only one that is cut to its
/// year (later dates are ignored once the year is known).
pub open spec fn first_date_from(tags: Seq<MetaTag>, i: int) -> Option<Seq<char>>
    decreases tags.len() - i,
{
    if i < 0 || i >= tags.len() {
        None
    } else if tag_dates(tags[i]).len() > 0 {
        Some(tag_dates(tags[i])[0])
    } else {
        first_date_from(tags, i + 1)
    }
}

/// The date that is cut to its year can be cut without failing.
pub open spec fn dates_sliceable(tags: Seq<MetaTag>) -> bool {
    first_date_from(tags, 0) matches Some(d) ==> year_slice_ok(d)
}

proof fn lemma_no_date_yet(tags: Seq<MetaTag>, i: int)
    requires
        0 <= i <= tags.len(),
        spec_read_tags(tags.take(i)).year is None,
    ensures
        first_date_from(tags, 0) == first_date_from(tags, i),
    decreases i,
{
    if i > 0 {
        let prev = tags.take(i - 1);
        assert(tags.take(i).drop_last() =~= prev);
        assert(tags.take(i).last() == tags[i - 1]);
        let t0 = spec_read_tags(prev);
        let tag = tags[i - 1];
        if t0.year is Some {
            law_tags_first_value_wins(t0, tag);
        } else {
            lemma_no_date_yet(tags, i - 1);
            if tag_dates(tag).len() > 0 {
                let t1 = match tag.value {
                    Some(v) => apply_raw(t0, tag.key@, v@),
                    None => t0,
                };
                if let Some(v) = tag.value {
                    if is_date_key(tag.key@) {
                        assert(t1.year is Some);
                    }
                }
                if t1.year is Some {
                    if let Some(st) = tag.std {
                        lemma_std_keeps_filled(t1, st);
                    }
                }
                assert(apply_tag(t0, tag).year is Some);
            }
        }
    }
}

fn set_first(slot: &mut Option<String>, v: String)
    ensures
        opt_view(*final(slot)) == first_wins(opt_view(*old(slot)), v@),
{
    if slot.is_none() {
        *slot = Some(v);
    }
}

fn key_is(k: &Vec<char>, a: &str, b: &str, c: &str) -> (r: bool)
    ensures
        r == key_in(k@, a@, b@, c@),
{
    chars_eq(k, a) || chars_eq(k, b) || chars_eq(k, c)
}

fn apply_raw_exec(t: &mut Tags, key: &str, v: &str)
    requires
        old(t)@.year is None && is_date_key(key@) ==> year_slice_ok(v@),
    ensures
        final(t)@ == apply_raw(old(t)@, key@, v@),
{
    let k = lower_chars(key);
    let ghost t0 = t@;
    if key_is(&k, "title", "tracktitle", "titre") {
        set_first(&mut t.title, crate::text::owned(v));
    } else if key_is(&k, "artist", "tpe1", "tp1") {
        set_first(&mut t.artist, crate::text::owned(v));
    } else if key_is(&k, "albumartist", "album_artist", "album artist") || chars_eq(&k, "tpe2") {
        set_first(&mut t.artist, crate::text::owned(v));
        set_first(&mut t.album_artist, crate::text::owned(v));
    } else if key_is(&k, "album", "talbum", "tal") {
        set_first(&mut t.album, crate::text::owned(v));
    } else if chars_eq(&k, "genre") || chars_eq(&k, "tcon") {
        set_first(&mut t.genre, crate::text::owned(v));
    } else if key_is(&k, "date", "year", "tyer") || chars_eq(&k, "tdrc") || chars_eq(&k, "tory") {
        if t.year.is_none() {
            t.year = Some(year_from_date(v));
        }
    } else if key_is(&k, "tracknumber", "trck", "trk") {
        let (n, tot) = parse_number_pair(v);
        if t.track_number == 0 {
            t.track_number = n;
        }
        if t.track_total < tot {
            t.track_total = tot;
        }
    } else if key_is(&k, "discnumber", "disk", "tpa") {
        let (n, tot) = parse_number_pair(v);
        if t.disc_number == 0 {
            t.disc_number = n;
        }
        if t.disc_total < tot {
            t.disc_total = tot;
        }
    }
}

fn apply_std_exec(t: &mut Tags, s: &StdTag)
    requires
        old(t)@.year is None ==> (s matches StdTag::ReleaseDate(v) ==> year_slice_ok(v@)),
    ensures
        final(t)@ == apply_std(old(t)@, *s),
{
    match s {
        StdTag::Artist(v) => set_first(&mut t.artist, crate::text::owned(v.as_str())),
        StdTag::AlbumArtist(v) => {
            set_first(&mut t.artist, crate::text::owned(v.as_str()));
            set_first(&mut t.album_artist, crate::text::owned(v.as_str()));
        },
        StdTag::Album(v) => set_first(&mut t.album, crate::text::owned(v.as_str())),
        StdTag::Genre(v) => set_first(&mut t.genre, crate::text::owned(v.as_str())),
        StdTag::ReleaseDate(v) => {
            if t.year.is_none() {
                t.year = Some(year_from_date(v.as_str()));
            }
        },
        StdTag::TrackNumber(n) => {
            if t.track_number == 0 {
                t.track_number = *n as u32;
            }
        },
        StdTag::TrackTotal(n) => {
            let m = *n as u32;
            if t.track_total < m {
                t.track_total = m;
            }
        },
        StdTag::DiscNumber(n) => {
            if t.disc_number == 0 {
                t.disc_number = *n as u32;
            }
        },
        StdTag::DiscTotal(n) => {
            let m = *n as u32;
            if t.disc_total < m {
                t.disc_total = m;
            }
        },
        StdTag::Other => {},
    }
}

/// Fill a tag record from a container's tags, in order: for text fields the
/// first value wins, for numbers the first non-zero, for totals the largest.
pub fn read_tags(tags: &[MetaTag]) -> (r: Tags)
    requires
        dates_sliceable(tags@),
    ensures
        r@ == spec_read_tags(tags@),
{
    let mut out = Tags::new();
    let mut i: usize = 0;
    while i < tags.len()
        invariant
            i <= tags@.len(),
            dates_sliceable(tags@),
            out@ == spec_read_tags(tags@.take(i as int)),
        decreases tags.len() - i,
    {
        let tag = &tags[i];
        proof {
            assert(tags@.take(i + 1).drop_last() =~= tags@.take(i as int));
            if out@.year is None {
                lemma_no_date_yet(tags@, i as int);
            }
        }
        let ghost before = out@;
        match &tag.value {
            Some(v) => apply_raw_exec(&mut out, tag.key.as_str(), v.as_str()),
            None => {},
        }
        proof {
            if out@.year is None {
                assert(before.year is None);
                if tag.value is Some {
                    assert(!is_date_key(tag.key@));
                }
                assert(tag_dates(*tag) =~= match tag.std {
                    Some(StdTag::ReleaseDate(v)) => seq![v@],
                    _ => Seq::empty(),
                });
            }
        }
        match &tag.std {
            Some(s) => apply_std_exec(&mut out, s),
            None => {},
        }
        i += 1;
    }
    assert(tags@.take(tags@.len() as int) =~= tags@);
    out
}

/// Applying one raw pair or one standard tag only fills what is still empty
/// and never lowers a total.
pub open spec fn keeps_filled(t: TagsView, u: TagsView) -> bool {
    &&& (t.title is Some ==> u.title == t.title)
    &&& (t.artist is Some ==> u.artist == t.artist)
    &&& (t.album is Some ==> u.album == t.album)
    &&& (t.genre is Some ==> u.genre == t.genre)
    &&& (t.year is Some ==> u.year == t.year)
    &&& (t.track_number != 0 ==> u.track_number == t.track_number)
    &&& u.track_total >= t.track_total
    &&& u.disc_total >= t.disc_total
}

proof fn lemma_raw_keeps_filled(t: TagsView, key: Seq<char>, v: Seq<char>)
    ensures
        keeps_filled(t, apply_raw(t, key, v)),
{
}

proof fn lemma_std_keeps_filled(t: TagsView, s: StdTag)
    ensures
        keeps_filled(t, apply_std(t, s)),
{
}

/// A text slot after a tag offers `v`: kept when it already holds a value.
pub open spec fn fill(slot: Option<Seq<char>>, v: Seq<char>) -> Option<Seq<char>> {
    match slot {
        Some(x) => Some(x),
        None => Some(v),
    }
}

/// Raw title keys (title, tracktitle, titre) fill only the title.
pub proof fn law_raw_title_keys(t: TagsView, key: Seq<char>, v: Seq<char>)
    requires
        ascii_lower_seq(key) == "title"@ || ascii_lower_seq(key) == "tracktitle"@ || ascii_lower_seq(key) == "titre"@,
    ensures
        apply_raw(t, key, v) == (TagsView { title: fill(t.title, v), ..t }),
{
    reveal_strlit("tracktitle");
    reveal_strlit("titre");
    reveal_strlit("title");
}

/// Raw artist keys (artist, tpe1, tp1) fill only the artist.
pub proof fn law_raw_artist_keys(t: TagsView, key: Seq<char>, v: Seq<char>)
    requires
        ascii_lower_seq(key) == "artist"@ || ascii_lower_seq(key) == "tpe1"@ || ascii_lower_seq(key) == "tp1"@,
    ensures
        apply_raw(t, key, v) == (TagsView { artist: fill(t.artist, v), ..t }),
{
    reveal_strlit("tpe1");
    reveal_strlit("tp1");
    reveal_strlit("titre");
    reveal_strlit("tracktitle");
    reveal_strlit("artist");
    reveal_strlit("title");
    assert("artist"@.len() != "title"@.len());
    assert("artist"@.len() != "tracktitle"@.len());
    assert("artist"@.len() != "titre"@.len());
    assert("tpe1"@.len() != "title"@.len());
    assert("tpe1"@.len() != "tracktitle"@.len());
    assert("tpe1"@.len() != "titre"@.len());
    assert("tp1"@.len() != "title"@.len());
    assert("tp1"@.len() != "tracktitle"@.len());
    assert("tp1"@.len() != "titre"@.len());
}

/// Raw album-artist keys (albumartist, album_artist, "album artist", tpe2)
/// fill the album artist, and the artist while it is empty.
pub proof fn law_raw_album_artist_keys(t: TagsView, key: Seq<char>, v: Seq<char>)
    requires
        ascii_lower_seq(key) == "albumartist"@ || ascii_lower_seq(key) == "album_artist"@ || ascii_lower_seq(key) == "album artist"@ || ascii_lower_seq(key) == "tpe2"@,
    ensures
        apply_raw(t, key, v) == (TagsView { artist: fill(t.artist, v), album_artist: fill(t.album_artist, v), ..t }),
{
    reveal_strlit("tpe1");
    reveal_strlit("titre");
    reveal_strlit("tp1");
    reveal_strlit("tracktitle");
    reveal_strlit("artist");
    reveal_strlit("albumartist");
    reveal_strlit("tpe2");
    reveal_strlit("album artist");
    reveal_strlit("album_artist");
    reveal_strlit("title");
    assert("albumartist"@.len() != "title"@.len());
    assert("albumartist"@.len() != "tracktitle"@.len());
    assert("albumartist"@.len() != "titre"@.len());
    assert("albumartist"@.len() != "artist"@.len());
    assert("albumartist"@.len() != "tpe1"@.len());
    assert("albumartist"@.len() != "tp1"@.len());
    assert("album_artist"@.len() != "title"@.len());
    assert("album_artist"@.len() != "tracktitle"@.len());
    assert("album_artist"@.len() != "titre"@.len());
    assert("album_artist"@.len() != "artist"@.len());
    assert("album_artist"@.len() != "tpe1"@.len());
    assert("album_artist"@.len() != "tp1"@.len());
    assert("album artist"@.len() != "title"@.len());
    assert("album artist"@.len() != "tracktitle"@.len());
    assert("album artist"@.len() != "titre"@.len());
    assert("album artist"@.len() != "artist"@.len());
    assert("album artist"@.len() != "tpe1"@.len());
    assert("album artist"@.len() != "tp1"@.len());
    assert("tpe2"@.len() != "title"@.len());
    assert("tpe2"@.len() != "tracktitle"@.len());
    assert("tpe2"@.len() != "titre"@.len());
    assert("tpe2"@.len() != "artist"@.len());
    assert("tpe2"@[3] != "tpe1"@[3]);
    assert("tpe2"@.len() != "tp1"@.len());
}

/// Raw album keys (album, talbum, tal) fill only the album, never the album
/// artist.
pub proof fn law_raw_album_keys(t: TagsView, key: Seq<char>, v: Seq<char>)
    requires
        ascii_lower_seq(key) == "album"@ || ascii_lower_seq(key) == "talbum"@ || ascii_lower_seq(key) == "tal"@,
    ensures
        apply_raw(t, key, v) == (TagsView { album: fill(t.album, v), ..t }),
{
    reveal_strlit("tpe1");
    reveal_strlit("album");
    reveal_strlit("talbum");
    reveal_strlit("titre");
    reveal_strlit("tp1");
    reveal_strlit("tracktitle");
    reveal_strlit("artist");
    reveal_strlit("albumartist");
    reveal_strlit("tpe2");
    reveal_strlit("album artist");
    reveal_strlit("album_artist");
    reveal_strlit("tal");
    reveal_strlit("title");
    assert("album"@[0] != "title"@[0]);
    assert("album"@.len() != "tracktitle"@.len());
    assert("album"@[0] != "titre"@[0]);
    assert("album"@.len() != "artist"@.len());
    assert("album"@.len() != "tpe1"@.len());
    assert("album"@.len() != "tp1"@.len());
    assert("album"@.len() != "albumartist"@.len());
    assert("album"@.len() != "album_artist"@.len());
    assert("album"@.len() != "album artist"@.len());
    assert("album"@.len() != "tpe2"@.len());
    assert("talbum"@.len() != "title"@.len());
    assert("talbum"@.len() != "tracktitle"@.len());
    assert("talbum"@.len() != "titre"@.len());
    assert("talbum"@[0] != "artist"@[0]);
    assert("talbum"@.len() != "tpe1"@.len());
    assert("talbum"@.len() != "tp1"@.len());
    assert("talbum"@.len() != "albumartist"@.len());
    assert("talbum"@.len() != "album_artist"@.len());
    assert("talbum"@.len() != "album artist"@.len());
    assert("talbum"@.len() != "tpe2"@.len());
    assert("tal"@.len() != "title"@.len());
    assert("tal"@.len() != "tracktitle"@.len());
    assert("tal"@.len() != "titre"@.len());
    assert("tal"@.len() != "artist"@.len());
    assert("tal"@.len() != "tpe1"@.len());
    assert("tal"@[1] != "tp1"@[1]);
    assert("tal"@.len() != "albumartist"@.len());
    assert("tal"@.len() != "album_artist"@.len());
    assert("tal"@.len() != "album artist"@.len());
    assert("tal"@.len() != "tpe2"@.len());
}

/// Raw genre keys (genre, tcon) fill only the genre.
pub proof fn law_raw_genre_keys(t: TagsView, key: Seq<char>, v: Seq<char>)
    requires
        ascii_lower_seq(key) == "genre"@ || ascii_lower_seq(key) == "tcon"@,
    ensures
        apply_raw(t, key, v) == (TagsView { genre: fill(t.genre, v), ..t }),
{
    reveal_strlit("tpe1");
    reveal_strlit("album");
    reveal_strlit("tcon");
    reveal_strlit("talbum");
    reveal_strlit("titre");
    reveal_strlit("tp1");
    reveal_strlit("tracktitle");
    reveal_strlit("artist");
    reveal_strlit("genre");
    reveal_strlit("albumartist");
    reveal_strlit("tpe2");
    reveal_strlit("album artist");
    reveal_strlit("album_artist");
    reveal_strlit("tal");
    reveal_strlit("title");
    assert("genre"@[0] != "title"@[0]);
    assert("genre"@.len() != "tracktitle"@.len());
    assert("genre"@[0] != "titre"@[0]);
    assert("genre"@.len() != "artist"@.len());
    assert("genre"@.len() != "tpe1"@.len());
    assert("genre"@.len() != "tp1"@.len());
    assert("genre"@.len() != "albumartist"@.len());
    assert("genre"@.len() != "album_artist"@.len());
    assert("genre"@.len() != "album artist"@.len());
    assert("genre"@.len() != "tpe2"@.len());
    assert("genre"@[0] != "album"@[0]);
    assert("genre"@.len() != "talbum"@.len());
    assert("genre"@.len() != "tal"@.len());
    assert("tcon"@.len() != "title"@.len());
    assert("tcon"@.len() != "tracktitle"@.len());
    assert("tcon"@.len() != "titre"@.len());
    assert("tcon"@.len() != "artist"@.len());
    assert("tcon"@[1] != "tpe1"@[1]);
    assert("tcon"@.len() != "tp1"@.len());
    assert("tcon"@.len() != "albumartist"@.len());
    assert("tcon"@.len() != "album_artist"@.len());
    assert("tcon"@.len() != "album artist"@.len());
    assert("tcon"@[1] != "tpe2"@[1]);
    assert("tcon"@.len() != "album"@.len());
    assert("tcon"@.len() != "talbum"@.len());
    assert("tcon"@.len() != "tal"@.len());
}

/// Raw date keys (date, year, tyer, tdrc, tory) fill only the year, cut from
/// the date.
pub proof fn law_raw_year_keys(t: TagsView, key: Seq<char>, v: Seq<char>)
    requires
        ascii_lower_seq(key) == "date"@ || ascii_lower_seq(key) == "year"@ || ascii_lower_seq(key) == "tyer"@ || ascii_lower_seq(key) == "tdrc"@ || ascii_lower_seq(key) == "tory"@,
    ensures
        apply_raw(t, key, v) == (TagsView { year: fill(t.year, spec_year_from_date(v)), ..t }),
{
    reveal_strlit("tory");
    reveal_strlit("album");
    reveal_strlit("tcon");
    reveal_strlit("date");
    reveal_strlit("genre");
    reveal_strlit("albumartist");
    reveal_strlit("tpe2");
    reveal_strlit("album_artist");
    reveal_strlit("tpe1");
    reveal_strlit("tracktitle");
    reveal_strlit("tal");
    reveal_strlit("title");
    reveal_strlit("year");
    reveal_strlit("titre");
    reveal_strlit("artist");
    reveal_strlit("album artist");
    reveal_strlit("tdrc");
    reveal_strlit("talbum");
    reveal_strlit("tp1");
    reveal_strlit("tyer");
    assert("date"@.len() != "title"@.len());
    assert("date"@.len() != "tracktitle"@.len());
    assert("date"@.len() != "titre"@.len());
    assert("date"@.len() != "artist"@.len());
    assert("date"@[0] != "tpe1"@[0]);
    assert("date"@.len() != "tp1"@.len());
    assert("date"@.len() != "albumartist"@.len());
    assert("date"@.len() != "album_artist"@.len());
    assert("date"@.len() != "album artist"@.len());
    assert("date"@[0] != "tpe2"@[0]);
    assert("date"@.len() != "album"@.len());
    assert("date"@.len() != "talbum"@.len());
    assert("date"@.len() != "tal"@.len());
    assert("date"@.len() != "genre"@.len());
    assert("date"@[0] != "tcon"@[0]);
    assert("year"@.len() != "title"@.len());
    assert("year"@.len() != "tracktitle"@.len());
    assert("year"@.len() != "titre"@.len());
    assert("year"@.len() != "artist"@.len());
    assert("year"@[0] != "tpe1"@[0]);
    assert("year"@.len() != "tp1"@.len());
    assert("year"@.len() != "albumartist"@.len());
    assert("year"@.len() != "album_artist"@.len());
    assert("year"@.len() != "album artist"@.len());
    assert("year"@[0] != "tpe2"@[0]);
    assert("year"@.len() != "album"@.len());
    assert("year"@.len() != "talbum"@.len());
    assert("year"@.len() != "tal"@.len());
    assert("year"@.len() != "genre"@.len());
    assert("year"@[0] != "tcon"@[0]);
    assert("tyer"@.len() != "title"@.len());
    assert("tyer"@.len() != "tracktitle"@.len());
    assert("tyer"@.len() != "titre"@.len());
    assert("tyer"@.len() != "artist"@.len());
    assert("tyer"@[1] != "tpe1"@[1]);
    assert("tyer"@.len() != "tp1"@.len());
    assert("tyer"@.len() != "albumartist"@.len());
    assert("tyer"@.len() != "album_artist"@.len());
    assert("tyer"@.len() != "album artist"@.len());
    assert("tyer"@[1] != "tpe2"@[1]);
    assert("tyer"@.len() != "album"@.len());
    assert("tyer"@.len() != "talbum"@.len());
    assert("tyer"@.len() != "tal"@.len());
    assert("tyer"@.len() != "genre"@.len());
    assert("tyer"@[1] != "tcon"@[1]);
    assert("tdrc"@.len() != "title"@.len());
    assert("tdrc"@.len() != "tracktitle"@.len());
    assert("tdrc"@.len() != "titre"@.len());
    assert("tdrc"@.len() != "artist"@.len());
    assert("tdrc"@[1] != "tpe1"@[1]);
    assert("tdrc"@.len() != "tp1"@.len());
    assert("tdrc"@.len() != "albumartist"@.len());
    assert("tdrc"@.len() != "album_artist"@.len());
    assert("tdrc"@.len() != "album artist"@.len());
    assert("tdrc"@[1] != "tpe2"@[1]);
    assert("tdrc"@.len() != "album"@.len());
    assert("tdrc"@.len() != "talbum"@.len());
    assert("tdrc"@.len() != "tal"@.len());
    assert("tdrc"@.len() != "genre"@.len());
    assert("tdrc"@[1] != "tcon"@[1]);
    assert("tory"@.len() != "title"@.len());
    assert("tory"@.len() != "tracktitle"@.len());
    assert("tory"@.len() != "titre"@.len());
    assert("tory"@.len() != "artist"@.len());
    assert("tory"@[1] != "tpe1"@[1]);
    assert("tory"@.len() != "tp1"@.len());
    assert("tory"@.len() != "albumartist"@.len());
    assert("tory"@.len() != "album_artist"@.len());
    assert("tory"@.len() != "album artist"@.len());
    assert("tory"@[1] != "tpe2"@[1]);
    assert("tory"@.len() != "album"@.len());
    assert("tory"@.len() != "talbum"@.len());
    assert("tory"@.len() != "tal"@.len());
    assert("tory"@.len() != "genre"@.len());
    assert("tory"@[1] != "tcon"@[1]);
}

/// Raw track and disc keys (tracknumber, trck, trk; discnumber, disk, tpa)
/// set their number while it is 0, from the `n` of an `n/total` value.
pub proof fn law_raw_number_keys(t: TagsView, key: Seq<char>, v: Seq<char>)
    ensures
        ({
            let k = ascii_lower_seq(key);
            let r = apply_raw(t, key, v);
            &&& (k == "tracknumber"@ || k == "trck"@ || k == "trk"@) ==> r.track_number == (if t.track_number
                == 0 {
                spec_parse_number_pair(v).0
            } else {
                t.track_number
            }) && r.disc_number == t.disc_number && r.title == t.title && r.album == t.album
            &&& (k == "discnumber"@ || k == "disk"@ || k == "tpa"@) ==> r.disc_number == (if t.disc_number
                == 0 {
                spec_parse_number_pair(v).0
            } else {
                t.disc_number
            }) && r.track_number == t.track_number && r.title == t.title && r.album == t.album
        }),
{
    reveal_strlit("title");
    reveal_strlit("tracktitle");
    reveal_strlit("titre");
    reveal_strlit("artist");
    reveal_strlit("tpe1");
    reveal_strlit("tp1");
    reveal_strlit("albumartist");
    reveal_strlit("album_artist");
    reveal_strlit("album artist");
    reveal_strlit("tpe2");
    reveal_strlit("album");
    reveal_strlit("talbum");
    reveal_strlit("tal");
    reveal_strlit("genre");
    reveal_strlit("tcon");
    reveal_strlit("date");
    reveal_strlit("year");
    reveal_strlit("tyer");
    reveal_strlit("tdrc");
    reveal_strlit("tory");
    reveal_strlit("tracknumber");
    reveal_strlit("trck");
    reveal_strlit("trk");
    reveal_strlit("discnumber");
    reveal_strlit("disk");
    reveal_strlit("tpa");
    assert("tracknumber"@.len() != "title"@.len());
    assert("tracknumber"@.len() != "tracktitle"@.len());
    assert("tracknumber"@.len() != "titre"@.len());
    assert("tracknumber"@.len() != "artist"@.len());
    assert("tracknumber"@.len() != "tpe1"@.len());
    assert("tracknumber"@.len() != "tp1"@.len());
    assert("tracknumber"@[0] != "albumartist"@[0]);
    assert("tracknumber"@.len() != "album_artist"@.len());
    assert("tracknumber"@.len() != "album artist"@.len());
    assert("tracknumber"@.len() != "tpe2"@.len());
    assert("tracknumber"@.len() != "album"@.len());
    assert("tracknumber"@.len() != "talbum"@.len());
    assert("tracknumber"@.len() != "tal"@.len());
    assert("tracknumber"@.len() != "genre"@.len());
    assert("tracknumber"@.len() != "tcon"@.len());
    assert("tracknumber"@.len() != "date"@.len());
    assert("tracknumber"@.len() != "year"@.len());
    assert("tracknumber"@.len() != "tyer"@.len());
    assert("tracknumber"@.len() != "tdrc"@.len());
    assert("tracknumber"@.len() != "tory"@.len());
    assert("trck"@.len() != "title"@.len());
    assert("trck"@.len() != "tracktitle"@.len());
    assert("trck"@.len() != "titre"@.len());
    assert("trck"@.len() != "artist"@.len());
    assert("trck"@[1] != "tpe1"@[1]);
    assert("trck"@.len() != "tp1"@.len());
    assert("trck"@.len() != "albumartist"@.len());
    assert("trck"@.len() != "album_artist"@.len());
    assert("trck"@.len() != "album artist"@.len());
    assert("trck"@[1] != "tpe2"@[1]);
    assert("trck"@.len() != "album"@.len());
    assert("trck"@.len() != "talbum"@.len());
    assert("trck"@.len() != "tal"@.len());
    assert("trck"@.len() != "genre"@.len());
    assert("trck"@[1] != "tcon"@[1]);
    assert("trck"@[0] != "date"@[0]);
    assert("trck"@[0] != "year"@[0]);
    assert("trck"@[1] != "tyer"@[1]);
    assert("trck"@[1] != "tdrc"@[1]);
    assert("trck"@[1] != "tory"@[1]);
    assert("trk"@.len() != "title"@.len());
    assert("trk"@.len() != "tracktitle"@.len());
    assert("trk"@.len() != "titre"@.len());
    assert("trk"@.len() != "artist"@.len());
    assert("trk"@.len() != "tpe1"@.len());
    assert("trk"@[1] != "tp1"@[1]);
    assert("trk"@.len() != "albumartist"@.len());
    assert("trk"@.len() != "album_artist"@.len());
    assert("trk"@.len() != "album artist"@.len());
    assert("trk"@.len() != "tpe2"@.len());
    assert("trk"@.len() != "album"@.len());
    assert("trk"@.len() != "talbum"@.len());
    assert("trk"@[1] != "tal"@[1]);
    assert("trk"@.len() != "genre"@.len());
    assert("trk"@.len() != "tcon"@.len());
    assert("trk"@.len() != "date"@.len());
    assert("trk"@.len() != "year"@.len());
    assert("trk"@.len() != "tyer"@.len());
    assert("trk"@.len() != "tdrc"@.len());
    assert("trk"@.len() != "tory"@.len());
    assert("discnumber"@.len() != "title"@.len());
    assert("discnumber"@[0] != "tracktitle"@[0]);
    assert("discnumber"@.len() != "titre"@.len());
    assert("discnumber"@.len() != "artist"@.len());
    assert("discnumber"@.len() != "tpe1"@.len());
    assert("discnumber"@.len() != "tp1"@.len());
    assert("discnumber"@.len() != "albumartist"@.len());
    assert("discnumber"@.len() != "album_artist"@.len());
    assert("discnumber"@.len() != "album artist"@.len());
    assert("discnumber"@.len() != "tpe2"@.len());
    assert("discnumber"@.len() != "album"@.len());
    assert("discnumber"@.len() != "talbum"@.len());
    assert("discnumber"@.len() != "tal"@.len());
    assert("discnumber"@.len() != "genre"@.len());
    assert("discnumber"@.len() != "tcon"@.len());
    assert("discnumber"@.len() != "date"@.len());
    assert("discnumber"@.len() != "year"@.len());
    assert("discnumber"@.len() != "tyer"@.len());
    assert("discnumber"@.len() != "tdrc"@.len());
    assert("discnumber"@.len() != "tory"@.len());
    assert("discnumber"@.len() != "tracknumber"@.len());
    assert("discnumber"@.len() != "trck"@.len());
    assert("discnumber"@.len() != "trk"@.len());
    assert("disk"@.len() != "title"@.len());
    assert("disk"@.len() != "tracktitle"@.len());
    assert("disk"@.len() != "titre"@.len());
    assert("disk"@.len() != "artist"@.len());
    assert("disk"@[0] != "tpe1"@[0]);
    assert("disk"@.len() != "tp1"@.len());
    assert("disk"@.len() != "albumartist"@.len());
    assert("disk"@.len() != "album_artist"@.len());
    assert("disk"@.len() != "album artist"@.len());
    assert("disk"@[0] != "tpe2"@[0]);
    assert("disk"@.len() != "album"@.len());
    assert("disk"@.len() != "talbum"@.len());
    assert("disk"@.len() != "tal"@.len());
    assert("disk"@.len() != "genre"@.len());
    assert("disk"@[0] != "tcon"@[0]);
    assert("disk"@[1] != "date"@[1]);
    assert("disk"@[0] != "year"@[0]);
    assert("disk"@[0] != "tyer"@[0]);
    assert("disk"@[0] != "tdrc"@[0]);
    assert("disk"@[0] != "tory"@[0]);
    assert("disk"@.len() != "tracknumber"@.len());
    assert("disk"@[0] != "trck"@[0]);
    assert("disk"@.len() != "trk"@.len());
    assert("tpa"@.len() != "title"@.len());
    assert("tpa"@.len() != "tracktitle"@.len());
    assert("tpa"@.len() != "titre"@.len());
    assert("tpa"@.len() != "artist"@.len());
    assert("tpa"@.len() != "tpe1"@.len());
    assert("tpa"@[2] != "tp1"@[2]);
    assert("tpa"@.len() != "albumartist"@.len());
    assert("tpa"@.len() != "album_artist"@.len());
    assert("tpa"@.len() != "album artist"@.len());
    assert("tpa"@.len() != "tpe2"@.len());
    assert("tpa"@.len() != "album"@.len());
    assert("tpa"@.len() != "talbum"@.len());
    assert("tpa"@[1] != "tal"@[1]);
    assert("tpa"@.len() != "genre"@.len());
    assert("tpa"@.len() != "tcon"@.len());
    assert("tpa"@.len() != "date"@.len());
    assert("tpa"@.len() != "year"@.len());
    assert("tpa"@.len() != "tyer"@.len());
    assert("tpa"@.len() != "tdrc"@.len());
    assert("tpa"@.len() != "tory"@.len());
    assert("tpa"@.len() != "tracknumber"@.len());
    assert("tpa"@.len() != "trck"@.len());
    assert("tpa"@[1] != "trk"@[1]);
}

/// Each standard tag fills its own field while it is empty (an album artist
/// also fills an empty artist); the totals only grow; an unknown tag changes
/// nothing.
pub proof fn law_std_tags_fill_their_field(t: TagsView, s: StdTag)
    ensures
        s matches StdTag::Artist(v) ==> apply_std(t, s) == (TagsView { artist: fill(t.artist, v@), ..t }),
        s matches StdTag::AlbumArtist(v) ==> apply_std(t, s) == (TagsView {
            artist: fill(t.artist, v@),
            album_artist: fill(t.album_artist, v@),
            ..t
        }),
        s matches StdTag::Album(v) ==> apply_std(t, s) == (TagsView { album: fill(t.album, v@), ..t }),
        s matches StdTag::Genre(v) ==> apply_std(t, s) == (TagsView { genre: fill(t.genre, v@), ..t }),
        s matches StdTag::ReleaseDate(v) ==> apply_std(t, s) == (TagsView {
            year: fill(t.year, spec_year_from_date(v@)),
            ..t
        }),
        s matches StdTag::TrackNumber(n) ==> apply_std(t, s).track_number == (if t.track_number == 0 {
            n as u32
        } else {
            t.track_number
        }) && apply_std(t, s).disc_number == t.disc_number,
        s matches StdTag::DiscNumber(n) ==> apply_std(t, s).disc_number == (if t.disc_number == 0 {
            n as u32
        } else {
            t.disc_number
        }) && apply_std(t, s).track_number == t.track_number,
        s matches StdTag::TrackTotal(n) ==> apply_std(t, s).track_total >= t.track_total
            && apply_std(t, s).track_total >= n as u32 && apply_std(t, s).disc_total == t.disc_total,
        s matches StdTag::DiscTotal(n) ==> apply_std(t, s).disc_total >= t.disc_total
            && apply_std(t, s).disc_total >= n as u32 && apply_std(t, s).track_total == t.track_total,
        s is Other ==> apply_std(t, s) == t,
{
}

/// A single raw album tag read into empty tags gives exactly that album.
pub proof fn law_album_tag_read(tag: MetaTag)
    requires
        tag.std is None,
        tag.value is Some,
        ascii_lower_seq(tag.key@) == "album"@ || ascii_lower_seq(tag.key@) == "talbum"@
            || ascii_lower_seq(tag.key@) == "tal"@,
    ensures
        spec_read_tags(seq![tag]).album == Some(tag.value->0@),
        spec_read_tags(seq![tag]).album_artist is None,
        spec_read_tags(seq![tag]).artist is None,
        spec_read_tags(seq![tag]).title is None,
{
    assert(seq![tag].drop_last() =~= Seq::<MetaTag>::empty());
    assert(spec_read_tags(Seq::<MetaTag>::empty()) == empty_tags());
    law_raw_album_keys(empty_tags(), tag.key@, tag.value->0@);
}

/// Text fields keep their first value and totals never decrease: applying
/// more tags only fills what is still empty.
pub proof fn law_tags_first_value_wins(t: TagsView, tag: MetaTag)
    ensures
        t.title is Some ==> apply_tag(t, tag).title == t.title,
        t.artist is Some ==> apply_tag(t, tag).artist == t.artist,
        t.album is Some ==> apply_tag(t, tag).album == t.album,
        t.genre is Some ==> apply_tag(t, tag).genre == t.genre,
        t.year is Some ==> apply_tag(t, tag).year == t.year,
        t.track_number != 0 ==> apply_tag(t, tag).track_number == t.track_number,
        apply_tag(t, tag).track_total >= t.track_total,
        apply_tag(t, tag).disc_total >= t.disc_total,
{
    let t1 = match tag.value {
        Some(v) => apply_raw(t, tag.key@, v@),
        None => t,
    };
    if let Some(v) = tag.value {
        lemma_raw_keeps_filled(t, tag.key@, v@);
    }
    if let Some(s) = tag.std {
        lemma_std_keeps_filled(t1, s);
    }
    assert(keeps_filled(t, apply_tag(t, tag)));
}

} // verus!
