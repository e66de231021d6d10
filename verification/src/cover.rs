//! Album-cover resolution rules: the order in which sources are tried, the
//! image type of a cover, cache-file naming, and the online search request.
//! Fetching, probing and disk access are done by the caller.

use vstd::prelude::*;

use crate::json::{as_str_value, field_of, get_field, json_parse, json_view, parse_json, str_of, JsonValue, JsonView};
use crate::hashing::{default_hash_bytes, push_str_bytes, std_hash_bytes, str_hash_bytes};

use crate::settings::{CoverSource, Settings};
use crate::text::{
    append_hex_fixed, append_str, hex_fixed, join_path, owned, path_join, push_char, replace,
    replace_all, str_eq, trim, trimmed,
};

verus! {

/// The files looked for in an album folder, in the order of `names`.
pub fn folder_cover_candidates(dir: &str, names: &[String]) -> (r: Vec<String>)
    ensures
        r@.len() == names@.len(),
        forall|i: int| 0 <= i < names@.len() ==> #[trigger] r@[i]@ == join_path(dir@, names@[i]@),
{
    let mut r: Vec<String> = Vec::new();
    let mut i: usize = 0;
    while i < names.len()
        invariant
            i <= names@.len(),
            r@.len() == i,
            forall|k: int| 0 <= k < i ==> #[trigger] r@[k]@ == join_path(dir@, names@[k]@),
        decreases names.len() - i,
    {
        r.push(path_join(dir, names[i].as_str()));
        i += 1;
    }
    r
}

/// Cover from the album folder: the first name in `names` whose file exists
/// there (`present[i]` tells whether the file for `names[i]` exists); none
/// without a folder.
pub fn folder_cover(dir: Option<&str>, names: &[String], present: &[bool]) -> (r: Option<String>)
    requires
        present@.len() == names@.len(),
    ensures
        (r is Some) <==> (dir is Some && exists|i: int| 0 <= i < present@.len() && #[trigger] present@[i]),
        r matches Some(p) ==> exists|i: int|
            0 <= i < present@.len() && #[trigger] present@[i]
            && (forall|j: int| 0 <= j < i ==> !present@[j])
            && p@ == join_path(dir->0@, names@[i]@),
{
    match dir {
        None => None,
        Some(d) => {
            let mut i: usize = 0;
            while i < names.len()
                invariant
                    i <= names@.len(),
                    present@.len() == names@.len(),
                    dir == Some(d),
                    forall|j: int| 0 <= j < i ==> !present@[j],
                decreases names.len() - i,
            {
                if present[i] {
                    let p = path_join(d, names[i].as_str());
                    assert(present@[i as int] && p@ == join_path(dir->0@, names@[i as int]@));
                    return Some(p);
                }
                i += 1;
            }
            None
        },
    }
}

/// Result of a background cover lookup: the image path, if any.
#[derive(Debug, Clone)]
pub struct CoverDone {
    pub id: u64,
    pub image: Option<String>,
}

/// Snapshot of the cover settings handed to the background lookup.
#[derive(Debug, Clone)]
pub struct CoverConfig {
    /// Source keys (`CoverSource::key`) in priority order.
    pub priority: Vec<String>,
    /// Cover file names looked up in the album folder.
    pub folder_names: Vec<String>,
    /// Whether online lookup is allowed.
    pub online: bool,
}

pub open spec fn source_keys(s: Seq<CoverSource>) -> Seq<Seq<char>> {
    s.map_values(|c: CoverSource| c.spec_key())
}

pub open spec fn string_views(v: Seq<String>) -> Seq<Seq<char>> {
    v.map_values(|s: String| s@)
}

impl CoverConfig {
    /// Snapshot the cover settings.
    pub fn from_settings(s: &Settings) -> (r: CoverConfig)
        ensures
            string_views(r.priority@) == source_keys(s.cover_priority@),
            string_views(r.folder_names@) == string_views(s.cover_folder_names@),
            r.online == s.cover_online,
    {
        let mut priority: Vec<String> = Vec::new();
        let mut i: usize = 0;
        while i < s.cover_priority.len()
            invariant
                i <= s.cover_priority@.len(),
                priority@.len() == i,
                forall|j: int|
                    0 <= j < i ==> (#[trigger] priority@[j])@ == s.cover_priority@[j].spec_key(),
            decreases s.cover_priority.len() - i,
        {
            let k = owned(s.cover_priority[i].key());
            priority.push(k);
            i += 1;
        }
        assert(string_views(priority@) =~= source_keys(s.cover_priority@));
        let mut folder_names: Vec<String> = Vec::new();
        let mut j: usize = 0;
        while j < s.cover_folder_names.len()
            invariant
                j <= s.cover_folder_names@.len(),
                folder_names@.len() == j,
                forall|k: int|
                    0 <= k < j ==> (#[trigger] folder_names@[k])@ == s.cover_folder_names@[k]@,
            decreases s.cover_folder_names.len() - j,
        {
            let n = owned(s.cover_folder_names[j].as_str());
            folder_names.push(n);
            j += 1;
        }
        assert(string_views(folder_names@) =~= string_views(s.cover_folder_names@));
        CoverConfig { priority, folder_names, online: s.cover_online }
    }
}

/// The sources to try, in order: each known priority key, except the online
/// source when online lookup is off; unknown keys are skipped.
pub open spec fn spec_sources_to_try(keys: Seq<Seq<char>>, online: bool) -> Seq<CoverSource>
    decreases keys.len(),
{
    if keys.len() == 0 {
        Seq::empty()
    } else {
        let rest = spec_sources_to_try(keys.drop_last(), online);
        let k = keys.last();
        if k == CoverSource::Folder.spec_key() {
            rest.push(CoverSource::Folder)
        } else if k == CoverSource::Embedded.spec_key() {
            rest.push(CoverSource::Embedded)
        } else if k == CoverSource::Internet.spec_key() && online {
            rest.push(CoverSource::Internet)
        } else {
            rest
        }
    }
}

/// Order in which the lookup tries the cover sources of `cfg`; the first
/// source that yields an image wins.
pub fn sources_to_try(cfg: &CoverConfig) -> (r: Vec<CoverSource>)
    ensures
        r@ == spec_sources_to_try(string_views(cfg.priority@), cfg.online),
{
    let mut out: Vec<CoverSource> = Vec::new();
    let mut i: usize = 0;
    while i < cfg.priority.len()
        invariant
            i <= cfg.priority@.len(),
            out@ == spec_sources_to_try(string_views(cfg.priority@.take(i as int)), cfg.online),
        decreases cfg.priority.len() - i,
    {
        let k = cfg.priority[i].as_str();
        proof {
            assert(string_views(cfg.priority@.take(i + 1)).drop_last() =~= string_views(
                cfg.priority@.take(i as int),
            ));
        }
        if str_eq(k, CoverSource::Folder.key()) {
            out.push(CoverSource::Folder);
        } else if str_eq(k, CoverSource::Embedded.key()) {
            out.push(CoverSource::Embedded);
        } else if str_eq(k, CoverSource::Internet.key()) && cfg.online {
            out.push(CoverSource::Internet);
        }
        i += 1;
    }
    assert(cfg.priority@.take(cfg.priority@.len() as int) =~= cfg.priority@);
    out
}

// ---------------------------------------------------------------------------
// Image type
// ---------------------------------------------------------------------------

/// `data[off..off + pat.len()] == pat`.
pub open spec fn bytes_at(data: Seq<u8>, off: int, pat: Seq<u8>) -> bool {
    off + pat.len() <= data.len() && data.subrange(off, off + pat.len()) == pat
}

/// Image type from the magic bytes: JPEG, PNG, GIF or WebP.
pub open spec fn spec_sniff_ext(data: Seq<u8>) -> Option<Seq<char>> {
    if bytes_at(data, 0, seq![0xFFu8, 0xD8]) {
        Some("jpg"@)
    } else if bytes_at(data, 0, seq![0x89u8, 0x50, 0x4E, 0x47, 0x0D, 0x0A, 0x1A, 0x0A]) {
        Some("png"@)
    } else if bytes_at(data, 0, seq![0x47u8, 0x49, 0x46, 0x38]) {
        Some("gif"@)
    } else if bytes_at(data, 0, seq![0x52u8, 0x49, 0x46, 0x46]) && bytes_at(
        data,
        8,
        seq![0x57u8, 0x45, 0x42, 0x50],
    ) {
        Some("webp"@)
    } else {
        None
    }
}

fn has_bytes_at(data: &[u8], off: usize, pat: &[u8]) -> (r: bool)
    ensures
        r == bytes_at(data@, off as int, pat@),
{
    if off > data.len() || pat.len() > data.len() - off {
        return false;
    }
    let dl = data.len();
    let mut k: usize = 0;
    while k < pat.len()
        invariant
            dl == data@.len(),
            k <= pat@.len(),
            off + pat@.len() <= data@.len(),
            forall|j: int| 0 <= j < k ==> data@[off + j] == pat@[j],
        decreases pat.len() - k,
    {
        if data[off + k] != pat[k] {
            assert(data@.subrange(off as int, off + pat@.len())[k as int] != pat@[k as int]);
            return false;
        }
        k += 1;
    }
    assert(data@.subrange(off as int, off + pat@.len()) =~= pat@);
    true
}

/// Image extension from the magic bytes of `data`.
pub fn sniff_ext(data: &[u8]) -> (r: Option<&'static str>)
    ensures
        match (r, spec_sniff_ext(data@)) {
            (Some(e), Some(x)) => e@ == x,
            (None, None) => true,
            _ => false,
        },
{
    let jpg: [u8; 2] = [0xFF, 0xD8];
    let png: [u8; 8] = [0x89, 0x50, 0x4E, 0x47, 0x0D, 0x0A, 0x1A, 0x0A];
    let gif: [u8; 4] = [0x47, 0x49, 0x46, 0x38];
    let riff: [u8; 4] = [0x52, 0x49, 0x46, 0x46];
    let webp: [u8; 4] = [0x57, 0x45, 0x42, 0x50];
    assert(jpg@ =~= seq![0xFFu8, 0xD8]);
    assert(png@ =~= seq![0x89u8, 0x50, 0x4E, 0x47, 0x0D, 0x0A, 0x1A, 0x0A]);
    assert(gif@ =~= seq![0x47u8, 0x49, 0x46, 0x38]);
    assert(riff@ =~= seq![0x52u8, 0x49, 0x46, 0x46]);
    assert(webp@ =~= seq![0x57u8, 0x45, 0x42, 0x50]);
    if has_bytes_at(data, 0, &jpg) {
        Some("jpg")
    } else if has_bytes_at(data, 0, &png) {
        Some("png")
    } else if has_bytes_at(data, 0, &gif) {
        Some("gif")
    } else if has_bytes_at(data, 0, &riff) && has_bytes_at(data, 8, &webp) {
        Some("webp")
    } else {
        None
    }
}

pub open spec fn spec_ext_from_mime(mime: Seq<char>) -> Seq<char> {
    if mime == "image/jpeg"@ {
        "jpg"@
    } else if mime == "image/png"@ {
        "png"@
    } else if mime == "image/svg+xml"@ {
        "svg"@
    } else {
        "jpg"@
    }
}

/// Extension for a MIME type (JPEG, PNG, SVG; anything else is treated as
/// JPEG).
pub fn ext_from_mime(mime: &str) -> (r: &'static str)
    ensures
        r@ == spec_ext_from_mime(mime@),
{
    if str_eq(mime, "image/jpeg") {
        "jpg"
    } else if str_eq(mime, "image/png") {
        "png"
    } else if str_eq(mime, "image/svg+xml") {
        "svg"
    } else {
        "jpg"
    }
}

/// Extension of an embedded cover: the sniffed type, else the declared MIME
/// type when it is JPEG or PNG; only "jpg" and "png" are kept, anything else
/// is stored as "jpg".
pub open spec fn spec_embedded_ext(data: Seq<u8>, media_type: Option<Seq<char>>) -> Seq<char> {
    let cand = match spec_sniff_ext(data) {
        Some(e) => Some(e),
        None => match media_type {
            Some(m) => if m == "image/jpeg"@ || m == "image/png"@ {
                Some(spec_ext_from_mime(m))
            } else {
                None
            },
            None => None,
        },
    };
    match cand {
        Some(e) => if e == "jpg"@ || e == "png"@ {
            e
        } else {
            "jpg"@
        },
        None => "jpg"@,
    }
}

/// Extension to store an embedded cover under (see [`spec_embedded_ext`]).
pub fn embedded_ext(data: &[u8], media_type: Option<&str>) -> (r: &'static str)
    ensures
        r@ == spec_embedded_ext(
            data@,
            match media_type {
                Some(m) => Some(m@),
                None => None,
            },
        ),
{
    let cand = match sniff_ext(data) {
        Some(e) => Some(e),
        None => match media_type {
            Some(m) => if str_eq(m, "image/jpeg") || str_eq(m, "image/png") {
                Some(ext_from_mime(m))
            } else {
                None
            },
            None => None,
        },
    };
    match cand {
        Some(e) => if str_eq(e, "jpg") || str_eq(e, "png") {
            e
        } else {
            "jpg"
        },
        None => "jpg",
    }
}

// ---------------------------------------------------------------------------
// Cache names
// ---------------------------------------------------------------------------

/// Hash of a string as std's `Hash for str` feeds it to a fresh
/// `DefaultHasher`: its UTF-8 bytes and a closing `0xFF`.
pub fn hash_str(s: &str) -> (r: u64)
    ensures
        r == std_hash_bytes(str_hash_bytes(s@)),
{
    let mut b: Vec<u8> = Vec::new();
    push_str_bytes(&mut b, s);
    assert(b@ =~= str_hash_bytes(s@));
    default_hash_bytes(b.as_slice())
}

/// File-name prefix of a cached cover: the hash as 16 lower-case hex digits.
pub fn cache_prefix(hash: u64) -> (r: String)
    ensures
        r@ == hex_fixed(hash as nat, 16, false),
{
    let mut s = String::new();
    append_hex_fixed(&mut s, hash, 16, false);
    s
}

/// File name of a cached cover: `<prefix>.<ext>`.
pub fn cache_file_name(hash: u64, ext: &str) -> (r: String)
    ensures
        r@ == hex_fixed(hash as nat, 16, false) + "."@ + ext@,
{
    let mut s = cache_prefix(hash);
    append_str(&mut s, ".");
    append_str(&mut s, ext);
    s
}

/// Cache key of the embedded cover of the file displayed as `path`.
pub fn embedded_cache_key(path: &str) -> (r: String)
    ensures
        r@ == "embedded|"@ + path@,
{
    let mut s = owned("embedded|");
    append_str(&mut s, path);
    s
}

// ---------------------------------------------------------------------------
// Online lookup
// ---------------------------------------------------------------------------

/// Search term of the online lookup: trimmed artist and album separated by a
/// space, or nothing when both are empty.
pub open spec fn spec_search_term(artist: Seq<char>, album: Seq<char>) -> Option<Seq<char>> {
    let a = trim(artist);
    let b = trim(album);
    if a.len() == 0 && b.len() == 0 {
        None
    } else {
        Some(a + " "@ + b)
    }
}

/// The search term for a track's artist and album (missing ones are empty).
pub fn search_term(artist: Option<&str>, album: Option<&str>) -> (r: Option<String>)
    ensures
        match r {
            Some(t) => spec_search_term(
                match artist {
                    Some(a) => a@,
                    None => Seq::empty(),
                },
                match album {
                    Some(a) => a@,
                    None => Seq::empty(),
                },
            ) == Some(t@),
            None => spec_search_term(
                match artist {
                    Some(a) => a@,
                    None => Seq::empty(),
                },
                match album {
                    Some(a) => a@,
                    None => Seq::empty(),
                },
            ) is None,
        },
{
    let a = trimmed(
        match artist {
            Some(x) => x,
            None => "",
        },
    );
    let b = trimmed(
        match album {
            Some(x) => x,
            None => "",
        },
    );
    proof {
        reveal_strlit("");
    }
    if a.as_str().is_empty() && b.as_str().is_empty() {
        return None;
    }
    let mut t = a;
    append_str(&mut t, " ");
    append_str(&mut t, b.as_str());
    Some(t)
}

/// Cache key of an online lookup.
pub fn internet_cache_key(term: &str) -> (r: String)
    ensures
        r@ == "internet|"@ + term@,
{
    let mut s = owned("internet|");
    append_str(&mut s, term);
    s
}

/// Unreserved characters of RFC 3986 (`A-Z a-z 0-9 - . _ ~`).
pub open spec fn is_unreserved(b: u8) -> bool {
    ||| 0x41 <= b <= 0x5A
    ||| 0x61 <= b <= 0x7A
    ||| 0x30 <= b <= 0x39
    ||| b == 0x2D
    ||| b == 0x2E
    ||| b == 0x5F
    ||| b == 0x7E
}

/// One encoded byte: itself when unreserved, else `%` and two upper-case hex
/// digits.
pub open spec fn encoded_byte(b: u8) -> Seq<char> {
    if is_unreserved(b) {
        seq![b as char]
    } else {
        seq!['%'] + hex_fixed(b as nat, 2, true)
    }
}

/// Percent-encoding of a byte string.
pub open spec fn spec_percent_encode(bytes: Seq<u8>) -> Seq<char>
    decreases bytes.len(),
{
    if bytes.len() == 0 {
        Seq::empty()
    } else {
        spec_percent_encode(bytes.drop_last()) + encoded_byte(bytes.last())
    }
}

/// Percent-encoding (RFC 3986) of the UTF-8 bytes of `s`.
pub fn percent_encode(s: &str) -> (r: String)
    ensures
        r@ == spec_percent_encode(vstd::utf8::encode_utf8(s@)),
{
    let bytes = s.as_bytes();
    let mut out = String::new();
    let mut i: usize = 0;
    while i < bytes.len()
        invariant
            i <= bytes@.len(),
            bytes@ == vstd::utf8::encode_utf8(s@),
            out@ == spec_percent_encode(bytes@.take(i as int)),
        decreases bytes.len() - i,
    {
        let b = bytes[i];
        proof {
            assert(bytes@.take(i + 1).drop_last() =~= bytes@.take(i as int));
        }
        if (0x41 <= b && b <= 0x5A) || (0x61 <= b && b <= 0x7A) || (0x30 <= b && b <= 0x39) || b
            == 0x2D || b == 0x2E || b == 0x5F || b == 0x7E {
            push_char(&mut out, b as char);
        } else {
            push_char(&mut out, '%');
            append_hex_fixed(&mut out, b as u64, 2, true);
        }
        i += 1;
        assert(out@ =~= spec_percent_encode(bytes@.take(i as int)));
    }
    assert(bytes@.take(bytes@.len() as int) =~= bytes@);
    out
}

/// Search request URL of the online lookup (iTunes Search API, albums).
pub fn search_url(term: &str) -> (r: String)
    ensures
        r@ == "https://itunes.apple.com/search?term="@ + spec_percent_encode(vstd::utf8::encode_utf8(term@))
            + "&entity=album&limit=5"@,
{
    let mut s = owned("https://itunes.apple.com/search?term=");
    let enc = percent_encode(term);
    append_str(&mut s, enc.as_str());
    append_str(&mut s, "&entity=album&limit=5");
    s
}

/// The `artworkUrl100` member of each entry of the `results` array of a
/// search reply, where it is a string; `None` when the reply has no
/// `results` array.
pub open spec fn artwork_fields_in(v: JsonView) -> Option<Seq<Option<Seq<char>>>> {
    match field_of(v, "results"@) {
        Some(JsonView::Array(items)) => Some(
            items.map_values(|e: JsonView| str_of(field_of(e, "artworkUrl100"@))),
        ),
        _ => None,
    }
}

/// The `artworkUrl100` members of a search reply (see [`artwork_fields_in`]).
pub fn artwork_fields_of(v: &JsonValue) -> (r: Option<Vec<Option<String>>>)
    ensures
        r.deep_view() == artwork_fields_in(json_view(*v)),
{
    let results = match get_field(v, "results") {
        Some(x) => x,
        None => return None,
    };
    match results {
        JsonValue::Array(items) => {
            let ghost iv = match json_view(*results) {
                JsonView::Array(s) => s,
                _ => Seq::empty(),
            };
            assert forall|j: int| 0 <= j < items@.len() implies #[trigger] iv[j] == json_view(items@[j]) by {}
            let ghost want = iv.map_values(|e: JsonView| str_of(field_of(e, "artworkUrl100"@)));
            let mut out: Vec<Option<String>> = Vec::new();
            let mut i: usize = 0;
            while i < items.len()
                invariant
                    i <= items@.len(),
                    iv.len() == items@.len(),
                    forall|j: int| 0 <= j < items@.len() ==> #[trigger] iv[j] == json_view(items@[j]),
                    want == iv.map_values(|e: JsonView| str_of(field_of(e, "artworkUrl100"@))),
                    out.deep_view() == want.take(i as int),
                decreases items.len() - i,
            {
                let f = match get_field(&items[i], "artworkUrl100") {
                    Some(x) => as_str_value(x),
                    None => None,
                };
                assert(want[i as int] == str_of(field_of(json_view(items@[i as int]), "artworkUrl100"@)));
                assert(f.deep_view() == want[i as int]);
                let ghost before = out.deep_view();
                out.push(f);
                assert(out.deep_view() =~= before.push(f.deep_view()));
                i += 1;
                assert(out.deep_view() =~= want.take(i as int));
            }
            assert(want.take(i as int) =~= want);
            Some(out)
        },
        _ => None,
    }
}

/// The first present entry.
pub open spec fn first_present(s: Seq<Option<Seq<char>>>) -> Option<Seq<char>>
    decreases s.len(),
{
    if s.len() == 0 {
        None
    } else if s[0] is Some {
        s[0]
    } else {
        first_present(s.drop_first())
    }
}

/// The artwork URL asks for 600x600 instead of the 100x100 preview.
pub fn large_artwork_url(url: &str) -> (r: String)
    ensures
        r@ == replace_all(url@, "100x100"@, "600x600"@),
{
    proof {
        reveal_strlit("100x100");
    }
    replace(url, "100x100", "600x600")
}

/// URL of the large artwork among the `artworkUrl100` fields of a search
/// reply: the first present one, asking for 600x600 instead of 100x100.
pub fn artwork_from_fields(fields: &[Option<String>]) -> (r: Option<String>)
    ensures
        match first_present(fields.deep_view()) {
            Some(a) => r matches Some(u) && u@ == replace_all(a, "100x100"@, "600x600"@),
            None => r is None,
        },
{
    let ghost d = fields.deep_view();
    assert(d.skip(0) =~= d);
    let mut i: usize = 0;
    while i < fields.len()
        invariant
            i <= fields@.len(),
            d == fields.deep_view(),
            first_present(d) == first_present(d.skip(i as int)),
        decreases fields.len() - i,
    {
        assert(d.skip(i as int)[0] == fields@[i as int].deep_view());
        match &fields[i] {
            Some(a) => {
                return Some(large_artwork_url(a.as_str()));
            },
            None => {
                assert(d.skip(i as int).drop_first() =~= d.skip(i + 1));
            },
        }
        i += 1;
    }
    assert(d.skip(i as int).len() == 0);
    None
}

/// URL of the large artwork in a search reply, if the reply names one.
pub fn artwork_from_reply(body: &str) -> (r: Option<String>)
    ensures
        match json_parse(body@) {
            Some(v) => match artwork_fields_in(v) {
                Some(f) => match first_present(f) {
                    Some(a) => r matches Some(u) && u@ == replace_all(a, "100x100"@, "600x600"@),
                    None => r is None,
                },
                None => r is None,
            },
            None => r is None,
        },
{
    let v = match parse_json(body) {
        Some(v) => v,
        None => return None,
    };
    match artwork_fields_of(&v) {
        Some(f) => artwork_from_fields(f.as_slice()),
        None => None,
    }
}

} // verus!
