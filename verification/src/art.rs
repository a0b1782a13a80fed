//! Album art: cache keys, cache files, data-URIs and the acceptance rules for
//! downloaded and cached images.

use vstd::prelude::*;
use vstd::string::*;
use crate::config::{icons_dir, join_path, spec_icons_dir, spec_join};
use crate::media::{image_ext, spec_image_ext};
use crate::shell::{hex_digit, hex_digit_exec};
use crate::text::{chars_of, string_of};

verus! {

// ---------------------------------------------------------------------------
// File names
// ---------------------------------------------------------------------------

/// Characters that Windows refuses in file names.
pub open spec fn is_reserved_filename_char(c: char) -> bool {
    ||| c == '<'
    ||| c == '>'
    ||| c == ':'
    ||| c == '"'
    ||| c == '/'
    ||| c == '\\'
    ||| c == '|'
    ||| c == '?'
    ||| c == '*'
}

/// `char::is_control`: the general category Cc (U+0000–U+001F, U+007F–U+009F).
pub open spec fn is_control(c: char) -> bool {
    (c as u32) <= 0x1F || (0x7F <= (c as u32) && (c as u32) <= 0x9F)
}

/// Characters written as an escape in a cache key: those a file name cannot
/// hold, the field separator `-`, and the escape character `_` itself. All of
/// them lie below U+0100.
pub open spec fn needs_escape(c: char) -> bool {
    c == '_' || c == '-' || is_reserved_filename_char(c) || is_control(c)
}

/// One character of a key field: `_` and two upper-case hex digits of its code
/// where it needs escaping, the character itself otherwise.
pub open spec fn escape_char(c: char) -> Seq<char> {
    if needs_escape(c) {
        seq!['_', hex_digit((c as u32) as int / 16), hex_digit((c as u32) as int % 16)]
    } else {
        seq![c]
    }
}

/// A key field, character by character escaped.
pub open spec fn escape_field(s: Seq<char>) -> Seq<char>
    decreases s.len(),
{
    if s.len() == 0 {
        Seq::empty()
    } else {
        escape_char(s[0]) + escape_field(s.drop_first())
    }
}

/// What stands between the fields of a key.
pub open spec fn key_separator() -> Seq<char> {
    seq![' ', '-', ' ']
}

/// The three escaped fields of a key, joined by ` - `.
pub open spec fn joined_key(source: Seq<char>, artist: Seq<char>, title: Seq<char>) -> Seq<char> {
    escape_field(source) + key_separator() + escape_field(artist) + key_separator()
        + escape_field(title)
}

/// Longest cache key kept, in characters.
pub open spec fn max_key_chars() -> int {
    80
}

/// The cache key of a track: its joined key, cut to 80 characters.
pub open spec fn spec_art_key(source: Seq<char>, artist: Seq<char>, title: Seq<char>) -> Seq<char> {
    let j = joined_key(source, artist, title);
    if j.len() > max_key_chars() {
        j.subrange(0, max_key_chars())
    } else {
        j
    }
}

proof fn lemma_escape_field_push(s: Seq<char>, c: char)
    ensures
        escape_field(s.push(c)) == escape_field(s) + escape_char(c),
    decreases s.len(),
{
    if s.len() == 0 {
        let t = s.push(c);
        assert(t[0] == c);
        assert(t.drop_first() =~= Seq::<char>::empty());
        assert(escape_field(t.drop_first()) =~= Seq::<char>::empty());
        assert(escape_field(t) =~= escape_char(c) + escape_field(t.drop_first()));
        assert(escape_field(t) =~= escape_char(c));
        assert(escape_field(s) =~= Seq::<char>::empty());
    } else {
        assert(s.push(c).drop_first() =~= s.drop_first().push(c));
        lemma_escape_field_push(s.drop_first(), c);
        assert(escape_field(s.push(c)) =~= escape_field(s) + escape_char(c));
    }
}

fn needs_escape_exec(c: char) -> (r: bool)
    ensures
        r == needs_escape(c),
{
    let u = c as u32;
    c == '_' || c == '-' || c == '<' || c == '>' || c == ':' || c == '"' || c == '/' || c
        == '\\' || c == '|' || c == '?' || c == '*' || u <= 0x1F || (0x7F <= u && u <= 0x9F)
}

fn push_escaped_char(out: &mut String, c: char)
    ensures
        final(out)@ == old(out)@ + escape_char(c),
{
    if needs_escape_exec(c) {
        let code = c as u32;
        out.push('_');
        out.push(hex_digit_exec((code / 16) as u8));
        out.push(hex_digit_exec((code % 16) as u8));
    } else {
        out.push(c);
    }
    assert(final(out)@ =~= old(out)@ + escape_char(c));
}

fn push_escaped_field(out: &mut String, s: &str)
    ensures
        final(out)@ == old(out)@ + escape_field(s@),
{
    let ghost start = out@;
    let cs = chars_of(s);
    let n = cs.len();
    let mut k: usize = 0;
    assert(s@.subrange(0, 0) =~= Seq::<char>::empty());
    while k < n
        invariant
            k <= n,
            n == cs@.len(),
            cs@ == s@,
            out@ == start + escape_field(s@.subrange(0, k as int)),
        decreases n - k,
    {
        proof {
            lemma_escape_field_push(s@.subrange(0, k as int), cs@[k as int]);
            assert(s@.subrange(0, k + 1) =~= s@.subrange(0, k as int).push(cs@[k as int]));
        }
        push_escaped_char(out, cs[k]);
        assert(out@ =~= start + escape_field(s@.subrange(0, k + 1)));
        k = k + 1;
    }
    assert(s@.subrange(0, n as int) =~= s@);
}

/// Cache key for a track's artwork. Scoped by source + artist + title so that
/// the same title in two apps (e.g. Spotify vs Yandex Music) — or two
/// different songs that happen to share a name — never reuse each other's
/// cached art. Each field is escaped one-to-one (reserved characters, control
/// characters, `-` and `_` become `_` and two hex digits), the fields are
/// joined by ` - `, and the key is cut to 80 characters; only keys that reach
/// that length can meet.
pub fn art_key(source: &str, artist: &str, title: &str) -> (r: String)
    ensures
        r@ == spec_art_key(source@, artist@, title@),
{
    let mut joined = String::new();
    push_escaped_field(&mut joined, source);
    joined.append(" - ");
    push_escaped_field(&mut joined, artist);
    joined.append(" - ");
    push_escaped_field(&mut joined, title);
    proof {
        reveal_strlit(" - ");
        assert(joined@ =~= joined_key(source@, artist@, title@));
    }
    let cs = chars_of(joined.as_str());
    let end = if cs.len() > 80 {
        80
    } else {
        cs.len()
    };
    let r = string_of(&cs, 0, end);
    assert(cs.len() <= 80 ==> cs@.subrange(0, end as int) =~= cs@);
    r
}

// ---------------------------------------------------------------------------
// Data URIs
// ---------------------------------------------------------------------------

/// The character for a 6-bit value in the standard base64 alphabet
/// (RFC 4648: `A`–`Z`, `a`–`z`, `0`–`9`, `+`, `/`).
pub open spec fn base64_char(n: int) -> char {
    if n < 26 {
        (65 + n) as char
    } else if n < 52 {
        (97 + n - 26) as char
    } else if n < 62 {
        (48 + n - 52) as char
    } else if n == 62 {
        '+'
    } else {
        '/'
    }
}

/// The standard, padded base64 encoding of `bytes` (RFC 4648, the `base64`
/// crate's `general_purpose::STANDARD` engine): each group of three bytes
/// becomes four characters; a final group of one or two bytes is padded
/// with `=`.
pub open spec fn base64_standard(b: Seq<u8>) -> Seq<char>
    decreases b.len(),
{
    if b.len() == 0 {
        Seq::empty()
    } else if b.len() == 1 {
        let x = b[0] as int;
        seq![base64_char(x / 4), base64_char((x % 4) * 16), '=', '=']
    } else if b.len() == 2 {
        let (x, y) = (b[0] as int, b[1] as int);
        seq![base64_char(x / 4), base64_char((x % 4) * 16 + y / 16), base64_char((y % 16) * 4), '=']
    } else {
        let (x, y, z) = (b[0] as int, b[1] as int, b[2] as int);
        seq![
            base64_char(x / 4),
            base64_char((x % 4) * 16 + y / 16),
            base64_char((y % 16) * 4 + z / 64),
            base64_char(z % 64),
        ] + base64_standard(b.subrange(3, b.len() as int))
    }
}

/// The encoded text of `n` bytes has a length that fits a `usize`; `encode`
/// panics ("integer overflow when calculating buffer size") otherwise.
pub open spec fn base64_fits(n: nat) -> bool {
    4 * ((n + 2) / 3) <= usize::MAX
}

/// `base64::Engine::encode` with the `STANDARD` engine: the result is the
/// standard padded base64 text of the bytes (RFC 4648 alphabet, `=` padding).
/// Inputs whose encoded length would overflow `usize` are left out: there the
/// call panics.
#[verifier::external_body]
fn encode_base64(bytes: &[u8]) -> (r: String)
    requires
        base64_fits(bytes@.len()),
    ensures
        r@ == base64_standard(bytes@),
{
    base64::Engine::encode(&base64::engine::general_purpose::STANDARD, bytes)
}

/// The MIME subtype for a file extension (`jpg` is spelled `jpeg`).
pub open spec fn mime_subtype(ext: Seq<char>) -> Seq<char> {
    if ext == "jpg"@ {
        "jpeg"@
    } else {
        ext
    }
}

/// The data-URI text for an image whose base64 text is `encoded`.
pub open spec fn spec_data_uri(ext: Seq<char>, encoded: Seq<char>) -> Seq<char> {
    "data:image/"@ + mime_subtype(ext) + ";base64,"@ + encoded
}

/// A data-URI for already encoded image data.
pub fn data_uri_from_encoded(ext: &str, encoded: &str) -> (r: String)
    ensures
        r@ == spec_data_uri(ext@, encoded@),
{
    let mut out = String::from_str("data:image/");
    if ext.unicode_len() == 3 && ext.get_char(0) == 'j' && ext.get_char(1) == 'p' && ext.get_char(
        2,
    ) == 'g' {
        proof {
            reveal_strlit("jpg");
            assert(ext@ =~= "jpg"@);
        }
        out.append("jpeg");
    } else {
        proof {
            reveal_strlit("jpg");
            if ext@ == "jpg"@ {
                assert(ext@[0] == 'j' && ext@[1] == 'p' && ext@[2] == 'g');
            }
        }
        out.append(ext);
    }
    out.append(";base64,");
    out.append(encoded);
    out
}

/// Image bytes as a `data:image/...;base64,` URI.
pub fn to_data_uri(bytes: &[u8], ext: &str) -> (r: String)
    requires
        base64_fits(bytes@.len()),
    ensures
        r@ == spec_data_uri(ext@, base64_standard(bytes@)),
{
    let encoded = encode_base64(bytes);
    data_uri_from_encoded(ext, encoded.as_str())
}

// ---------------------------------------------------------------------------
// Cache files and acceptance rules
// ---------------------------------------------------------------------------

/// The cache file of a track's art with the given extension: `<icons>/<key>.<ext>`.
pub open spec fn spec_art_cache_path(key: Seq<char>, ext: Seq<char>) -> Seq<char> {
    spec_join(spec_icons_dir(), key + "."@ + ext)
}

/// The cache file of a track's art with the given extension.
pub fn art_cache_path(key: &str, ext: &str) -> (r: String)
    ensures
        r@ == spec_art_cache_path(key@, ext@),
{
    let mut file = String::from_str(key);
    file.append(".");
    file.append(ext);
    let dir = icons_dir();
    join_path(dir.as_str(), file.as_str())
}

/// Extensions looked up in the cache, in order.
pub open spec fn cache_exts() -> Seq<Seq<char>> {
    seq!["png"@, "jpg"@, "jpeg"@, "ico"@]
}

/// Extensions looked up in the art cache, in the order they are tried.
pub fn cached_art_exts() -> (r: Vec<&'static str>)
    ensures
        r@.map_values(|e: &str| e@) == cache_exts(),
{
    let r: Vec<&'static str> = vec!["png", "jpg", "jpeg", "ico"];
    assert(r@.map_values(|e: &str| e@) =~= cache_exts());
    r
}

/// One place to look for a track's art.
#[derive(Debug, Clone)]
pub enum ArtLookup {
    /// The HD thumbnail of the YouTube video open in a browser tab.
    YouTube,
    /// A file of the on-disk cache, holding an image of type `ext`.
    CachedFile { path: String, ext: &'static str },
    /// The album art the media session hands over (which also seeds the cache).
    Session,
}

/// The abstract form of an `ArtLookup`.
pub enum ArtLookupView {
    YouTube,
    CachedFile { path: Seq<char>, ext: Seq<char> },
    Session,
}

impl View for ArtLookup {
    type V = ArtLookupView;

    open spec fn view(&self) -> ArtLookupView {
        match self {
            ArtLookup::YouTube => ArtLookupView::YouTube,
            ArtLookup::CachedFile { path, ext } => ArtLookupView::CachedFile {
                path: path@,
                ext: ext@,
            },
            ArtLookup::Session => ArtLookupView::Session,
        }
    }
}

/// The cache file of each extension in `cache_exts`, in order.
pub open spec fn spec_cached_lookups(key: Seq<char>) -> Seq<ArtLookupView> {
    cache_exts().map_values(
        |e: Seq<char>| ArtLookupView::CachedFile { path: spec_art_cache_path(key, e), ext: e },
    )
}

/// Where the art of a track with cache key `key`, playing in `source`, is
/// looked for, in order: browser sources try the real YouTube artwork first
/// (the HD copy always wins over the small SMTC one), then the cache files,
/// then the session.
pub open spec fn spec_lookup_plan(source: Seq<char>, key: Seq<char>) -> Seq<ArtLookupView> {
    (if crate::browser::spec_is_browser(source) {
        seq![ArtLookupView::YouTube]
    } else {
        Seq::empty()
    }) + spec_cached_lookups(key) + seq![ArtLookupView::Session]
}

/// The places to look for a track's art, in the order they are tried; the
/// first that yields an image wins.
pub fn art_lookup_plan(source: &str, key: &str) -> (r: Vec<ArtLookup>)
    ensures
        r@.map_values(|l: ArtLookup| l@) == spec_lookup_plan(source@, key@),
{
    let mut plan: Vec<ArtLookup> = Vec::new();
    if crate::browser::is_browser(source) {
        plan.push(ArtLookup::YouTube);
    }
    let ghost head = plan@.map_values(|l: ArtLookup| l@);
    assert(head =~= (if crate::browser::spec_is_browser(source@) {
        seq![ArtLookupView::YouTube]
    } else {
        Seq::empty()
    }));
    let exts = cached_art_exts();
    let n = exts.len();
    let mut k: usize = 0;
    assert(spec_cached_lookups(key@).subrange(0, 0) =~= Seq::<ArtLookupView>::empty());
    assert(plan@.map_values(|l: ArtLookup| l@) =~= head + spec_cached_lookups(key@).subrange(0, 0));
    while k < n
        invariant
            k <= n,
            n == exts@.len(),
            exts@.map_values(|e: &str| e@) == cache_exts(),
            plan@.map_values(|l: ArtLookup| l@) == head + spec_cached_lookups(key@).subrange(
                0,
                k as int,
            ),
        decreases n - k,
    {
        let ext = exts[k];
        let path = art_cache_path(key, ext);
        let ghost before = plan@;
        plan.push(ArtLookup::CachedFile { path, ext });
        proof {
            assert(exts@.map_values(|e: &str| e@)[k as int] == ext@);
            assert(plan@ =~= before.push(ArtLookup::CachedFile { path, ext }));
            assert(plan@.map_values(|l: ArtLookup| l@) =~= before.map_values(|l: ArtLookup| l@).push(
                ArtLookupView::CachedFile { path: path@, ext: ext@ },
            ));
            assert(spec_cached_lookups(key@).subrange(0, k + 1) =~= spec_cached_lookups(
                key@,
            ).subrange(0, k as int).push(spec_cached_lookups(key@)[k as int]));
        }
        k = k + 1;
    }
    assert(spec_cached_lookups(key@).subrange(0, n as int) =~= spec_cached_lookups(key@));
    let ghost before = plan@;
    plan.push(ArtLookup::Session);
    assert(plan@.map_values(|l: ArtLookup| l@) =~= before.map_values(|l: ArtLookup| l@).push(
        ArtLookupView::Session,
    ));
    assert(plan@.map_values(|l: ArtLookup| l@) =~= spec_lookup_plan(source@, key@));
    plan
}

/// A cached file is used when it could be read and is not empty.
pub fn art_from_cache(read: Option<Vec<u8>>, ext: &str) -> (r: Option<String>)
    requires
        read matches Some(b) ==> base64_fits(b@.len()),
    ensures
        match r {
            Some(uri) => read matches Some(b) && b@.len() > 0 && uri@ == spec_data_uri(
                ext@,
                base64_standard(b@),
            ),
            None => read matches Some(b) ==> b@.len() == 0,
        },
{
    match read {
        Some(bytes) => {
            if bytes.len() > 0 {
                Some(to_data_uri(bytes.as_slice(), ext))
            } else {
                None
            }
        },
        None => None,
    }
}

/// Smallest cached `.jpg` taken to be a real high-resolution YouTube
/// thumbnail rather than a small SMTC stub.
pub open spec fn hd_thumbnail_min_bytes() -> int {
    20_000
}

/// A cached YouTube thumbnail is reused when it is large enough to be the HD
/// copy; smaller files are SMTC stubs and are fetched again.
pub fn hd_art_from_cache(read: Option<Vec<u8>>) -> (r: Option<String>)
    requires
        read matches Some(b) ==> base64_fits(b@.len()),
    ensures
        match r {
            Some(uri) => read matches Some(b) && b@.len() >= hd_thumbnail_min_bytes() && uri@
                == spec_data_uri("jpg"@, base64_standard(b@)),
            None => read matches Some(b) ==> b@.len() < hd_thumbnail_min_bytes(),
        },
{
    match read {
        Some(bytes) => {
            if bytes.len() >= 20_000 {
                Some(to_data_uri(bytes.as_slice(), "jpg"))
            } else {
                None
            }
        },
        None => None,
    }
}

/// Smallest downloaded body taken to be a real image; ytimg serves a tiny
/// placeholder for resolutions that do not exist.
pub open spec fn min_download_bytes() -> int {
    2000
}

/// Accept a downloaded image: the request succeeded and the body is not a
/// placeholder. The extension follows the image data.
pub fn accept_download(success: bool, body: Vec<u8>) -> (r: Option<(Vec<u8>, &'static str)>)
    ensures
        match r {
            Some((bytes, ext)) => success && body@.len() >= min_download_bytes() && bytes@
                == body@ && ext@ == spec_image_ext(body@),
            None => !success || body@.len() < min_download_bytes(),
        },
{
    if !success {
        return None;
    }
    if body.len() < 2000 {
        return None;
    }
    let ext = image_ext(body.as_slice());
    Some((body, ext))
}

// ---------------------------------------------------------------------------
// Laws
// ---------------------------------------------------------------------------

/// A character that a Windows file name can hold.
pub open spec fn safe_in_file_name(c: char) -> bool {
    !is_reserved_filename_char(c) && !is_control(c)
}

proof fn lemma_hex_digit_plain(n: int)
    requires
        0 <= n < 16,
    ensures
        hex_digit(n) != '-',
        hex_digit(n) != '_',
        safe_in_file_name(hex_digit(n)),
{
}

proof fn lemma_escape_char_plain(c: char)
    ensures
        escape_char(c).len() > 0,
        escape_char(c)[0] == '_' <==> needs_escape(c),
        needs_escape(c) ==> (c as u32) < 256,
        forall|k: int|
            0 <= k < escape_char(c).len() ==> #[trigger] escape_char(c)[k] != '-' && safe_in_file_name(
                escape_char(c)[k],
            ),
{
    if needs_escape(c) {
        let code = (c as u32) as int;
        assert(code < 256);
        lemma_hex_digit_plain(code / 16);
        lemma_hex_digit_plain(code % 16);
    }
}

/// An escaped field holds no `-` and only characters a file name can hold.
proof fn lemma_escape_field_plain(s: Seq<char>)
    ensures
        forall|k: int|
            0 <= k < escape_field(s).len() ==> #[trigger] escape_field(s)[k] != '-' && safe_in_file_name(
                escape_field(s)[k],
            ),
    decreases s.len(),
{
    if s.len() > 0 {
        lemma_escape_field_plain(s.drop_first());
        lemma_escape_char_plain(s[0]);
        let e = escape_char(s[0]);
        let rest = escape_field(s.drop_first());
        assert forall|k: int| 0 <= k < escape_field(s).len() implies #[trigger] escape_field(s)[k]
            != '-' && safe_in_file_name(escape_field(s)[k]) by {
            if k < e.len() {
                assert(escape_field(s)[k] == e[k]);
            } else {
                assert(escape_field(s)[k] == rest[k - e.len()]);
            }
        }
    }
}

proof fn lemma_hex_pair_decodes(x: int, y: int)
    requires
        0 <= x < 256,
        0 <= y < 256,
        hex_digit(x / 16) == hex_digit(y / 16),
        hex_digit(x % 16) == hex_digit(y % 16),
    ensures
        x == y,
{
    assert(x / 16 == y / 16);
    assert(x % 16 == y % 16);
}

proof fn lemma_same_code_same_char(c: char, d: char)
    requires
        c as u32 == d as u32,
    ensures
        c == d,
{
    assert(0 <= c as int <= 0x10FFFF && 0 <= d as int <= 0x10FFFF);
}

/// Escaping is one-to-one: different fields never escape alike.
proof fn lemma_escape_field_injective(a: Seq<char>, b: Seq<char>)
    requires
        escape_field(a) == escape_field(b),
    ensures
        a == b,
    decreases a.len(),
{
    if a.len() == 0 {
        if b.len() > 0 {
            lemma_escape_char_plain(b[0]);
        }
        assert(a =~= b);
    } else {
        lemma_escape_char_plain(a[0]);
        if b.len() == 0 {
            assert(escape_field(a).len() > 0);
        }
        lemma_escape_char_plain(b[0]);
        let (ca, cb) = (a[0], b[0]);
        let (ea, eb) = (escape_char(ca), escape_char(cb));
        let f = escape_field(a);
        assert(f[0] == ea[0]);
        assert(escape_field(b)[0] == eb[0]);
        if needs_escape(ca) {
            assert(needs_escape(cb));
            assert(f[1] == ea[1] && f[1] == eb[1]);
            assert(f[2] == ea[2] && f[2] == eb[2]);
            lemma_hex_pair_decodes((ca as u32) as int, (cb as u32) as int);
            lemma_same_code_same_char(ca, cb);
        } else {
            assert(ca == cb);
        }
        let n = ea.len() as int;
        assert(escape_field(a.drop_first()) =~= f.subrange(n, f.len() as int));
        assert(escape_field(b.drop_first()) =~= f.subrange(n, f.len() as int));
        lemma_escape_field_injective(a.drop_first(), b.drop_first());
        assert(a =~= seq![ca] + a.drop_first());
        assert(b =~= seq![cb] + b.drop_first());
    }
}

/// A key splits at its first separator: what stands before it holds no `-`.
proof fn lemma_split_at_separator(x1: Seq<char>, r1: Seq<char>, x2: Seq<char>, r2: Seq<char>)
    requires
        forall|k: int| 0 <= k < x1.len() ==> #[trigger] x1[k] != '-',
        forall|k: int| 0 <= k < x2.len() ==> #[trigger] x2[k] != '-',
        x1 + key_separator() + r1 == x2 + key_separator() + r2,
    ensures
        x1 == x2,
        r1 == r2,
{
    let j = x1 + key_separator() + r1;
    let j2 = x2 + key_separator() + r2;
    if x1.len() < x2.len() {
        let i = x1.len() as int + 1;
        assert(j[i] == '-');
        if i < x2.len() {
            assert(j2[i] == x2[i]);
        } else {
            assert(j2[i] == ' ');
        }
    }
    if x2.len() < x1.len() {
        let i = x2.len() as int + 1;
        assert(j2[i] == '-');
        if i < x1.len() {
            assert(j[i] == x1[i]);
        } else {
            assert(j[i] == ' ');
        }
    }
    assert(x1 =~= j.subrange(0, x1.len() as int));
    assert(x2 =~= j2.subrange(0, x2.len() as int));
    assert(r1 =~= j.subrange(x1.len() as int + 3, j.len() as int));
    assert(r2 =~= j2.subrange(x2.len() as int + 3, j2.len() as int));
}

/// Cache keys keep tracks apart: two tracks that differ in source, artist or
/// title (the same title in two apps, or two songs sharing a name) get
/// different keys, as long as neither joined key is longer than the 80
/// characters a key keeps.
pub proof fn law_art_key_keeps_tracks_apart(
    s1: Seq<char>,
    a1: Seq<char>,
    t1: Seq<char>,
    s2: Seq<char>,
    a2: Seq<char>,
    t2: Seq<char>,
)
    requires
        s1 != s2 || a1 != a2 || t1 != t2,
        joined_key(s1, a1, t1).len() <= max_key_chars(),
        joined_key(s2, a2, t2).len() <= max_key_chars(),
    ensures
        spec_art_key(s1, a1, t1) != spec_art_key(s2, a2, t2),
{
    if spec_art_key(s1, a1, t1) == spec_art_key(s2, a2, t2) {
        lemma_escape_field_plain(s1);
        lemma_escape_field_plain(s2);
        lemma_escape_field_plain(a1);
        lemma_escape_field_plain(a2);
        let sep = key_separator();
        let rest1 = escape_field(a1) + sep + escape_field(t1);
        let rest2 = escape_field(a2) + sep + escape_field(t2);
        assert(joined_key(s1, a1, t1) =~= escape_field(s1) + sep + rest1);
        assert(joined_key(s2, a2, t2) =~= escape_field(s2) + sep + rest2);
        lemma_split_at_separator(escape_field(s1), rest1, escape_field(s2), rest2);
        lemma_split_at_separator(escape_field(a1), escape_field(t1), escape_field(a2), escape_field(t2));
        lemma_escape_field_injective(s1, s2);
        lemma_escape_field_injective(a1, a2);
        lemma_escape_field_injective(t1, t2);
    }
}

/// A cache key is a usable file name: never empty, at most 80 characters
/// long, and free of reserved and control characters.
pub proof fn law_art_key_is_safe(source: Seq<char>, artist: Seq<char>, title: Seq<char>)
    ensures
        0 < spec_art_key(source, artist, title).len() <= max_key_chars(),
        forall|k: int|
            0 <= k < spec_art_key(source, artist, title).len() ==> safe_in_file_name(
                #[trigger] spec_art_key(source, artist, title)[k],
            ),
{
    lemma_escape_field_plain(source);
    lemma_escape_field_plain(artist);
    lemma_escape_field_plain(title);
    let (es, ea, et) = (escape_field(source), escape_field(artist), escape_field(title));
    let sep = key_separator();
    let j = joined_key(source, artist, title);
    assert forall|k: int| 0 <= k < j.len() implies safe_in_file_name(#[trigger] j[k]) by {
        let p1 = es.len() as int;
        let p2 = p1 + 3;
        let p3 = p2 + ea.len();
        let p4 = p3 + 3;
        if k < p1 {
            assert(j[k] == es[k]);
        } else if k < p2 {
            assert(j[k] == sep[k - p1]);
        } else if k < p3 {
            assert(j[k] == ea[k - p2]);
        } else if k < p4 {
            assert(j[k] == sep[k - p3]);
        } else {
            assert(j[k] == et[k - p4]);
        }
    }
    let r = spec_art_key(source, artist, title);
    assert forall|k: int| 0 <= k < r.len() implies safe_in_file_name(#[trigger] r[k]) by {
        assert(r[k] == j[k]);
    }
}

/// A data-URI always announces an image and its base64 payload.
pub proof fn law_data_uri_prefix(ext: Seq<char>, encoded: Seq<char>)
    ensures
        spec_data_uri(ext, encoded).subrange(0, 11) == "data:image/"@,
        spec_data_uri("jpg"@, encoded) == "data:image/jpeg;base64,"@ + encoded,
{
    reveal_strlit("data:image/");
    reveal_strlit("data:image/jpeg;base64,");
    reveal_strlit("jpeg");
    reveal_strlit(";base64,");
    assert(spec_data_uri(ext, encoded).subrange(0, 11) =~= "data:image/"@);
    assert(spec_data_uri("jpg"@, encoded) =~= "data:image/jpeg;base64,"@ + encoded);
}

} // verus!
