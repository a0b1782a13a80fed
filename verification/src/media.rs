//! The media-session side of the island: naming the app that plays, the
//! identity of the current track, and the album art handed over by the OS.
//!
//! The shell reads the Windows media bus (SMTC); what it reads is turned into
//! plain values here.

use vstd::prelude::*;
use vstd::string::*;
use crate::text::{
    chars_of, contains, contains_chars, ends_with, lower, lower_chars, string_of, trim_end_all,
    trim_end_chars,
};

verus! {

// ---------------------------------------------------------------------------
// Friendly source names
// ---------------------------------------------------------------------------

/// Known players and browsers: a needle looked for in the lower-cased
/// AppUserModelId, and the label shown for it. The first match wins.
pub open spec fn source_table() -> Seq<(Seq<char>, Seq<char>)> {
    seq![
        ("spotify"@, "Spotify"@),
        ("yandex"@, "Yandex Music"@),
        ("msedge"@, "Microsoft Edge"@),
        ("chrome"@, "Google Chrome"@),
        ("firefox"@, "Firefox"@),
        ("zen"@, "Zen Browser"@),
        ("opera"@, "Opera"@),
        ("brave"@, "Brave"@),
        ("vivaldi"@, "Vivaldi"@),
        ("vlc"@, "VLC"@),
        ("foobar"@, "foobar2000"@),
        ("aimp"@, "AIMP"@),
        ("applemusic"@, "Apple Music"@),
        ("itunes"@, "iTunes"@),
        ("musicbee"@, "MusicBee"@),
        ("winamp"@, "Winamp"@),
        ("deezer"@, "Deezer"@),
        ("tidal"@, "TIDAL"@),
    ]
}

/// The label of the first table entry whose needle occurs in `s`.
pub open spec fn table_label(s: Seq<char>, table: Seq<(Seq<char>, Seq<char>)>) -> Option<Seq<char>>
    decreases table.len(),
{
    if table.len() == 0 {
        None
    } else if contains(s, table[0].0) {
        Some(table[0].1)
    } else {
        table_label(s, table.drop_first())
    }
}

/// Separators of an AppUserModelId: path backslashes and the `!` before the
/// application name.
pub open spec fn is_aumid_sep(c: char) -> bool {
    c == '\\' || c == '!'
}

/// What follows the last separator (`str::rsplit(['\\', '!']).next()`).
pub open spec fn after_last_sep(s: Seq<char>) -> Seq<char>
    decreases s.len(),
{
    if s.len() == 0 {
        s
    } else if is_aumid_sep(s.last()) {
        Seq::empty()
    } else {
        after_last_sep(s.drop_last()).push(s.last())
    }
}

/// The friendly label of a raw AppUserModelId: a known service when one is
/// recognised (Mozilla's hex CLSID counts as Firefox), otherwise the
/// executable name after the last separator with any `.exe` suffix removed.
pub open spec fn spec_friendly_source(aumid: Seq<char>) -> Seq<char> {
    let l = lower(aumid);
    match table_label(l, source_table()) {
        Some(label) => label,
        None => if contains(l, "308046b0af4a39cb"@) {
            "Firefox"@
        } else {
            trim_end_all(after_last_sep(aumid), ".exe"@)
        },
    }
}

fn last_segment_start(v: &Vec<char>) -> (r: usize)
    ensures
        r <= v@.len(),
        after_last_sep(v@) == v@.subrange(r as int, v@.len() as int),
{
    let n = v.len();
    let mut i = n;
    assert(v@.subrange(0, n as int) =~= v@);
    assert(v@.subrange(n as int, n as int) =~= Seq::<char>::empty());
    while i > 0 && !(v[i - 1] == '\\' || v[i - 1] == '!')
        invariant
            i <= n,
            n == v@.len(),
            after_last_sep(v@) == after_last_sep(v@.subrange(0, i as int)) + v@.subrange(i as int, n as int),
        decreases i,
    {
        let ghost pre = v@.subrange(0, i as int);
        assert(pre.drop_last() =~= v@.subrange(0, i - 1));
        assert(v@.subrange(i - 1, n as int) =~= seq![v@[i - 1]] + v@.subrange(i as int, n as int));
        assert(after_last_sep(pre) == after_last_sep(pre.drop_last()).push(pre.last()));
        assert(after_last_sep(pre.drop_last()).push(pre.last()) + v@.subrange(i as int, n as int)
            =~= after_last_sep(v@.subrange(0, i - 1)) + v@.subrange(i - 1, n as int));
        i = i - 1;
    }
    let ghost pre = v@.subrange(0, i as int);
    if i == 0 {
        assert(pre =~= Seq::<char>::empty());
    } else {
        assert(is_aumid_sep(pre.last()));
    }
    assert(after_last_sep(pre) + v@.subrange(i as int, n as int) =~= v@.subrange(i as int, n as int));
    i
}

/// Map a raw AppUserModelId to a friendly service label.
pub fn friendly_source(aumid: &str) -> (r: String)
    ensures
        r@ == spec_friendly_source(aumid@),
{
    let raw = chars_of(aumid);
    let l = lower_chars(&raw);
    let needles: Vec<Vec<char>> = vec![
        chars_of("spotify"),
        chars_of("yandex"),
        chars_of("msedge"),
        chars_of("chrome"),
        chars_of("firefox"),
        chars_of("zen"),
        chars_of("opera"),
        chars_of("brave"),
        chars_of("vivaldi"),
        chars_of("vlc"),
        chars_of("foobar"),
        chars_of("aimp"),
        chars_of("applemusic"),
        chars_of("itunes"),
        chars_of("musicbee"),
        chars_of("winamp"),
        chars_of("deezer"),
        chars_of("tidal"),
    ];
    let labels: Vec<&str> = vec![
        "Spotify",
        "Yandex Music",
        "Microsoft Edge",
        "Google Chrome",
        "Firefox",
        "Zen Browser",
        "Opera",
        "Brave",
        "Vivaldi",
        "VLC",
        "foobar2000",
        "AIMP",
        "Apple Music",
        "iTunes",
        "MusicBee",
        "Winamp",
        "Deezer",
        "TIDAL",
    ];
    let ghost table = source_table();
    assert(forall|j: int| 0 <= j < 18 ==> #[trigger] needles@[j]@ == table[j].0);
    assert(forall|j: int| 0 <= j < 18 ==> #[trigger] labels@[j]@ == table[j].1);
    assert(table.subrange(0, 18) =~= table);
    let mut k: usize = 0;
    while k < 18
        invariant
            k <= 18,
            table == source_table(),
            table.len() == 18,
            needles@.len() == 18,
            labels@.len() == 18,
            l@ == lower(aumid@),
            forall|j: int| 0 <= j < 18 ==> #[trigger] needles@[j]@ == table[j].0,
            forall|j: int| 0 <= j < 18 ==> #[trigger] labels@[j]@ == table[j].1,
            table_label(l@, table) == table_label(l@, table.subrange(k as int, 18)),
        decreases 18 - k,
    {
        let ghost rest = table.subrange(k as int, 18);
        assert(rest[0] == table[k as int]);
        assert(rest.drop_first() =~= table.subrange(k + 1, 18));
        if contains_chars(&l, &needles[k]) {
            return String::from_str(labels[k]);
        }
        k = k + 1;
    }
    assert(table.subrange(18, 18).len() == 0);
    if contains_chars(&l, &chars_of("308046b0af4a39cb")) {
        return String::from_str("Firefox");
    }
    let start = last_segment_start(&raw);
    let tail = string_of(&raw, start, raw.len());
    let tail_chars = chars_of(tail.as_str());
    let exe = chars_of(".exe");
    proof {
        reveal_strlit(".exe");
    }
    let end = trim_end_chars(&tail_chars, tail_chars.len(), &exe);
    assert(tail_chars@.subrange(0, tail_chars@.len() as int) =~= tail_chars@);
    string_of(&tail_chars, 0, end)
}

// ---------------------------------------------------------------------------
// Track identity and time
// ---------------------------------------------------------------------------

/// Stable id of the current track (`artist|title`) for change detection, or
/// `None` when the session carries neither a title nor an artist (nothing
/// worth showing).
pub fn track_identity(title: &str, artist: &str) -> (r: Option<String>)
    ensures
        match r {
            Some(id) => !(title@.len() == 0 && artist@.len() == 0) && id@ == artist@ + "|"@ + title@,
            None => title@.len() == 0 && artist@.len() == 0,
        },
{
    if title.is_empty() && artist.is_empty() {
        return None;
    }
    let mut id = String::from_str(artist);
    id.append("|");
    id.append(title);
    Some(id)
}

/// The playback status a media session reports, as far as the island tells
/// states apart.
#[derive(Debug, Clone, Copy, PartialEq, Eq, Structural)]
pub enum PlaybackState {
    Playing,
    Paused,
    /// Any other status: stopped, closed, opened or changing.
    Stopped,
}

/// The status text the island is sent.
pub open spec fn spec_status_label(state: PlaybackState) -> Seq<char> {
    match state {
        PlaybackState::Playing => "playing"@,
        PlaybackState::Paused => "paused"@,
        PlaybackState::Stopped => "stopped"@,
    }
}

/// The status text of a playback state: `"playing"`, `"paused"` or `"stopped"`.
pub fn status_label(state: PlaybackState) -> (r: &'static str)
    ensures
        r@ == spec_status_label(state),
{
    match state {
        PlaybackState::Playing => "playing",
        PlaybackState::Paused => "paused",
        PlaybackState::Stopped => "stopped",
    }
}

/// 100-ns ticks between 1601-01-01 (the WinRT `DateTime` epoch) and the Unix epoch.
pub open spec fn epoch_1601_to_unix_ticks() -> int {
    116_444_736_000_000_000
}

/// A wall-clock instant, given as nanoseconds since the Unix epoch, as
/// 100-ns ticks since 1601-01-01, so it can be compared with the
/// `LastUpdatedTime` that SMTC reports.
pub fn ticks_since_1601(unix_nanos: u128) -> (r: i64)
    requires
        unix_nanos / 100 + epoch_1601_to_unix_ticks() <= i64::MAX,
    ensures
        r == unix_nanos / 100 + epoch_1601_to_unix_ticks(),
{
    let ticks = (unix_nanos / 100) as i64;
    ticks + 116_444_736_000_000_000
}

// ---------------------------------------------------------------------------
// Album art
// ---------------------------------------------------------------------------

/// Decoded album-art bytes plus a file extension (`"png"` / `"jpg"`).
pub struct Thumbnail {
    pub bytes: Vec<u8>,
    pub ext: &'static str,
}

/// The bytes start with the JPEG magic `FF D8 FF`.
pub open spec fn is_jpeg(bytes: Seq<u8>) -> bool {
    bytes.len() >= 3 && bytes[0] == 0xFF && bytes[1] == 0xD8 && bytes[2] == 0xFF
}

/// The file extension for image bytes: `"jpg"` for JPEG data, else `"png"`.
pub open spec fn spec_image_ext(bytes: Seq<u8>) -> Seq<char> {
    if is_jpeg(bytes) {
        "jpg"@
    } else {
        "png"@
    }
}

/// The file extension for image bytes: `"jpg"` for JPEG data, else `"png"`.
pub fn image_ext(bytes: &[u8]) -> (r: &'static str)
    ensures
        r@ == spec_image_ext(bytes@),
{
    if bytes.len() >= 3 && bytes[0] == 0xFF && bytes[1] == 0xD8 && bytes[2] == 0xFF {
        "jpg"
    } else {
        "png"
    }
}

/// The album art of the current session, from the bytes the shell read off
/// the session's thumbnail stream (`None` when there is no session, no
/// thumbnail, or the platform has no media bus). An empty stream yields no
/// thumbnail.
pub fn fetch_thumbnail(art: Option<Vec<u8>>) -> (r: Option<Thumbnail>)
    ensures
        match r {
            Some(t) => art matches Some(b) && b@.len() > 0 && t.bytes@ == b@ && t.ext@
                == spec_image_ext(b@),
            None => art matches Some(b) ==> b@.len() == 0,
        },
{
    match art {
        None => None,
        Some(bytes) => {
            if bytes.len() == 0 {
                None
            } else {
                let ext = image_ext(bytes.as_slice());
                Some(Thumbnail { bytes, ext })
            }
        },
    }
}

// ---------------------------------------------------------------------------
// Laws
// ---------------------------------------------------------------------------

proof fn lemma_after_last_sep_has_no_sep(s: Seq<char>)
    ensures
        forall|k: int| 0 <= k < after_last_sep(s).len() ==> !is_aumid_sep(#[trigger] after_last_sep(s)[k]),
    decreases s.len(),
{
    if s.len() > 0 && !is_aumid_sep(s.last()) {
        lemma_after_last_sep_has_no_sep(s.drop_last());
        let p = after_last_sep(s.drop_last());
        assert forall|k: int| 0 <= k < p.push(s.last()).len() implies !is_aumid_sep(
            #[trigger] p.push(s.last())[k],
        ) by {
            if k < p.len() {
                assert(p.push(s.last())[k] == p[k]);
            }
        }
    }
}

proof fn lemma_trim_end_all_prefix(s: Seq<char>, suf: Seq<char>)
    ensures
        trim_end_all(s, suf).len() <= s.len(),
        trim_end_all(s, suf) == s.subrange(0, trim_end_all(s, suf).len() as int),
        suf.len() > 0 ==> !ends_with(trim_end_all(s, suf), suf),
    decreases s.len(),
{
    if suf.len() > 0 && ends_with(s, suf) {
        let t = s.subrange(0, s.len() - suf.len());
        lemma_trim_end_all_prefix(t, suf);
        assert(s.subrange(0, trim_end_all(t, suf).len() as int) =~= t.subrange(0, trim_end_all(t, suf).len() as int));
    } else {
        assert(s.subrange(0, s.len() as int) =~= s);
    }
}

/// A source that is not recognised falls back to a bare executable name:
/// it holds no `\` or `!` and does not end in `.exe`.
pub proof fn law_unknown_source_is_bare_name(aumid: Seq<char>)
    requires
        table_label(lower(aumid), source_table()) is None,
        !contains(lower(aumid), "308046b0af4a39cb"@),
    ensures
        forall|k: int| 0 <= k < spec_friendly_source(aumid).len() ==> !is_aumid_sep(
            #[trigger] spec_friendly_source(aumid)[k],
        ),
        !ends_with(spec_friendly_source(aumid), ".exe"@),
{
    let seg = after_last_sep(aumid);
    lemma_after_last_sep_has_no_sep(aumid);
    lemma_trim_end_all_prefix(seg, ".exe"@);
    reveal_strlit(".exe");
    let r = trim_end_all(seg, ".exe"@);
    assert forall|k: int| 0 <= k < r.len() implies !is_aumid_sep(#[trigger] r[k]) by {
        assert(r[k] == seg[k]);
    }
}

proof fn lemma_table_label_first_match(s: Seq<char>, table: Seq<(Seq<char>, Seq<char>)>, k: int)
    requires
        0 <= k < table.len(),
        contains(s, table[k].0),
        forall|j: int| 0 <= j < k ==> !#[trigger] contains(s, table[j].0),
    ensures
        table_label(s, table) == Some(table[k].1),
    decreases k,
{
    if k > 0 {
        let rest = table.drop_first();
        assert(!contains(s, table[0].0));
        assert forall|j: int| 0 <= j < k - 1 implies !#[trigger] contains(s, rest[j].0) by {
            assert(rest[j] == table[j + 1]);
        }
        lemma_table_label_first_match(s, rest, k - 1);
    }
}

/// Each known player and browser is called by its own name: when the
/// lower-cased AppUserModelId mentions the needle of one of the rows below
/// and none of the rows before it, the label is that row's label (e.g. an id
/// mentioning `musicbee` is `MusicBee`, one mentioning `winamp` is `Winamp`).
pub proof fn law_known_player_labels(aumid: Seq<char>, rows: Seq<(Seq<char>, Seq<char>)>, k: int)
    requires
        rows == seq![
            ("spotify"@, "Spotify"@),
            ("yandex"@, "Yandex Music"@),
            ("msedge"@, "Microsoft Edge"@),
            ("chrome"@, "Google Chrome"@),
            ("firefox"@, "Firefox"@),
            ("zen"@, "Zen Browser"@),
            ("opera"@, "Opera"@),
            ("brave"@, "Brave"@),
            ("vivaldi"@, "Vivaldi"@),
            ("vlc"@, "VLC"@),
            ("foobar"@, "foobar2000"@),
            ("aimp"@, "AIMP"@),
            ("applemusic"@, "Apple Music"@),
            ("itunes"@, "iTunes"@),
            ("musicbee"@, "MusicBee"@),
            ("winamp"@, "Winamp"@),
            ("deezer"@, "Deezer"@),
            ("tidal"@, "TIDAL"@),
        ],
        0 <= k < rows.len(),
        contains(lower(aumid), rows[k].0),
        forall|j: int| 0 <= j < k ==> !#[trigger] contains(lower(aumid), rows[j].0),
    ensures
        spec_friendly_source(aumid) == rows[k].1,
{
    assert(rows =~= source_table());
    lemma_table_label_first_match(lower(aumid), source_table(), k);
}

proof fn lemma_after_last_sep_of_tail(pre: Seq<char>, tail: Seq<char>)
    requires
        pre.len() == 0 || is_aumid_sep(pre.last()),
        forall|k: int| 0 <= k < tail.len() ==> !is_aumid_sep(#[trigger] tail[k]),
    ensures
        after_last_sep(pre + tail) == tail,
    decreases tail.len(),
{
    if tail.len() == 0 {
        assert(pre + tail =~= pre);
        if pre.len() > 0 {
            assert(after_last_sep(pre) =~= Seq::<char>::empty());
        }
    } else {
        let t = tail.drop_last();
        lemma_after_last_sep_of_tail(pre, t);
        assert((pre + tail).drop_last() =~= pre + t);
        assert((pre + tail).last() == tail.last());
        assert(after_last_sep(pre + tail) =~= t.push(tail.last()));
        assert(t.push(tail.last()) =~= tail);
    }
}

/// An unrecognised player is called by its executable's name: for an id
/// whose last `\`- or `!`-separated part is `base` or `base.exe` (and that
/// matches no known player nor Mozilla's CLSID), the label is `base`.
pub proof fn law_unknown_source_is_executable_name(pre: Seq<char>, base: Seq<char>, exe: bool)
    requires
        pre.len() == 0 || is_aumid_sep(pre.last()),
        forall|k: int| 0 <= k < base.len() ==> !is_aumid_sep(#[trigger] base[k]),
        !ends_with(base, ".exe"@),
        table_label(lower(pre + base + (if exe { ".exe"@ } else { Seq::empty() })), source_table()) is None,
        !contains(lower(pre + base + (if exe { ".exe"@ } else { Seq::empty() })), "308046b0af4a39cb"@),
    ensures
        spec_friendly_source(pre + base + (if exe { ".exe"@ } else { Seq::empty() })) == base,
{
    reveal_strlit(".exe");
    let suffix: Seq<char> = if exe { ".exe"@ } else { Seq::empty() };
    let tail = base + suffix;
    assert forall|k: int| 0 <= k < tail.len() implies !is_aumid_sep(#[trigger] tail[k]) by {
        if k < base.len() {
            assert(tail[k] == base[k]);
        } else {
            assert(tail[k] == suffix[k - base.len()]);
        }
    }
    lemma_after_last_sep_of_tail(pre, tail);
    assert(pre + base + suffix =~= pre + tail);
    if exe {
        assert(ends_with(tail, ".exe"@)) by {
            assert(tail.subrange(tail.len() - 4, tail.len() as int) =~= ".exe"@);
        }
        assert(tail.subrange(0, tail.len() - 4) =~= base);
        assert(trim_end_all(tail, ".exe"@) == trim_end_all(base, ".exe"@));
    } else {
        assert(tail =~= base);
    }
    assert(trim_end_all(base, ".exe"@) == base);
    assert(after_last_sep(pre + base + suffix) == tail);
}

} // verus!
