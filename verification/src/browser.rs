//! Recognising browsers and the YouTube video they show.
//!
//! SMTC never tells which page a browser is playing, so the shell reads the
//! address bar of each visible browser window and looks for a YouTube watch /
//! shorts / `youtu.be` URL. Everything here decides on text that the shell
//! has already read; none of it touches the operating system.

use vstd::prelude::*;
use vstd::string::*;
use crate::text::{
    first_occurrence, lemma_first_occurrence,
    occurs_at,
    chars_of, contains, contains_chars, find_chars, is_first_occurrence, lemma_first_occurrence_unique,
    lower, lower_chars, str_eq, string_of,
};

verus! {

// ---------------------------------------------------------------------------
// Browser labels
// ---------------------------------------------------------------------------

/// A friendly source label names a web browser when its lower-cased form
/// mentions one of the browser names. "yandex" is deliberately absent: the
/// Yandex Music desktop app shares that label but is a native player.
pub open spec fn spec_is_browser(source: Seq<char>) -> bool {
    let s = lower(source);
    ||| contains(s, "chrome"@)
    ||| contains(s, "edge"@)
    ||| contains(s, "firefox"@)
    ||| contains(s, "zen"@)
    ||| contains(s, "opera"@)
    ||| contains(s, "brave"@)
    ||| contains(s, "vivaldi"@)
}

/// True when a friendly source label looks like a web browser.
pub fn is_browser(source: &str) -> (r: bool)
    ensures
        r == spec_is_browser(source@),
{
    let s = lower_chars(&chars_of(source));
    contains_chars(&s, &chars_of("chrome"))
        || contains_chars(&s, &chars_of("edge"))
        || contains_chars(&s, &chars_of("firefox"))
        || contains_chars(&s, &chars_of("zen"))
        || contains_chars(&s, &chars_of("opera"))
        || contains_chars(&s, &chars_of("brave"))
        || contains_chars(&s, &chars_of("vivaldi"))
}

/// Window classes used by the browsers the shell inspects: the Chromium
/// family (Chrome, Edge, Brave, Opera, Vivaldi, Yandex) and Firefox / Zen.
pub fn is_browser_window_class(class: &str) -> (r: bool)
    ensures
        r == (class@ == "Chrome_WidgetWin_1"@ || class@ == "MozillaWindowClass"@),
{
    str_eq(class, "Chrome_WidgetWin_1") || str_eq(class, "MozillaWindowClass")
}

// ---------------------------------------------------------------------------
// Video ids
// ---------------------------------------------------------------------------

/// Characters a YouTube video id is made of: ASCII letters, digits, `_`, `-`.
pub open spec fn is_id_char(c: char) -> bool {
    ||| ('a' <= c && c <= 'z')
    ||| ('A' <= c && c <= 'Z')
    ||| ('0' <= c && c <= '9')
    ||| c == '_'
    ||| c == '-'
}

/// Length of a YouTube video id.
pub open spec fn video_id_len() -> int {
    11
}

/// The markers that precede a video id, in the order they are tried.
pub open spec fn video_markers() -> Seq<Seq<char>> {
    seq!["v="@, "/shorts/"@, "youtu.be/"@, "/embed/"@, "/live/"@]
}

/// The id that follows the leftmost occurrence of `marker`: the next eleven
/// characters, provided there are eleven and all are id characters.
pub open spec fn id_after(url: Seq<char>, marker: Seq<char>) -> Option<Seq<char>> {
    if contains(url, marker) {
        let start = first_occurrence(url, marker) + marker.len();
        if start + video_id_len() <= url.len() && forall|k: int|
            start <= k < start + video_id_len() ==> #[trigger] is_id_char(url[k]) {
            Some(url.subrange(start, start + video_id_len()))
        } else {
            None
        }
    } else {
        None
    }
}

/// The id found after the first marker of `markers` that yields one.
pub open spec fn id_from_markers(url: Seq<char>, markers: Seq<Seq<char>>) -> Option<Seq<char>>
    decreases markers.len(),
{
    if markers.len() == 0 {
        None
    } else {
        match id_after(url, markers[0]) {
            Some(id) => Some(id),
            None => id_from_markers(url, markers.drop_first()),
        }
    }
}

/// The video id of a watch / shorts / `youtu.be` / embed / live URL: only
/// URLs that mention `youtube.com` or `youtu.be` are considered.
pub open spec fn spec_video_id(url: Seq<char>) -> Option<Seq<char>> {
    if contains(url, "youtube.com"@) || contains(url, "youtu.be"@) {
        id_from_markers(url, video_markers())
    } else {
        None
    }
}

/// The view of an optional string.
pub open spec fn opt_view(o: Option<String>) -> Option<Seq<char>> {
    match o {
        Some(s) => Some(s@),
        None => None,
    }
}

fn is_id_char_exec(c: char) -> (r: bool)
    ensures
        r == is_id_char(c),
{
    ('a' <= c && c <= 'z') || ('A' <= c && c <= 'Z') || ('0' <= c && c <= '9') || c == '_'
        || c == '-'
}

/// The leftmost occurrence found by `find_chars` is the one `first_occurrence` names.
proof fn lemma_first_occurrence_is(s: Seq<char>, pat: Seq<char>, i: int)
    requires
        is_first_occurrence(s, pat, i),
    ensures
        first_occurrence(s, pat) == i,
{
    let k = first_occurrence(s, pat);
    lemma_first_occurrence_unique(s, pat, i, k);
}

fn id_after_marker(url: &Vec<char>, marker: &Vec<char>) -> (r: Option<String>)
    ensures
        opt_view(r) == id_after(url@, marker@),
{
    match find_chars(url, marker) {
        None => None,
        Some(i) => {
            proof {
                lemma_first_occurrence_is(url@, marker@, i as int);
                assert(occurs_at(url@, marker@, i as int));
            }
            let n = url.len();
            let start = i + marker.len();
            if url.len() - start < 11 {
                return None;
            }
            let mut k: usize = 0;
            while k < 11
                invariant
                    start + 11 <= url@.len(),
                    url@.len() <= usize::MAX,
                    contains(url@, marker@),
                    start == first_occurrence(url@, marker@) + marker@.len(),
                    k <= 11,
                    forall|m: int| start <= m < start + k ==> #[trigger] is_id_char(url@[m]),
                decreases 11 - k,
            {
                if !is_id_char_exec(url[start + k]) {
                    assert(!is_id_char(url@[start + k]));
                    return None;
                }
                k = k + 1;
            }
            Some(string_of(url, start, start + 11))
        },
    }
}

/// Pull an 11-char YouTube video id out of a watch / shorts / youtu.be URL.
pub fn extract_video_id(url: &str) -> (r: Option<String>)
    ensures
        opt_view(r) == spec_video_id(url@),
{
    let u = chars_of(url);
    if !(contains_chars(&u, &chars_of("youtube.com")) || contains_chars(&u, &chars_of("youtu.be"))) {
        return None;
    }
    let markers: Vec<Vec<char>> = vec![
        chars_of("v="),
        chars_of("/shorts/"),
        chars_of("youtu.be/"),
        chars_of("/embed/"),
        chars_of("/live/"),
    ];
    let ghost ms = video_markers();
    assert(forall|j: int| 0 <= j < 5 ==> #[trigger] markers@[j]@ == ms[j]);
    assert(ms.subrange(0, 5) =~= ms);
    let mut k: usize = 0;
    while k < 5
        invariant
            k <= 5,
            u@ == url@,
            contains(u@, "youtube.com"@) || contains(u@, "youtu.be"@),
            markers@.len() == 5,
            ms == video_markers(),
            ms.len() == 5,
            forall|j: int| 0 <= j < 5 ==> #[trigger] markers@[j]@ == ms[j],
            id_from_markers(u@, ms) == id_from_markers(u@, ms.subrange(k as int, 5)),
        decreases 5 - k,
    {
        let found = id_after_marker(&u, &markers[k]);
        let ghost rest = ms.subrange(k as int, 5);
        assert(rest[0] == ms[k as int]);
        assert(rest.drop_first() == ms.subrange(k + 1, 5));
        if found.is_some() {
            return found;
        }
        k = k + 1;
    }
    None
}

/// Best high-resolution thumbnail URLs for a video id, best first (the
/// caller falls back to the next one when a resolution is missing).
pub fn thumbnail_urls(id: &str) -> (r: [String; 3])
    ensures
        r[0]@ == "https://i.ytimg.com/vi/"@ + id@ + "/maxresdefault.jpg"@,
        r[1]@ == "https://i.ytimg.com/vi/"@ + id@ + "/sddefault.jpg"@,
        r[2]@ == "https://i.ytimg.com/vi/"@ + id@ + "/hqdefault.jpg"@,
{
    let mut max = String::from_str("https://i.ytimg.com/vi/");
    max.append(id);
    max.append("/maxresdefault.jpg");
    let mut sd = String::from_str("https://i.ytimg.com/vi/");
    sd.append(id);
    sd.append("/sddefault.jpg");
    let mut hq = String::from_str("https://i.ytimg.com/vi/");
    hq.append(id);
    hq.append("/hqdefault.jpg");
    [max, sd, hq]
}

/// The id of the first address bar, in the order given, that shows a YouTube video.
pub open spec fn first_video_id(bars: Seq<Seq<char>>) -> Option<Seq<char>>
    decreases bars.len(),
{
    if bars.len() == 0 {
        None
    } else {
        match spec_video_id(bars[0]) {
            Some(id) => Some(id),
            None => first_video_id(bars.drop_first()),
        }
    }
}

/// The YouTube video shown by the active tab of the open browser windows.
/// `address_bars` are the address-bar texts the shell read, one per visible
/// browser window in enumeration order (empty where the platform offers no
/// UI Automation); the first one that names a video wins.
pub fn active_youtube_video_id(address_bars: &Vec<String>) -> (r: Option<String>)
    ensures
        opt_view(r) == first_video_id(address_bars@.map_values(|s: String| s@)),
{
    let ghost bars = address_bars@.map_values(|s: String| s@);
    assert(bars.subrange(0, bars.len() as int) =~= bars);
    let mut k: usize = 0;
    while k < address_bars.len()
        invariant
            k <= address_bars@.len(),
            bars == address_bars@.map_values(|s: String| s@),
            first_video_id(bars) == first_video_id(bars.subrange(k as int, bars.len() as int)),
        decreases address_bars@.len() - k,
    {
        let found = extract_video_id(address_bars[k].as_str());
        let ghost rest = bars.subrange(k as int, bars.len() as int);
        assert(rest[0] == address_bars@[k as int]@);
        assert(rest.drop_first() == bars.subrange(k + 1, bars.len() as int));
        if found.is_some() {
            return found;
        }
        k = k + 1;
    }
    let ghost empty = bars.subrange(k as int, bars.len() as int);
    assert(empty.len() == 0);
    None
}

// ---------------------------------------------------------------------------
// Laws
// ---------------------------------------------------------------------------

proof fn lemma_id_from_markers_shape(url: Seq<char>, markers: Seq<Seq<char>>)
    ensures
        id_from_markers(url, markers) matches Some(id) ==> {
            &&& id.len() == video_id_len()
            &&& forall|k: int| 0 <= k < id.len() ==> #[trigger] is_id_char(id[k])
            &&& contains(url, id)
        },
    decreases markers.len(),
{
    if markers.len() > 0 {
        lemma_id_from_markers_shape(url, markers.drop_first());
        let m = markers[0];
        if contains(url, m) {
            lemma_first_occurrence(url, m);
            let start = first_occurrence(url, m) + m.len();
            if start + video_id_len() <= url.len() && forall|k: int|
                start <= k < start + video_id_len() ==> #[trigger] is_id_char(url[k]) {
                let id = url.subrange(start, start + video_id_len());
                assert(occurs_at(url, id, start));
                assert forall|k: int| 0 <= k < id.len() implies #[trigger] is_id_char(id[k]) by {
                    assert(id[k] == url[start + k]);
                }
            }
        }
    }
}

/// A video id, when one is found, is exactly eleven id characters, occurs
/// verbatim in the URL, and the URL mentions `youtube.com` or `youtu.be`.
pub proof fn law_video_id_shape(url: Seq<char>)
    ensures
        spec_video_id(url) matches Some(id) ==> {
            &&& id.len() == video_id_len()
            &&& forall|k: int| 0 <= k < id.len() ==> #[trigger] is_id_char(id[k])
            &&& contains(url, id)
            &&& (contains(url, "youtube.com"@) || contains(url, "youtu.be"@))
        },
{
    lemma_id_from_markers_shape(url, video_markers());
}

/// The id of a standard watch URL is read back unchanged, whatever follows it
/// (further query parameters, a timestamp, ...).
pub proof fn law_watch_url_round_trip(id: Seq<char>, rest: Seq<char>)
    requires
        id.len() == video_id_len(),
        forall|k: int| 0 <= k < id.len() ==> #[trigger] is_id_char(id[k]),
    ensures
        spec_video_id("https://www.youtube.com/watch?v="@ + id + rest) == Some(id),
{
    reveal_strlit("https://www.youtube.com/watch?v=");
    reveal_strlit("youtube.com");
    reveal_strlit("v=");
    let p = "https://www.youtube.com/watch?v="@;
    let url = p + id + rest;
    assert(p.len() == 32);
    assert(url.subrange(12, 23) =~= "youtube.com"@);
    assert(occurs_at(url, "youtube.com"@, 12));
    assert(url.subrange(30, 32) =~= "v="@);
    assert(occurs_at(url, "v="@, 30));
    assert forall|j: int| 0 <= j < 30 implies !#[trigger] occurs_at(url, "v="@, j) by {
        assert(url[j] == p[j]);
        assert(p[j] != 'v');
        assert(url.subrange(j, j + 2)[0] == url[j]);
    }
    assert(is_first_occurrence(url, "v="@, 30));
    lemma_first_occurrence_is(url, "v="@, 30);
    assert forall|k: int| 32 <= k < 32 + video_id_len() implies #[trigger] is_id_char(url[k]) by {
        assert(url[k] == id[k - 32]);
    }
    assert(url.subrange(32, 43) =~= id);
    assert(video_markers()[0] == "v="@);
}

/// The id of a `youtu.be` short link is read back unchanged when nothing after
/// it looks like an earlier marker (no `v=` and no `/shorts/` in the rest,
/// and the rest does not start with `=`).
pub proof fn law_short_link_round_trip(id: Seq<char>, rest: Seq<char>)
    requires
        id.len() == video_id_len(),
        forall|k: int| 0 <= k < id.len() ==> #[trigger] is_id_char(id[k]),
        !contains(rest, "v="@),
        !contains(rest, "/shorts/"@),
        rest.len() == 0 || rest[0] != '=',
    ensures
        spec_video_id("https://youtu.be/"@ + id + rest) == Some(id),
{
    reveal_strlit("https://youtu.be/");
    reveal_strlit("youtu.be");
    reveal_strlit("youtu.be/");
    reveal_strlit("v=");
    reveal_strlit("/shorts/");
    let p = "https://youtu.be/"@;
    let url = p + id + rest;
    assert(p.len() == 17);
    assert(url.subrange(8, 16) =~= "youtu.be"@);
    assert(occurs_at(url, "youtu.be"@, 8));
    // No "v=" anywhere.
    assert("v="@[0] == 'v' && "v="@[1] == '=');
    assert forall|j: int| !#[trigger] occurs_at(url, "v="@, j) by {
        if occurs_at(url, "v="@, j) {
            let w = url.subrange(j, j + 2);
            assert(w == "v="@);
            assert(w[0] == url[j] && w[1] == url[j + 1]);
            if j < 17 {
                assert(url[j] == p[j]);
                assert(p[j] != 'v');
            } else if j < 27 {
                assert(url[j + 1] == id[j + 1 - 17]);
                assert(is_id_char(id[j + 1 - 17]));
            } else if j == 27 {
                assert(url[28] == rest[0]);
            } else {
                assert(url.subrange(j, j + 2) =~= rest.subrange(j - 28, j - 26));
                assert(occurs_at(rest, "v="@, j - 28));
            }
        }
    }
    assert(id_after(url, "v="@) is None);
    // No "/shorts/" anywhere.
    let sh = "/shorts/"@;
    assert(sh[0] == '/' && sh[1] == 's' && sh[6] == 's' && sh[7] == '/');
    assert forall|j: int| !#[trigger] occurs_at(url, "/shorts/"@, j) by {
        if occurs_at(url, "/shorts/"@, j) {
            let w = url.subrange(j, j + 8);
            assert(w == sh);
            assert(w[0] == url[j] && w[1] == url[j + 1] && w[7] == url[j + 7]);
            if j < 16 {
                assert(url[j] == p[j]);
                assert(url[j + 1] == p[j + 1]);
                assert(p[j] != '/' || p[j + 1] != 's');
            } else if j == 16 {
                assert(url[23] == id[6]);
                assert(is_id_char(id[6]));
            } else if j < 28 {
                assert(url[j] == id[j - 17]);
                assert(is_id_char(id[j - 17]));
            } else {
                assert(url.subrange(j, j + 8) =~= rest.subrange(j - 28, j - 20));
                assert(occurs_at(rest, "/shorts/"@, j - 28));
            }
        }
    }
    assert(id_after(url, "/shorts/"@) is None);
    // "youtu.be/" first occurs at 8.
    assert(url.subrange(8, 17) =~= "youtu.be/"@);
    assert(occurs_at(url, "youtu.be/"@, 8));
    assert forall|j: int| 0 <= j < 8 implies !#[trigger] occurs_at(url, "youtu.be/"@, j) by {
        assert(url[j] == p[j]);
        assert(url.subrange(j, j + 9)[0] == url[j]);
    }
    lemma_first_occurrence_is(url, "youtu.be/"@, 8);
    assert forall|k: int| 17 <= k < 17 + video_id_len() implies #[trigger] is_id_char(url[k]) by {
        assert(url[k] == id[k - 17]);
    }
    assert(url.subrange(17, 28) =~= id);
    let ms = video_markers();
    assert(ms[0] == "v="@ && ms[1] == "/shorts/"@ && ms[2] == "youtu.be/"@);
    assert(ms.drop_first()[0] == "/shorts/"@);
    assert(ms.drop_first().drop_first()[0] == "youtu.be/"@);
    assert(id_after(url, "youtu.be/"@) == Some(id));
    assert(id_from_markers(url, ms.drop_first().drop_first()) == Some(id));
    assert(id_from_markers(url, ms.drop_first()) == id_from_markers(url, ms.drop_first().drop_first()));
    assert(id_from_markers(url, ms) == id_from_markers(url, ms.drop_first()));
}

/// Whether a label names a browser does not depend on its letter case.
pub proof fn law_is_browser_ignores_case(source: Seq<char>)
    ensures
        spec_is_browser(lower(source)) == spec_is_browser(source),
{
    assert(lower(lower(source)) =~= lower(source));
}

/// When a URL mentions `youtube.com` or `youtu.be`, the eleven id characters
/// right after its leftmost `v=` are its video id; a scheme, a host prefix or
/// anything else before them plays no part.
pub proof fn law_video_id_after_first_v(url: Seq<char>, i: int)
    requires
        contains(url, "youtube.com"@) || contains(url, "youtu.be"@),
        is_first_occurrence(url, "v="@, i),
        i + 2 + video_id_len() <= url.len(),
        forall|k: int| i + 2 <= k < i + 2 + video_id_len() ==> #[trigger] is_id_char(url[k]),
    ensures
        spec_video_id(url) == Some(url.subrange(i + 2, i + 2 + video_id_len())),
{
    reveal_strlit("v=");
    lemma_first_occurrence_is(url, "v="@, i);
    assert(contains(url, "v="@));
    assert(video_markers()[0] == "v="@);
    assert(id_after(url, "v="@) == Some(url.subrange(i + 2, i + 2 + video_id_len())));
}

proof fn lemma_id_from_markers_skips(url: Seq<char>, ms: Seq<Seq<char>>, m: int)
    requires
        0 <= m < ms.len(),
        forall|j: int| 0 <= j < m ==> #[trigger] id_after(url, ms[j]) is None,
        id_after(url, ms[m]) is Some,
    ensures
        id_from_markers(url, ms) == id_after(url, ms[m]),
    decreases m,
{
    if m > 0 {
        assert(id_after(url, ms[0]) is None);
        let rest = ms.drop_first();
        assert forall|j: int| 0 <= j < m - 1 implies #[trigger] id_after(url, rest[j]) is None by {
            assert(rest[j] == ms[j + 1]);
        }
        lemma_id_from_markers_skips(url, rest, m - 1);
    }
}

/// For a URL that mentions `youtube.com` or `youtu.be`, the markers are tried
/// in the order `v=`, `/shorts/`, `youtu.be/`, `/embed/`, `/live/`: when the
/// URL holds none of the markers before the `m`-th and eleven id characters
/// follow the leftmost occurrence of that marker, they are the video id.
pub proof fn law_video_id_after_marker(url: Seq<char>, markers: Seq<Seq<char>>, m: int, i: int)
    requires
        markers == seq!["v="@, "/shorts/"@, "youtu.be/"@, "/embed/"@, "/live/"@],
        contains(url, "youtube.com"@) || contains(url, "youtu.be"@),
        0 <= m < markers.len(),
        forall|j: int| 0 <= j < m ==> !#[trigger] contains(url, markers[j]),
        is_first_occurrence(url, markers[m], i),
        i + markers[m].len() + video_id_len() <= url.len(),
        forall|k: int|
            i + markers[m].len() <= k < i + markers[m].len() + video_id_len() ==> #[trigger] is_id_char(
                url[k],
            ),
    ensures
        spec_video_id(url) == Some(
            url.subrange(i + markers[m].len(), i + markers[m].len() + video_id_len()),
        ),
{
    assert(markers =~= video_markers());
    lemma_first_occurrence_is(url, markers[m], i);
    assert(contains(url, markers[m]));
    assert forall|j: int| 0 <= j < m implies #[trigger] id_after(url, markers[j]) is None by {
        assert(!contains(url, markers[j]));
    }
    lemma_id_from_markers_skips(url, markers, m);
}

/// A watch URL is read whatever stands before `youtube.com` (no scheme as in
/// the address bar's elided form, `https://`, `https://www.`, `m.`, ...), as
/// long as that prefix holds no `v=`; whatever follows the id is ignored.
pub proof fn law_watch_url_any_prefix(pre: Seq<char>, id: Seq<char>, rest: Seq<char>)
    requires
        !contains(pre, "v="@),
        id.len() == video_id_len(),
        forall|k: int| 0 <= k < id.len() ==> #[trigger] is_id_char(id[k]),
    ensures
        spec_video_id(pre + "youtube.com/watch?v="@ + id + rest) == Some(id),
{
    reveal_strlit("youtube.com/watch?v=");
    reveal_strlit("youtube.com");
    reveal_strlit("v=");
    let w = "youtube.com/watch?v="@;
    let url = pre + w + id + rest;
    let n = pre.len() as int;
    assert(w.len() == 20);
    assert(url.subrange(n, n + 11) =~= "youtube.com"@);
    assert(occurs_at(url, "youtube.com"@, n));
    let i = n + 18;
    assert(url.subrange(i, i + 2) =~= "v="@);
    assert forall|j: int| 0 <= j < i implies !#[trigger] occurs_at(url, "v="@, j) by {
        if occurs_at(url, "v="@, j) {
            let x = url.subrange(j, j + 2);
            assert(x[0] == url[j] && x[1] == url[j + 1]);
            assert(url[j] == 'v' && url[j + 1] == '=');
            if j + 2 <= n {
                assert(pre.subrange(j, j + 2) =~= x);
                assert(occurs_at(pre, "v="@, j));
            } else if j + 1 == n {
                assert(url[j + 1] == w[0]);
            } else {
                assert(url[j] == w[j - n]);
            }
        }
    }
    assert forall|k: int| i + 2 <= k < i + 2 + video_id_len() implies #[trigger] is_id_char(url[k]) by {
        assert(url[k] == id[k - (i + 2)]);
    }
    law_video_id_after_first_v(url, i);
    assert(url.subrange(i + 2, i + 2 + video_id_len()) =~= id);
}

/// The first address bar that names a video decides: the result is `None`
/// exactly when no bar names a video, and otherwise the video of a bar all
/// of whose predecessors name none; bars naming no video (a YouTube home
/// page, another site, an empty bar) never stop the search.
pub proof fn law_first_bar_with_video_wins(bars: Seq<Seq<char>>)
    ensures
        first_video_id(bars) is None <==> forall|i: int| 0 <= i < bars.len() ==> #[trigger] spec_video_id(bars[i]) is None,
        first_video_id(bars) matches Some(id) ==> exists|i: int| {
            &&& 0 <= i < bars.len()
            &&& #[trigger] spec_video_id(bars[i]) == Some(id)
            &&& forall|j: int| 0 <= j < i ==> #[trigger] spec_video_id(bars[j]) is None
        },
    decreases bars.len(),
{
    if bars.len() > 0 {
        let rest = bars.drop_first();
        law_first_bar_with_video_wins(rest);
        match spec_video_id(bars[0]) {
            Some(id) => {
                assert(spec_video_id(bars[0]) == Some(id));
            },
            None => {
                assert forall|i: int| 1 <= i < bars.len() implies spec_video_id(bars[i]) == spec_video_id(rest[i - 1]) by {}
                if forall|i: int| 0 <= i < rest.len() ==> #[trigger] spec_video_id(rest[i]) is None {
                    assert forall|i: int| 0 <= i < bars.len() implies #[trigger] spec_video_id(bars[i]) is None by {
                        if i > 0 {
                            assert(spec_video_id(rest[i - 1]) is None);
                        }
                    }
                } else {
                    let i = choose|i: int| 0 <= i < rest.len() && !(#[trigger] spec_video_id(rest[i]) is None);
                    assert(spec_video_id(bars[i + 1]) == spec_video_id(rest[i]));
                }
                if let Some(id) = first_video_id(rest) {
                    let i = choose|i: int| {
                        &&& 0 <= i < rest.len()
                        &&& #[trigger] spec_video_id(rest[i]) == Some(id)
                        &&& forall|j: int| 0 <= j < i ==> #[trigger] spec_video_id(rest[j]) is None
                    };
                    assert(spec_video_id(bars[i + 1]) == Some(id));
                    assert forall|j: int| 0 <= j < i + 1 implies #[trigger] spec_video_id(bars[j]) is None by {
                        if j > 0 {
                            assert(spec_video_id(bars[j]) == spec_video_id(rest[j - 1]));
                        }
                    }
                }
            },
        }
    }
}

/// Whether a label names a browser is decided by the browser names alone: it
/// does exactly when its lower-cased form mentions Chrome, Edge, Firefox,
/// Zen, Opera, Brave or Vivaldi. A player whose label mentions none of them
/// (Spotify, Windows Media Player's `Microsoft.ZuneMusic`, ...) is never
/// taken for a browser, so its art is never looked up on YouTube.
pub proof fn law_browser_names(source: Seq<char>)
    ensures
        spec_is_browser(source) <==> {
            let l = lower(source);
            ||| contains(l, "chrome"@)
            ||| contains(l, "edge"@)
            ||| contains(l, "firefox"@)
            ||| contains(l, "zen"@)
            ||| contains(l, "opera"@)
            ||| contains(l, "brave"@)
            ||| contains(l, "vivaldi"@)
        },
{
}

} // verus!
