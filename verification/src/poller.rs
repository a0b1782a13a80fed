//! The decisions of the background media poller.
//!
//! Every tick the shell reads the media snapshot and asks the poller what to
//! send to the island. Some players (Yandex Music, browsers) publish their
//! album art a beat after the track changes, so the art lookup is retried on
//! later ticks, up to a limit, until it shows up. The shell performs the
//! lookup when asked to and reports what it found.

use vstd::prelude::*;
use vstd::string::*;

verus! {

/// Art lookups tried per track before giving up (about 6 s at the 500 ms
/// poll interval).
pub open spec fn max_art_tries() -> nat {
    12
}

/// What the island is sent on a tick where no lookup is needed.
#[derive(Debug, Clone, Copy, PartialEq, Eq, Structural)]
pub enum PollStep {
    /// Send the snapshot. With `clear`, the art is cleared (an empty
    /// data-URI); otherwise it is left as it is. `changed` tells the island
    /// the track changed.
    Emit { clear: bool, changed: bool },
    /// Look the art up now and report it with `ArtPoller::art_found`.
    FetchArt { changed: bool },
}

/// The poller's memory between ticks.
pub struct ArtPoller {
    last_track: String,
    have_art: bool,
    art_tries: u32,
}

/// The abstract state of the poller.
pub struct PollerView {
    pub last_track: Seq<char>,
    pub have_art: bool,
    pub art_tries: nat,
}

impl View for ArtPoller {
    type V = PollerView;

    closed spec fn view(&self) -> PollerView {
        PollerView {
            last_track: self.last_track@,
            have_art: self.have_art,
            art_tries: self.art_tries as nat,
        }
    }
}

/// One tick: the new state and what to do, given whether a media session
/// exists and the id of the current track.
pub open spec fn spec_observe(v: PollerView, has_session: bool, track: Seq<char>) -> (
    PollerView,
    PollStep,
) {
    let changed = track != v.last_track;
    let have = if changed {
        false
    } else {
        v.have_art
    };
    let tries = if changed {
        0
    } else {
        v.art_tries
    };
    let kept = PollerView { last_track: track, have_art: have, art_tries: tries };
    if !has_session {
        (kept, PollStep::Emit { clear: changed, changed })
    } else if have {
        (kept, PollStep::Emit { clear: false, changed })
    } else if tries < max_art_tries() {
        (
            PollerView { last_track: track, have_art: false, art_tries: tries + 1 },
            PollStep::FetchArt { changed },
        )
    } else {
        (kept, PollStep::Emit { clear: false, changed })
    }
}

/// The outcome of a lookup: a non-empty data-URI is shown and ends the
/// retries; a miss clears stale art at once on a track change and is
/// otherwise retried on the next tick.
pub open spec fn spec_art_found(v: PollerView, changed: bool, uri: Seq<char>) -> (
    PollerView,
    Option<Seq<char>>,
) {
    if uri.len() > 0 {
        (PollerView { have_art: true, ..v }, Some(uri))
    } else if changed {
        (v, Some(Seq::empty()))
    } else {
        (v, None)
    }
}

impl ArtPoller {
    /// The poller's invariant: the retry count never passes the limit.
    #[verifier::type_invariant]
    spec fn tries_within_limit(self) -> bool {
        self.art_tries <= max_art_tries()
    }

    /// A poller that has seen no track yet.
    pub fn new() -> (r: ArtPoller)
        ensures
            r@.last_track == Seq::<char>::empty(),
            !r@.have_art,
            r@.art_tries == 0,
    {
        ArtPoller { last_track: String::new(), have_art: false, art_tries: 0 }
    }

    /// Take in the snapshot of this tick.
    pub fn observe(&mut self, has_session: bool, track_id: &str) -> (r: PollStep)
        ensures
            (final(self)@, r) == spec_observe(old(self)@, has_session, track_id@),
            final(self)@.art_tries <= max_art_tries(),
    {
        proof {
            use_type_invariant(&*self);
        }
        let changed = !crate::text::str_eq(track_id, self.last_track.as_str());
        if changed {
            self.have_art = false;
            self.art_tries = 0;
        }
        self.last_track = String::from_str(track_id);
        if !has_session {
            PollStep::Emit { clear: changed, changed }
        } else if self.have_art {
            PollStep::Emit { clear: false, changed }
        } else if self.art_tries < 12 {
            self.art_tries = self.art_tries + 1;
            PollStep::FetchArt { changed }
        } else {
            PollStep::Emit { clear: false, changed }
        }
    }

    /// Report the data-URI the lookup produced (empty when it found nothing);
    /// returns the art to send with this tick's snapshot (`None` = unchanged,
    /// empty = cleared).
    pub fn art_found(&mut self, changed: bool, uri: String) -> (r: Option<String>)
        ensures
            (final(self)@, crate::browser::opt_view(r)) == spec_art_found(old(self)@, changed, uri@),
            final(self)@.art_tries <= max_art_tries(),
    {
        proof {
            use_type_invariant(&*self);
        }
        if uri.unicode_len() > 0 {
            self.have_art = true;
            Some(uri)
        } else if changed {
            Some(String::new())
        } else {
            None
        }
    }
}

// ---------------------------------------------------------------------------
// Laws
// ---------------------------------------------------------------------------

/// A track change never leaves the previous track's art on screen: the tick
/// either clears it at once or looks the new art up, and a lookup that finds
/// nothing then clears it.
pub proof fn law_track_change_replaces_art(
    v: PollerView,
    has_session: bool,
    track: Seq<char>,
    uri: Seq<char>,
)
    requires
        track != v.last_track,
    ensures
        match spec_observe(v, has_session, track).1 {
            PollStep::Emit { clear, changed } => clear && changed,
            PollStep::FetchArt { changed } => changed && spec_art_found(
                spec_observe(v, has_session, track).0,
                changed,
                uri,
            ).1 is Some,
        },
{
}

/// Once art is shown for a track, the following ticks of that track do not
/// look it up again.
pub proof fn law_found_art_is_kept(v: PollerView, uri: Seq<char>, has_session: bool)
    requires
        uri.len() > 0,
    ensures
        spec_observe(spec_art_found(v, false, uri).0, has_session, v.last_track).1
            == (PollStep::Emit { clear: false, changed: false }),
{
}

/// A track whose lookups keep missing is looked up at most `max_art_tries`
/// times: once the limit is reached, ticks of the same track only emit.
pub proof fn law_lookups_are_bounded(v: PollerView, has_session: bool)
    requires
        v.art_tries >= max_art_tries(),
    ensures
        spec_observe(v, has_session, v.last_track).1 is Emit,
{
}

/// Every lookup of the same track counts against the limit.
pub proof fn law_lookup_counts(v: PollerView, has_session: bool, track: Seq<char>)
    requires
        spec_observe(v, has_session, track).1 is FetchArt,
    ensures
        spec_observe(v, has_session, track).0.art_tries == (if track == v.last_track {
            v.art_tries + 1
        } else {
            1
        }),
{
}

// ---------------------------------------------------------------------------
// Runs of ticks
// ---------------------------------------------------------------------------

/// One whole tick with a media session playing `track`: the new state,
/// whether the art was looked up, and the art sent with the snapshot
/// (`None` = unchanged). `uri` is what a lookup on this tick returns
/// (empty = nothing found); it is not used when no lookup happens.
pub open spec fn spec_tick(v: PollerView, track: Seq<char>, uri: Seq<char>) -> (
    PollerView,
    bool,
    Option<Seq<char>>,
) {
    let (v1, step) = spec_observe(v, true, track);
    match step {
        PollStep::Emit { clear, changed } => (
            v1,
            false,
            if clear {
                Some(Seq::empty())
            } else {
                None
            },
        ),
        PollStep::FetchArt { changed } => {
            let (v2, thumb) = spec_art_found(v1, changed, uri);
            (v2, true, thumb)
        },
    }
}

/// Whether each tick of a run of ticks of `track` looked the art up;
/// `uris[i]` is what a lookup on tick `i` returns.
pub open spec fn run_lookups(v: PollerView, track: Seq<char>, uris: Seq<Seq<char>>) -> Seq<bool>
    decreases uris.len(),
{
    if uris.len() == 0 {
        Seq::empty()
    } else {
        let (v1, looked, _) = spec_tick(v, track, uris[0]);
        seq![looked] + run_lookups(v1, track, uris.subrange(1, uris.len() as int))
    }
}

/// The art sent on each tick of a run of ticks of `track`.
pub open spec fn run_thumbs(v: PollerView, track: Seq<char>, uris: Seq<Seq<char>>) -> Seq<
    Option<Seq<char>>,
>
    decreases uris.len(),
{
    if uris.len() == 0 {
        Seq::empty()
    } else {
        let (v1, _, thumb) = spec_tick(v, track, uris[0]);
        seq![thumb] + run_thumbs(v1, track, uris.subrange(1, uris.len() as int))
    }
}

/// How many entries are `true`.
pub open spec fn count_true(s: Seq<bool>) -> nat
    decreases s.len(),
{
    if s.len() == 0 {
        0
    } else {
        (if s[0] {
            1nat
        } else {
            0nat
        }) + count_true(s.subrange(1, s.len() as int))
    }
}

proof fn lemma_run_lens(v: PollerView, track: Seq<char>, uris: Seq<Seq<char>>)
    ensures
        run_lookups(v, track, uris).len() == uris.len(),
        run_thumbs(v, track, uris).len() == uris.len(),
    decreases uris.len(),
{
    if uris.len() > 0 {
        let (v1, _, _) = spec_tick(v, track, uris[0]);
        lemma_run_lens(v1, track, uris.subrange(1, uris.len() as int));
    }
}

/// With art already shown for `track`, later ticks of it neither look up
/// nor send art.
proof fn lemma_quiet_after_art(v: PollerView, track: Seq<char>, uris: Seq<Seq<char>>)
    requires
        v.last_track == track,
        v.have_art,
    ensures
        forall|j: int| 0 <= j < uris.len() ==> !#[trigger] run_lookups(v, track, uris)[j],
        forall|j: int| 0 <= j < uris.len() ==> #[trigger] run_thumbs(v, track, uris)[j] is None,
        count_true(run_lookups(v, track, uris)) == 0,
    decreases uris.len(),
{
    if uris.len() > 0 {
        let rest = uris.subrange(1, uris.len() as int);
        let (v1, _, _) = spec_tick(v, track, uris[0]);
        assert(v1 == v);
        lemma_quiet_after_art(v, track, rest);
        lemma_run_lens(v, track, rest);
        assert forall|j: int| 0 <= j < uris.len() implies !#[trigger] run_lookups(v, track, uris)[j]
            && run_thumbs(v, track, uris)[j] is None by {
            if j > 0 {
                assert(run_lookups(v, track, uris)[j] == run_lookups(v, track, rest)[j - 1]);
                assert(run_thumbs(v, track, uris)[j] == run_thumbs(v, track, rest)[j - 1]);
            }
        }
        assert(run_lookups(v, track, uris).subrange(1, uris.len() as int) =~= run_lookups(v, track, rest));
    }
}

/// Lookups of a track already seen are bounded by the tries left.
proof fn lemma_lookups_left(v: PollerView, track: Seq<char>, uris: Seq<Seq<char>>)
    requires
        v.last_track == track,
        v.art_tries <= max_art_tries(),
    ensures
        count_true(run_lookups(v, track, uris)) + v.art_tries <= max_art_tries(),
    decreases uris.len(),
{
    if uris.len() > 0 {
        let rest = uris.subrange(1, uris.len() as int);
        let (v1, looked, _) = spec_tick(v, track, uris[0]);
        lemma_run_lens(v1, track, rest);
        assert(run_lookups(v, track, uris).subrange(1, uris.len() as int) =~= run_lookups(v1, track, rest));
        if v1.have_art {
            lemma_quiet_after_art(v1, track, rest);
        } else {
            lemma_lookups_left(v1, track, rest);
        }
    }
}

/// Over a whole run of ticks in which a session keeps playing the same track,
/// the art is looked up at most `max_art_tries` times.
pub proof fn law_run_lookups_bounded(v: PollerView, track: Seq<char>, uris: Seq<Seq<char>>)
    requires
        v.art_tries <= max_art_tries(),
    ensures
        count_true(run_lookups(v, track, uris)) <= max_art_tries(),
{
    if uris.len() > 0 {
        let rest = uris.subrange(1, uris.len() as int);
        let (v1, looked, _) = spec_tick(v, track, uris[0]);
        lemma_run_lens(v1, track, rest);
        assert(run_lookups(v, track, uris).subrange(1, uris.len() as int) =~= run_lookups(v1, track, rest));
        if v1.have_art {
            lemma_quiet_after_art(v1, track, rest);
        } else {
            lemma_lookups_left(v1, track, rest);
        }
    }
}

/// Over a run of ticks of the same track, the tick whose lookup first finds
/// art sends exactly that art, and no later tick looks up again or sends art.
pub proof fn law_run_stops_after_art(v: PollerView, track: Seq<char>, uris: Seq<Seq<char>>, k: int)
    requires
        0 <= k < uris.len(),
        run_lookups(v, track, uris)[k],
        uris[k].len() > 0,
    ensures
        run_thumbs(v, track, uris)[k] == Some(uris[k]),
        forall|j: int| k < j < uris.len() ==> !#[trigger] run_lookups(v, track, uris)[j],
        forall|j: int| k < j < uris.len() ==> #[trigger] run_thumbs(v, track, uris)[j] is None,
    decreases k,
{
    let rest = uris.subrange(1, uris.len() as int);
    let (v1, _, _) = spec_tick(v, track, uris[0]);
    lemma_run_lens(v1, track, rest);
    if k == 0 {
        lemma_quiet_after_art(v1, track, rest);
    } else {
        assert(run_lookups(v, track, uris)[k] == run_lookups(v1, track, rest)[k - 1]);
        assert(rest[k - 1] == uris[k]);
        law_run_stops_after_art(v1, track, rest, k - 1);
        assert(run_thumbs(v, track, uris)[k] == run_thumbs(v1, track, rest)[k - 1]);
    }
    assert forall|j: int| k < j < uris.len() implies !#[trigger] run_lookups(v, track, uris)[j]
        && run_thumbs(v, track, uris)[j] is None by {
        assert(run_lookups(v, track, uris)[j] == run_lookups(v1, track, rest)[j - 1]);
        assert(run_thumbs(v, track, uris)[j] == run_thumbs(v1, track, rest)[j - 1]);
    }
}

} // verus!
