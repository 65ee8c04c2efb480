//! Per-user session bookkeeping of the behavioural layer: the window of
//! recent events, the current session's event sequence, the stage-two noise
//! filter applied before the user's embedding is trained, and fraud strikes.

use vstd::prelude::*;
use crate::patterns::views;
use crate::text::str_eq;

verus! {

/// Number of recent events kept for path-optimality scoring.
pub const RECENT_WINDOW: usize = 5;

/// A session is closed (on `page_hide`) only once it holds this many events.
pub const MIN_SESSION_EVENTS: usize = 5;

/// Sessions (raw or filtered) need this many events to feed the embedding.
pub const MIN_EMBEDDING_EVENTS: usize = 3;

/// Confirmed-fraud strikes stop counting here.
pub const MAX_FRAUD_STRIKES: u8 = 10;

/// Same-type events closer than this (ms) are duplicate bursts.
pub const DUPLICATE_BURST_MS: i64 = 80;

/// Scrolls and page views closer than this (ms) to the previous event are accidental.
pub const ACCIDENTAL_MS: i64 = 1000;

/// The last `n` elements of `s` (all of `s` when it is shorter).
pub open spec fn last_n<A>(s: Seq<A>, n: nat) -> Seq<A> {
    if s.len() <= n {
        s
    } else {
        s.subrange(s.len() - n, s.len() as int)
    }
}

/// Appends `x` to a sliding window, dropping the oldest element once the
/// window holds more than `cap` elements.
pub fn push_bounded<T>(window: &mut Vec<T>, x: T, cap: usize)
    ensures
        final(window)@ == if old(window)@.len() + 1 > cap {
            old(window)@.push(x).drop_first()
        } else {
            old(window)@.push(x)
        },
        old(window)@.len() <= cap ==> final(window)@ == last_n(old(window)@.push(x), cap as nat),
{
    let ghost before = window@;
    window.push(x);
    if window.len() > cap {
        window.remove(0);
        assert(window@ =~= before.push(x).drop_first());
    }
    proof {
        if before.len() <= cap && before.len() + 1 > cap {
            assert(window@ =~= last_n(before.push(x), cap as nat));
        }
    }
}

/// Event types that the user behaviour graph records per session.
pub struct SessionLog {
    recent: Vec<String>,
    sequence: Vec<String>,
}

impl SessionLog {
    /// The recent-event window never grows beyond its bound.
    #[verifier::type_invariant]
    spec fn window_bounded(self) -> bool {
        self.recent.len() <= RECENT_WINDOW
    }

    /// The most recent events, oldest first.
    pub closed spec fn recent_view(self) -> Seq<Seq<char>> {
        views(self.recent@)
    }

    /// The events of the current session, in order.
    pub closed spec fn sequence_view(self) -> Seq<Seq<char>> {
        views(self.sequence@)
    }

    /// An empty log.
    pub fn new() -> (r: Self)
        ensures
            r.recent_view() == Seq::<Seq<char>>::empty(),
            r.sequence_view() == Seq::<Seq<char>>::empty(),
    {
        let r = SessionLog { recent: Vec::new(), sequence: Vec::new() };
        assert(views(r.recent@) =~= Seq::<Seq<char>>::empty());
        assert(views(r.sequence@) =~= Seq::<Seq<char>>::empty());
        r
    }

    /// Records one event: it joins the current session and the recent window,
    /// from which the oldest event falls out once the window is full.
    pub fn record(&mut self, event_type: &str)
        ensures
            final(self).recent_view() == last_n(old(self).recent_view().push(event_type@), RECENT_WINDOW as nat),
            final(self).sequence_view() == old(self).sequence_view().push(event_type@),
            final(self).recent_view().len() <= RECENT_WINDOW,
    {
        proof {
            use_type_invariant(&*self);
            broadcast use vstd::string::group_string_axioms;
        }
        let ghost old_recent = views(self.recent@);
        let ghost old_seq = views(self.sequence@);
        let e1 = event_type.to_string();
        let e2 = event_type.to_string();
        let mut recent: Vec<String> = Vec::new();
        std::mem::swap(&mut recent, &mut self.recent);
        let ghost before = recent@;
        push_bounded(&mut recent, e1, RECENT_WINDOW);
        assert(before.push(e1).len() > RECENT_WINDOW ==> views(recent@) =~= last_n(
            old_recent.push(event_type@),
            RECENT_WINDOW as nat,
        ));
        assert(before.push(e1).len() <= RECENT_WINDOW ==> views(recent@) =~= last_n(
            old_recent.push(event_type@),
            RECENT_WINDOW as nat,
        ));
        self.recent = recent;
        let mut sequence: Vec<String> = Vec::new();
        std::mem::swap(&mut sequence, &mut self.sequence);
        sequence.push(e2);
        assert(views(sequence@) =~= old_seq.push(event_type@));
        self.sequence = sequence;
    }

    /// A copy of the recent window, oldest first.
    pub fn recent(&self) -> (r: Vec<String>)
        ensures
            views(r@) == self.recent_view(),
    {
        self.recent.clone()
    }

    /// A copy of the current session's events.
    pub fn sequence(&self) -> (r: Vec<String>)
        ensures
            views(r@) == self.sequence_view(),
    {
        self.sequence.clone()
    }

    /// Number of events in the current session.
    pub fn session_len(&self) -> (r: usize)
        ensures
            r == self.sequence_view().len(),
    {
        self.sequence.len()
    }

    /// Whether this event closes the session: a `page_hide` once the session
    /// holds enough events (counted after the event was recorded).
    pub fn should_finalize(&self, event_type: &str) -> (r: bool)
        ensures
            r == (event_type@ == "page_hide"@ && self.sequence_view().len() >= MIN_SESSION_EVENTS),
    {
        str_eq(event_type, "page_hide") && self.sequence.len() >= MIN_SESSION_EVENTS
    }

    /// Closes the session: hands back its events and starts an empty one.
    /// The recent window is kept.
    pub fn take_sequence(&mut self) -> (r: Vec<String>)
        ensures
            views(r@) == old(self).sequence_view(),
            final(self).sequence_view() == Seq::<Seq<char>>::empty(),
            final(self).recent_view() == old(self).recent_view(),
    {
        proof {
            use_type_invariant(&*self);
        }
        let mut r: Vec<String> = Vec::new();
        std::mem::swap(&mut r, &mut self.sequence);
        assert(views(self.sequence@) =~= Seq::<Seq<char>>::empty());
        r
    }
}

/// Trimming a window after every push keeps exactly the last elements of
/// the whole stream: the recent-event window is always the stream's last
/// five events.
pub proof fn lemma_window_tracks_stream<A>(history: Seq<A>, e: A, w: nat)
    ensures
        last_n(last_n(history, w).push(e), w) == last_n(history.push(e), w),
{
    let h2 = history.push(e);
    if history.len() <= w {
        assert(last_n(history, w) == history);
    } else {
        let lw = last_n(history, w);
        assert(lw.push(e).len() == w + 1);
        assert(last_n(lw.push(e), w) =~= last_n(h2, w));
    }
}

/// Whether the stage-two filter keeps event `i` of a session with the given
/// event types and timestamps (ms): the first event always; later ones unless
/// they repeat the previous type within the burst window, or are a scroll or
/// page view within the accidental window of the previous event.
pub open spec fn stage2_keeps(types: Seq<Seq<char>>, stamps: Seq<i64>, i: int) -> bool {
    i == 0 || {
        let gap = stamps[i] - stamps[i - 1];
        !(types[i] == types[i - 1] && gap < DUPLICATE_BURST_MS)
            && !((types[i] == "scroll"@ || types[i] == "page_view"@) && gap < ACCIDENTAL_MS)
    }
}

/// Only repeats and casual events are ever dropped: the first event, and any
/// event whose type differs from its predecessor's and is neither a scroll
/// nor a page view, is kept whatever the gap; an event of another type than
/// its predecessor is kept once a second has passed.
pub proof fn lemma_stage2_keeps_new_intent(types: Seq<Seq<char>>, stamps: Seq<i64>, i: int)
    requires
        0 <= i < types.len(),
        types.len() == stamps.len(),
    ensures
        i == 0 ==> stage2_keeps(types, stamps, i),
        i > 0 && types[i] != types[i - 1] && types[i] != "scroll"@ && types[i] != "page_view"@
            ==> stage2_keeps(types, stamps, i),
        i > 0 && types[i] != types[i - 1] && stamps[i] - stamps[i - 1] >= 1000 ==> stage2_keeps(
            types,
            stamps,
            i,
        ),
        i > 0 && stamps[i] - stamps[i - 1] >= 1000 ==> stage2_keeps(types, stamps, i),
{
}

/// The stage-two noise filter: for each event, whether it is kept for
/// training the user's embedding.
pub fn stage2_filter(types: &Vec<String>, stamps: &Vec<i64>) -> (keep: Vec<bool>)
    requires
        types.len() == stamps.len(),
        forall|i: int| 0 < i < stamps.len() ==> i64::MIN <= #[trigger] stamps@[i] - stamps@[i - 1] <= i64::MAX,
    ensures
        keep.len() == types.len(),
        forall|i: int| 0 <= i < keep.len() ==> #[trigger] keep@[i] == stage2_keeps(views(types@), stamps@, i),
{
    let mut keep: Vec<bool> = Vec::new();
    let mut i: usize = 0;
    while i < types.len()
        invariant
            types.len() == stamps.len(),
            forall|j: int| 0 < j < stamps.len() ==> i64::MIN <= #[trigger] stamps@[j] - stamps@[j - 1] <= i64::MAX,
            i <= types.len(),
            keep.len() == i,
            forall|j: int| 0 <= j < i ==> #[trigger] keep@[j] == stage2_keeps(views(types@), stamps@, j),
        decreases types.len() - i,
    {
        let k = if i == 0 {
            true
        } else {
            assert(i64::MIN <= stamps@[i as int] - stamps@[i - 1] <= i64::MAX);
            let gap = stamps[i] - stamps[i - 1];
            let same = str_eq(types[i].as_str(), types[i - 1].as_str());
            let casual = str_eq(types[i].as_str(), "scroll") || str_eq(types[i].as_str(), "page_view");
            !(same && gap < DUPLICATE_BURST_MS) && !(casual && gap < ACCIDENTAL_MS)
        };
        keep.push(k);
        i = i + 1;
    }
    keep
}

/// Adds one confirmed-fraud strike, up to the cap.
pub fn next_fraud_strikes(strikes: u8) -> (r: u8)
    ensures
        r == if strikes < MAX_FRAUD_STRIKES { (strikes + 1) as u8 } else { strikes },
{
    if strikes < MAX_FRAUD_STRIKES {
        strikes + 1
    } else {
        strikes
    }
}

/// Strikes never pass the cap and never go down: starting from at most the
/// cap, any number of confirmed-fraud signals leaves at most the cap.
pub proof fn lemma_fraud_strikes_capped(strikes: u8)
    requires
        strikes <= MAX_FRAUD_STRIKES,
    ensures
        strikes <= (if strikes < MAX_FRAUD_STRIKES { (strikes + 1) as u8 } else { strikes }) <= MAX_FRAUD_STRIKES,
{
}

/// A user's in-memory state is flushed after this long without events (ms).
pub const HOT_TTL_MS: u64 = 300_000;

/// What the periodic flush does with one user's in-memory state.
#[derive(Debug, PartialEq, Eq, Structural, Clone, Copy)]
pub enum FlushAction {
    /// Recently used: stays in memory.
    KeepHot,
    /// Idle and unchanged since the last save: dropped from memory.
    Evict,
    /// Idle with unsaved changes: pruned and saved, then dropped (it stays
    /// in memory if saving the graph fails).
    SaveThenEvict,
}

/// The flush rule for a user idle for `idle_ms` with or without unsaved changes.
pub fn flush_action(idle_ms: u64, dirty: bool) -> (r: FlushAction)
    ensures
        r == if idle_ms < HOT_TTL_MS {
            FlushAction::KeepHot
        } else if dirty {
            FlushAction::SaveThenEvict
        } else {
            FlushAction::Evict
        },
{
    if idle_ms < HOT_TTL_MS {
        FlushAction::KeepHot
    } else if dirty {
        FlushAction::SaveThenEvict
    } else {
        FlushAction::Evict
    }
}

} // verus!
