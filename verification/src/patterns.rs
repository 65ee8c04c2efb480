//! Global behaviour patterns: sequence similarity against promoted patterns,
//! contributor bookkeeping, and the promotion (quarantine) rules.

use vstd::prelude::*;

verus! {

/// Length of the longest common subsequence of `a` and `b`.
pub open spec fn lcs<A>(a: Seq<A>, b: Seq<A>) -> nat
    decreases a.len() + b.len(),
{
    if a.len() == 0 || b.len() == 0 {
        0
    } else if a.last() == b.last() {
        lcs(a.drop_last(), b.drop_last()) + 1
    } else {
        let x = lcs(a.drop_last(), b);
        let y = lcs(a, b.drop_last());
        if x >= y { x } else { y }
    }
}

/// The character views of a sequence of strings.
pub open spec fn views(s: Seq<String>) -> Seq<Seq<char>> {
    s.map_values(|x: String| x@)
}

/// Dropping the last element of either side lowers the common-subsequence
/// length by at most one and never raises it.
pub proof fn lemma_lcs_drop_last<A>(a: Seq<A>, b: Seq<A>)
    ensures
        a.len() > 0 ==> lcs(a.drop_last(), b) <= lcs(a, b) <= lcs(a.drop_last(), b) + 1,
        b.len() > 0 ==> lcs(a, b.drop_last()) <= lcs(a, b) <= lcs(a, b.drop_last()) + 1,
    decreases a.len() + b.len(),
{
    if a.len() == 0 || b.len() == 0 {
        if a.len() > 0 {
            assert(lcs(a.drop_last(), b) == 0);
        }
        if b.len() > 0 {
            assert(lcs(a, b.drop_last()) == 0);
        }
        return;
    }
    let a1 = a.drop_last();
    let b1 = b.drop_last();
    lemma_lcs_drop_last(a1, b);
    lemma_lcs_drop_last(a, b1);
    lemma_lcs_drop_last(a1, b1);
    if a.last() == b.last() {
        // lcs(a, b) == lcs(a1, b1) + 1
        // lcs(a1, b) <= lcs(a1, b1) + 1 (dropping b's last from (a1, b)), and >= lcs(a1, b1)
        if a1.len() == 0 {
            assert(lcs(a1, b) == 0);
            assert(lcs(a1, b1) == 0);
        }
        if b1.len() == 0 {
            assert(lcs(a, b1) == 0);
            assert(lcs(a1, b1) == 0);
        }
    } else {
        if a1.len() == 0 {
            assert(lcs(a1, b) == 0);
            assert(lcs(a1, b1) == 0);
        }
        if b1.len() == 0 {
            assert(lcs(a, b1) == 0);
            assert(lcs(a1, b1) == 0);
        }
    }
}

/// The common-subsequence length of prefixes never exceeds that of the whole.
pub proof fn lemma_lcs_prefix_le<A>(a: Seq<A>, b: Seq<A>, i: int, j: int)
    requires
        0 <= i <= a.len(),
        0 <= j <= b.len(),
    ensures
        lcs(a.take(i), b.take(j)) <= lcs(a, b),
    decreases a.len() + b.len(),
{
    if i < a.len() {
        lemma_lcs_prefix_le(a.drop_last(), b, i, j);
        lemma_lcs_drop_last(a, b);
        assert(a.drop_last().take(i) =~= a.take(i));
    } else if j < b.len() {
        lemma_lcs_prefix_le(a, b.drop_last(), i, j);
        lemma_lcs_drop_last(a, b);
        assert(b.drop_last().take(j) =~= b.take(j));
    } else {
        assert(a.take(i) =~= a);
        assert(b.take(j) =~= b);
    }
}

/// A sequence shares all of itself with itself: the similarity of identical
/// sequences is one.
pub proof fn lemma_lcs_identical<A>(a: Seq<A>)
    ensures
        lcs(a, a) == a.len(),
    decreases a.len(),
{
    if a.len() > 0 {
        lemma_lcs_identical(a.drop_last());
    }
}

/// Sequences with no element in common share nothing: their similarity is zero.
pub proof fn lemma_lcs_disjoint<A>(a: Seq<A>, b: Seq<A>)
    requires
        forall|i: int, j: int| 0 <= i < a.len() && 0 <= j < b.len() ==> a[i] != b[j],
    ensures
        lcs(a, b) == 0,
    decreases a.len() + b.len(),
{
    if a.len() > 0 && b.len() > 0 {
        assert(a.last() != b.last());
        lemma_lcs_disjoint(a.drop_last(), b);
        lemma_lcs_disjoint(a, b.drop_last());
    }
}

/// The common-subsequence length does not depend on the order of the operands.
pub proof fn lemma_lcs_symmetric<A>(a: Seq<A>, b: Seq<A>)
    ensures
        lcs(a, b) == lcs(b, a),
    decreases a.len() + b.len(),
{
    if a.len() > 0 && b.len() > 0 {
        lemma_lcs_symmetric(a.drop_last(), b.drop_last());
        lemma_lcs_symmetric(a.drop_last(), b);
        lemma_lcs_symmetric(a, b.drop_last());
    }
}

/// A common subsequence is never longer than either sequence.
pub proof fn lemma_lcs_bounded<A>(a: Seq<A>, b: Seq<A>)
    ensures
        lcs(a, b) <= a.len(),
        lcs(a, b) <= b.len(),
    decreases a.len() + b.len(),
{
    if a.len() > 0 && b.len() > 0 {
        lemma_lcs_bounded(a.drop_last(), b.drop_last());
        lemma_lcs_bounded(a.drop_last(), b);
        lemma_lcs_bounded(a, b.drop_last());
    }
}

/// Length of the longest common subsequence of two event sequences,
/// computed with a rolling two-row table. Defined when that length fits
/// the table's 16-bit cells.
pub fn lcs_length(a: &Vec<String>, b: &Vec<String>) -> (r: u16)
    requires
        lcs(views(a@), views(b@)) <= u16::MAX,
        a.len() < usize::MAX,
        b.len() < usize::MAX,
    ensures
        r == lcs(views(a@), views(b@)),
{
    let m = a.len();
    let n = b.len();
    let ghost va = views(a@);
    let ghost vb = views(b@);
    if m == 0 || n == 0 {
        return 0;
    }
    let mut prev: Vec<u16> = vec![0u16; n + 1];
    let mut curr: Vec<u16> = vec![0u16; n + 1];
    assert forall|j: int| 0 <= j <= n implies prev@[j] == lcs(va.take(0), vb.take(j)) by {}
    let mut i: usize = 1;
    while i <= m
        invariant
            m == a.len(),
            n == b.len(),
            m < usize::MAX,
            va == views(a@),
            vb == views(b@),
            lcs(va, vb) <= u16::MAX,
            1 <= i <= m + 1,
            prev.len() == n + 1,
            curr.len() == n + 1,
            forall|j: int| 0 <= j <= n ==> prev@[j] == lcs(va.take(i - 1), vb.take(j)),
            forall|j: int| 0 <= j <= n ==> curr@[j] == 0,
        decreases m + 1 - i,
    {
        let mut j: usize = 1;
        while j <= n
            invariant
                m == a.len(),
                n == b.len(),
                va == views(a@),
                vb == views(b@),
                lcs(va, vb) <= u16::MAX,
                1 <= i <= m,
                1 <= j <= n + 1,
                prev.len() == n + 1,
                curr.len() == n + 1,
                forall|k: int| 0 <= k <= n ==> prev@[k] == lcs(va.take(i - 1), vb.take(k)),
                forall|k: int| 0 <= k < j ==> curr@[k] == lcs(va.take(i as int), vb.take(k)),
            decreases n + 1 - j,
        {
            let ghost ai = va.take(i as int);
            let ghost bj = vb.take(j as int);
            assert(ai.drop_last() =~= va.take(i - 1));
            assert(bj.drop_last() =~= vb.take(j - 1));
            assert(ai.last() == a@[i - 1]@);
            assert(bj.last() == b@[j - 1]@);
            let v: u16 = if a[i - 1] == b[j - 1] {
                proof {
                    lemma_lcs_prefix_le(va, vb, i as int, j as int);
                }
                prev[j - 1] + 1
            } else {
                let x = curr[j - 1];
                let y = prev[j];
                if x >= y { x } else { y }
            };
            proof {
                if j - 1 == 0 {
                    assert(vb.take(0).len() == 0);
                }
            }
            curr.set(j, v);
            j = j + 1;
        }
        proof {
            assert(curr@[0] == lcs(va.take(i as int), vb.take(0)));
        }
        std::mem::swap(&mut prev, &mut curr);
        let mut k: usize = 0;
        while k <= n
            invariant
                n == b.len(),
                curr.len() == n + 1,
                0 <= k <= n + 1,
                forall|t: int| 0 <= t < k ==> curr@[t] == 0,
            decreases n + 1 - k,
        {
            curr.set(k, 0);
            k = k + 1;
        }
        i = i + 1;
    }
    assert(va.take(m as int) =~= va);
    assert(vb.take(n as int) =~= vb);
    prev[n]
}

/// How many sessions must have followed a sequence before it may be promoted.
pub const MIN_CONTRIBUTORS: usize = 5;

/// Seconds in a day, the bucket width of the temporal-entropy gate.
pub const SECONDS_PER_DAY: i64 = 86400;

/// Microseconds a new candidate spends in quarantine (three days).
pub const QUARANTINE_MICROS: i64 = 259_200_000_000;

/// Outcome of the promotion gate for one candidate pattern.
#[derive(Debug)]
pub enum PromotionDecision {
    Promote,
    Quarantine,
    Pending,
    Reject(String),
}

/// What the pattern store must do after a quarantine decision.
#[derive(PartialEq, Eq, Structural, Debug, Clone, Copy)]
pub enum CandidateUpdate {
    /// Store a new candidate in quarantine.
    InsertQuarantine,
    /// Mark the stored candidate as promoted.
    MarkPromoted,
    /// Leave the store as it is.
    Unchanged,
}

/// Whether `n` contributing sessions are enough to consider promotion.
pub fn enough_contributors(n: usize) -> (r: bool)
    ensures
        r == (n >= MIN_CONTRIBUTORS),
{
    n >= MIN_CONTRIBUTORS
}

/// The end of the quarantine that starts at `now_us` (microseconds).
pub fn quarantine_until(now_us: i64) -> (r: i64)
    requires
        now_us + QUARANTINE_MICROS <= i64::MAX,
    ensures
        r == now_us + QUARANTINE_MICROS,
{
    now_us + QUARANTINE_MICROS
}

/// The decision of the quarantine gate, given the stored candidate (its
/// status and the end of its quarantine, in microseconds) and the time now.
pub open spec fn quarantine_outcome(
    existing: Option<(Seq<char>, Option<i64>)>,
    now_us: i64,
) -> (PromotionDecision, CandidateUpdate) {
    match existing {
        None => (PromotionDecision::Quarantine, CandidateUpdate::InsertQuarantine),
        Some((status, until)) => if status == "promoted"@ {
            (PromotionDecision::Promote, CandidateUpdate::Unchanged)
        } else if status == "quarantine"@ {
            let end = match until {
                Some(u) => u,
                None => now_us,
            };
            if now_us < end {
                (PromotionDecision::Quarantine, CandidateUpdate::Unchanged)
            } else {
                (PromotionDecision::Promote, CandidateUpdate::MarkPromoted)
            }
        } else {
            (PromotionDecision::Pending, CandidateUpdate::Unchanged)
        },
    }
}

/// The stored candidate as plain values.
pub open spec fn candidate_view(existing: Option<(&str, Option<i64>)>) -> Option<(Seq<char>, Option<i64>)> {
    match existing {
        None => None,
        Some((s, u)) => Some((s@, u)),
    }
}

/// The quarantine gate (the last of the promotion gates): a new candidate
/// enters quarantine; a promoted one stays promoted; a quarantined one is
/// promoted once its quarantine has ended; anything else stays pending.
pub fn quarantine_step(existing: Option<(&str, Option<i64>)>, now_us: i64) -> (r: (
    PromotionDecision,
    CandidateUpdate,
))
    ensures
        r == quarantine_outcome(candidate_view(existing), now_us),
{
    proof {
        reveal_strlit("promoted");
        reveal_strlit("quarantine");
    }
    match existing {
        None => (PromotionDecision::Quarantine, CandidateUpdate::InsertQuarantine),
        Some((status, until)) => {
            if crate::text::str_eq(status, "promoted") {
                (PromotionDecision::Promote, CandidateUpdate::Unchanged)
            } else if crate::text::str_eq(status, "quarantine") {
                let end = match until {
                    Some(u) => u,
                    None => now_us,
                };
                if now_us < end {
                    (PromotionDecision::Quarantine, CandidateUpdate::Unchanged)
                } else {
                    (PromotionDecision::Promote, CandidateUpdate::MarkPromoted)
                }
            } else {
                (PromotionDecision::Pending, CandidateUpdate::Unchanged)
            }
        },
    }
}

/// A promoted pattern stays promoted, whatever the time.
pub proof fn lemma_promoted_is_final(until: Option<i64>, now_us: i64)
    ensures
        quarantine_outcome(Some(("promoted"@, until)), now_us)
            == (PromotionDecision::Promote, CandidateUpdate::Unchanged),
{
}

/// Once the quarantine's end has come, at that instant or any time after it,
/// a quarantined pattern is promoted and stored as promoted. A quarantined
/// pattern with no end on record is promoted at once.
pub proof fn lemma_quarantine_ends(until: i64, now_us: i64)
    requires
        until <= now_us,
    ensures
        quarantine_outcome(Some(("quarantine"@, Some(until))), now_us)
            == (PromotionDecision::Promote, CandidateUpdate::MarkPromoted),
        quarantine_outcome(Some(("quarantine"@, None)), now_us)
            == (PromotionDecision::Promote, CandidateUpdate::MarkPromoted),
{
    reveal_strlit("promoted");
    reveal_strlit("quarantine");
    assert("quarantine"@ != "promoted"@) by {
        assert("quarantine"@[0] != "promoted"@[0]);
    }
}

/// A quarantined pattern is never promoted before its quarantine ends.
pub proof fn lemma_quarantine_holds_until_end(until: i64, now_us: i64)
    requires
        now_us < until,
    ensures
        quarantine_outcome(Some(("quarantine"@, Some(until))), now_us)
            == (PromotionDecision::Quarantine, CandidateUpdate::Unchanged),
{
    reveal_strlit("promoted");
    reveal_strlit("quarantine");
    assert("quarantine"@ != "promoted"@) by {
        assert("quarantine"@[0] != "promoted"@[0]);
    }
}

/// Records `session_id` as a contributor unless it already is one.
/// Returns whether it was added; the list never holds a session twice.
pub fn add_contribution(contributing: &mut Vec<String>, session_id: &str) -> (added: bool)
    ensures
        added == !views(old(contributing)@).contains(session_id@),
        added ==> views(final(contributing)@) == views(old(contributing)@).push(session_id@),
        !added ==> final(contributing)@ == old(contributing)@,
        views(old(contributing)@).no_duplicates() ==> views(final(contributing)@).no_duplicates(),
{
    let ghost old_v = views(contributing@);
    let mut i: usize = 0;
    while i < contributing.len()
        invariant
            old_v == views(contributing@),
            i <= contributing.len(),
            forall|k: int| 0 <= k < i ==> old_v[k] != session_id@,
        decreases contributing.len() - i,
    {
        if crate::text::str_eq(contributing[i].as_str(), session_id) {
            assert(old_v[i as int] == session_id@);
            return false;
        }
        i = i + 1;
    }
    let s = session_id.to_string();
    proof {
        broadcast use vstd::string::group_string_axioms;
    }
    assert(s@ == session_id@);
    contributing.push(s);
    assert(views(contributing@) =~= old_v.push(session_id@));
    true
}

/// The day (since the epoch) of a timestamp in seconds, rounding toward zero
/// as integer division does.
pub open spec fn day_of(t: i64) -> int {
    if t >= 0 {
        t as int / SECONDS_PER_DAY as int
    } else {
        -((-t as int) / SECONDS_PER_DAY as int)
    }
}

/// How many of the timestamps fall on day `d`.
pub open spec fn count_on_day(ts: Seq<i64>, d: int) -> nat
    decreases ts.len(),
{
    if ts.len() == 0 {
        0
    } else {
        count_on_day(ts.drop_last(), d) + if day_of(ts.last()) == d { 1nat } else { 0nat }
    }
}

fn day_index(t: i64) -> (r: i64)
    ensures
        r == day_of(t),
{
    t / SECONDS_PER_DAY
}

proof fn lemma_count_prefix_le(ts: Seq<i64>, i: int, d: int)
    requires
        0 <= i <= ts.len(),
    ensures
        count_on_day(ts.take(i), d) <= count_on_day(ts, d),
    decreases ts.len(),
{
    if i < ts.len() {
        lemma_count_prefix_le(ts.drop_last(), i, d);
        assert(ts.drop_last().take(i) =~= ts.take(i));
    } else {
        assert(ts.take(i) =~= ts);
    }
}

/// The sum of the counts of a day histogram.
pub open spec fn total_count(r: Seq<(i64, u32)>) -> nat
    decreases r.len(),
{
    if r.len() == 0 {
        0
    } else {
        total_count(r.drop_last()) + r.last().1 as nat
    }
}

/// Every occurrence of the later day is preceded by one of the earlier day:
/// the days appear in the order of their first timestamps.
pub open spec fn first_seen_before(ts: Seq<i64>, earlier: int, later: int, upto: int) -> bool {
    forall|j: int|
        0 <= j < upto && day_of(#[trigger] ts[j]) == later ==> exists|i: int|
            0 <= i < j && day_of(#[trigger] ts[i]) == earlier
}

proof fn lemma_total_update(r: Seq<(i64, u32)>, k: int, x: (i64, u32))
    requires
        0 <= k < r.len(),
    ensures
        total_count(r.update(k, x)) + r[k].1 == total_count(r) + x.1,
    decreases r.len(),
{
    if k < r.len() - 1 {
        lemma_total_update(r.drop_last(), k, x);
        assert(r.update(k, x).drop_last() =~= r.drop_last().update(k, x));
    } else {
        assert(r.update(k, x).drop_last() =~= r.drop_last());
    }
}

proof fn lemma_count_witness(ts: Seq<i64>, d: int)
    requires
        count_on_day(ts, d) > 0,
    ensures
        exists|i: int| 0 <= i < ts.len() && day_of(#[trigger] ts[i]) == d,
    decreases ts.len(),
{
    if day_of(ts.last()) == d {
        assert(day_of(ts[ts.len() - 1]) == d);
    } else {
        lemma_count_witness(ts.drop_last(), d);
        let i = choose|i: int| 0 <= i < ts.drop_last().len() && day_of(#[trigger] ts.drop_last()[i]) == d;
        assert(day_of(ts[i]) == d);
    }
}

/// Each listed day carries the number of the first `i` timestamps on it, which is positive.
#[verifier::opaque]
pub open spec fn hist_counts(ts: Seq<i64>, r: Seq<(i64, u32)>, i: int) -> bool {
    forall|k: int| 0 <= k < r.len() ==> (#[trigger] r[k]).1 == count_on_day(ts.take(i), r[k].0 as int)
        && r[k].1 > 0
}

/// No day is listed twice.
#[verifier::opaque]
pub open spec fn hist_distinct(r: Seq<(i64, u32)>) -> bool {
    forall|k: int, l: int| 0 <= k < l < r.len() ==> (#[trigger] r[k]).0 != (#[trigger] r[l]).0
}

/// The day of each of the first `i` timestamps is listed.
#[verifier::opaque]
pub open spec fn hist_covers(ts: Seq<i64>, r: Seq<(i64, u32)>, i: int) -> bool {
    forall|j: int| 0 <= j < i ==> exists|k: int| 0 <= k < r.len() && (#[trigger] r[k]).0 == day_of(#[trigger] ts[j])
}

/// Listed days are in the order of their first timestamps (among the first `i`).
#[verifier::opaque]
pub open spec fn hist_ordered(ts: Seq<i64>, r: Seq<(i64, u32)>, i: int) -> bool {
    forall|k: int, l: int| 0 <= k < l < r.len() ==> first_seen_before(ts, (#[trigger] r[k]).0 as int, (#[trigger] r[l]).0 as int, i)
}

/// The day histogram `r` of the first `i` timestamps.
pub open spec fn histogram_of(ts: Seq<i64>, r: Seq<(i64, u32)>, i: int) -> bool {
    &&& 0 <= i <= ts.len()
    &&& hist_counts(ts, r, i)
    &&& hist_distinct(r)
    &&& hist_covers(ts, r, i)
    &&& hist_ordered(ts, r, i)
    &&& total_count(r) == i
}

/// Every listed day of a histogram occurs before position `i`.
proof fn lemma_histogram_days_seen(ts: Seq<i64>, r: Seq<(i64, u32)>, i: int)
    requires
        hist_counts(ts, r, i),
        0 <= i <= ts.len(),
    ensures
        forall|q: int| 0 <= q < r.len() ==> exists|m: int| 0 <= m < i && day_of(#[trigger] ts[m]) == (#[trigger] r[q]).0,
{
    reveal(hist_counts);
    let prefix = ts.take(i);
    assert forall|q: int| 0 <= q < r.len() implies exists|m: int| 0 <= m < i && day_of(#[trigger] ts[m]) == (#[trigger] r[q]).0 by {
        lemma_count_witness(prefix, r[q].0 as int);
        let m = choose|m: int| 0 <= m < prefix.len() && day_of(#[trigger] prefix[m]) == r[q].0;
        assert(day_of(ts[m]) == r[q].0);
    }
}

/// Counting one more timestamp on a day already listed.
proof fn lemma_histogram_step_listed(ts: Seq<i64>, r: Seq<(i64, u32)>, i: int, k: int)
    requires
        histogram_of(ts, r, i),
        0 <= i < ts.len(),
        0 <= k < r.len(),
        r[k].0 == day_of(ts[i]),
        r[k].1 + 1 <= u32::MAX,
    ensures
        histogram_of(ts, r.update(k, (r[k].0, (r[k].1 + 1) as u32)), i + 1),
{
    let d = r[k].0;
    let x = (d, (r[k].1 + 1) as u32);
    let r2 = r.update(k, x);
    lemma_total_update(r, k, x);
    assert(hist_counts(ts, r2, i + 1)) by {
        reveal(hist_counts);
        reveal(hist_distinct);
        let prefix = ts.take(i);
        let next = ts.take(i + 1);
        assert(next.drop_last() =~= prefix);
        assert(next.last() == ts[i]);
        assert forall|q: int| 0 <= q < r2.len() implies (#[trigger] r2[q]).1 == count_on_day(next, r2[q].0 as int)
            && r2[q].1 > 0 by {
            if q != k {
                assert(r[q].0 != d);
            }
        }
    }
    assert(hist_distinct(r2)) by {
        reveal(hist_distinct);
        assert forall|p: int, l: int| 0 <= p < l < r2.len() implies (#[trigger] r2[p]).0 != (#[trigger] r2[l]).0 by {
            assert(r2[p].0 == r[p].0);
            assert(r2[l].0 == r[l].0);
        }
    }
    assert(hist_covers(ts, r2, i + 1)) by {
        reveal(hist_covers);
        assert forall|j: int| 0 <= j < i + 1 implies exists|q: int| 0 <= q < r2.len() && (#[trigger] r2[q]).0 == day_of(#[trigger] ts[j]) by {
            if j < i {
                let q = choose|q: int| 0 <= q < r.len() && (#[trigger] r[q]).0 == day_of(ts[j]);
                assert(r2[q].0 == r[q].0);
            } else {
                assert(r2[k].0 == day_of(ts[j]));
            }
        }
    }
    assert(hist_ordered(ts, r2, i + 1)) by {
        lemma_histogram_days_seen(ts, r, i);
        reveal(hist_ordered);
        assert forall|p: int, l: int| 0 <= p < l < r2.len() implies first_seen_before(ts, (#[trigger] r2[p]).0 as int, (#[trigger] r2[l]).0 as int, i + 1) by {
            assert(r2[p].0 == r[p].0);
            assert(r2[l].0 == r[l].0);
            assert(first_seen_before(ts, r[p].0 as int, r[l].0 as int, i));
            assert forall|j: int| 0 <= j < i + 1 && day_of(#[trigger] ts[j]) == r2[l].0 implies exists|m: int| 0 <= m < j && day_of(#[trigger] ts[m]) == r2[p].0 by {
                if j == i {
                    assert(exists|m: int| 0 <= m < i && day_of(#[trigger] ts[m]) == (#[trigger] r[p]).0);
                    let m = choose|m: int| 0 <= m < i && day_of(#[trigger] ts[m]) == r[p].0;
                    assert(day_of(ts[m]) == r2[p].0);
                }
            }
        }
    }
}

/// A day missing from a histogram of the first `i` timestamps is on none of them.
proof fn lemma_unlisted_day_absent(ts: Seq<i64>, r: Seq<(i64, u32)>, i: int, d: i64)
    requires
        hist_covers(ts, r, i),
        0 <= i < ts.len(),
        forall|q: int| 0 <= q < r.len() ==> (#[trigger] r[q]).0 != d,
    ensures
        forall|j: int| 0 <= j < i ==> day_of(#[trigger] ts[j]) != d,
        count_on_day(ts.take(i), d as int) == 0,
{
    reveal(hist_covers);
    assert forall|j: int| 0 <= j < i implies day_of(#[trigger] ts[j]) != d by {
        let q = choose|q: int| 0 <= q < r.len() && (#[trigger] r[q]).0 == day_of(ts[j]);
    }
    let prefix = ts.take(i);
    assert forall|j: int| 0 <= j < prefix.len() implies day_of(#[trigger] prefix[j]) != d by {
        assert(prefix[j] == ts[j]);
    }
    lemma_count_absent(prefix, d as int);
}

proof fn lemma_new_day_ordered(ts: Seq<i64>, r: Seq<(i64, u32)>, i: int, d: i64)
    requires
        hist_ordered(ts, r, i),
        hist_counts(ts, r, i),
        0 <= i < ts.len(),
        d == day_of(ts[i]),
        forall|q: int| 0 <= q < r.len() ==> (#[trigger] r[q]).0 != d,
        forall|j: int| 0 <= j < i ==> day_of(#[trigger] ts[j]) != d,
    ensures
        hist_ordered(ts, r.push((d, 1u32)), i + 1),
{
    let r2 = r.push((d, 1u32));
    lemma_histogram_days_seen(ts, r, i);
    reveal(hist_ordered);
    assert forall|p: int, l: int| 0 <= p < l < r2.len() implies first_seen_before(ts, (#[trigger] r2[p]).0 as int, (#[trigger] r2[l]).0 as int, i + 1) by {
        assert(r2[p].0 == r[p].0);
        if l < r.len() {
            assert(r2[l].0 == r[l].0);
            assert(first_seen_before(ts, r[p].0 as int, r[l].0 as int, i));
            assert forall|j: int| 0 <= j < i + 1 && day_of(#[trigger] ts[j]) == r2[l].0 implies exists|m: int| 0 <= m < j && day_of(#[trigger] ts[m]) == r2[p].0 by {
                if j == i {
                    assert(r[l].0 != d);
                }
            }
        } else {
            assert forall|j: int| 0 <= j < i + 1 && day_of(#[trigger] ts[j]) == r2[l].0 implies exists|m: int| 0 <= m < j && day_of(#[trigger] ts[m]) == r2[p].0 by {
                if j == i {
                    assert(exists|m: int| 0 <= m < i && day_of(#[trigger] ts[m]) == (#[trigger] r[p]).0);
                    let m = choose|m: int| 0 <= m < i && day_of(#[trigger] ts[m]) == r[p].0;
                    assert(day_of(ts[m]) == r2[p].0);
                }
            }
        }
    }
}

/// Starting the count of a day not listed yet.
proof fn lemma_histogram_step_new(ts: Seq<i64>, r: Seq<(i64, u32)>, i: int, d: i64)
    requires
        histogram_of(ts, r, i),
        0 <= i < ts.len(),
        d == day_of(ts[i]),
        forall|q: int| 0 <= q < r.len() ==> (#[trigger] r[q]).0 != d,
    ensures
        histogram_of(ts, r.push((d, 1u32)), i + 1),
{
    let r2 = r.push((d, 1u32));
    let prefix = ts.take(i);
    let next = ts.take(i + 1);
    assert(next.drop_last() =~= prefix);
    assert(next.last() == ts[i]);
    assert(r2.drop_last() =~= r);
    lemma_unlisted_day_absent(ts, r, i, d);
    lemma_new_day_ordered(ts, r, i, d);
    assert(hist_counts(ts, r2, i + 1)) by {
        reveal(hist_counts);
        assert forall|q: int| 0 <= q < r2.len() implies (#[trigger] r2[q]).1 == count_on_day(next, r2[q].0 as int)
            && r2[q].1 > 0 by {
            if q < r.len() {
                assert(r2[q] == r[q]);
            }
        }
    }
    assert(hist_distinct(r2)) by {
        reveal(hist_distinct);
    }
    assert(hist_covers(ts, r2, i + 1)) by {
        reveal(hist_covers);
        assert forall|j: int| 0 <= j < i + 1 implies exists|q: int| 0 <= q < r2.len() && (#[trigger] r2[q]).0 == day_of(#[trigger] ts[j]) by {
            if j < i {
                let q = choose|q: int| 0 <= q < r.len() && (#[trigger] r[q]).0 == day_of(ts[j]);
                assert(r2[q].0 == r[q].0);
            } else {
                assert(r2[r.len() as int].0 == day_of(ts[j]));
            }
        }
    }
}

/// The timestamps (seconds) grouped by day: each distinct day once, in the
/// order of first appearance, with the number of timestamps on it; the
/// counts add up to the number of timestamps.
pub fn day_counts(ts: &Vec<i64>) -> (r: Vec<(i64, u32)>)
    requires
        forall|i: int| 0 <= i < ts.len() ==> count_on_day(ts@, day_of(#[trigger] ts@[i])) <= u32::MAX,
    ensures
        forall|k: int| 0 <= k < r.len() ==> (#[trigger] r@[k]).1 == count_on_day(ts@, r@[k].0 as int)
            && r@[k].1 > 0,
        forall|k: int, l: int| 0 <= k < l < r.len() ==> (#[trigger] r@[k]).0 != (#[trigger] r@[l]).0,
        forall|i: int| 0 <= i < ts.len() ==> exists|k: int| 0 <= k < r.len() && (#[trigger] r@[k]).0 == day_of(#[trigger] ts@[i]),
        forall|k: int, l: int| 0 <= k < l < r.len() ==> first_seen_before(ts@, (#[trigger] r@[k]).0 as int, (#[trigger] r@[l]).0 as int, ts.len() as int),
        total_count(r@) == ts.len(),
{
    let mut r: Vec<(i64, u32)> = Vec::new();
    proof {
        reveal(hist_counts);
        reveal(hist_distinct);
        reveal(hist_covers);
        reveal(hist_ordered);
    }
    let mut i: usize = 0;
    while i < ts.len()
        invariant
            i <= ts.len(),
            forall|j: int| 0 <= j < ts.len() ==> count_on_day(ts@, day_of(#[trigger] ts@[j])) <= u32::MAX,
            histogram_of(ts@, r@, i as int),
        decreases ts.len() - i,
    {
        let t = ts[i];
        let d = day_index(t);
        let mut k: usize = 0;
        let mut found = false;
        while k < r.len()
            invariant_except_break
                !found,
            invariant
                k <= r.len(),
                forall|q: int| 0 <= q < k ==> (#[trigger] r@[q]).0 != d,
            ensures
                k <= r.len(),
                found ==> k < r.len() && r@[k as int].0 == d,
                !found ==> forall|q: int| 0 <= q < r.len() ==> (#[trigger] r@[q]).0 != d,
            decreases r.len() - k,
        {
            if r[k].0 == d {
                found = true;
                break;
            }
            k = k + 1;
        }
        if found {
            proof {
                reveal(hist_counts);
                let prefix = ts@.take(i as int);
                let next = ts@.take(i + 1);
                assert(next.drop_last() =~= prefix);
                assert(next.last() == t);
                lemma_count_prefix_le(ts@, i + 1, d as int);
                assert(r@[k as int].1 == count_on_day(prefix, d as int));
            }
            let c = r[k].1 + 1;
            proof {
                lemma_histogram_step_listed(ts@, r@, i as int, k as int);
            }
            r.set(k, (d, c));
        } else {
            proof {
                lemma_histogram_step_new(ts@, r@, i as int, d);
            }
            r.push((d, 1));
        }
        i = i + 1;
    }
    proof {
        reveal(hist_counts);
        reveal(hist_distinct);
        reveal(hist_covers);
        reveal(hist_ordered);
    }
    assert(ts@.take(ts.len() as int) =~= ts@);
    r
}

proof fn lemma_count_absent(ts: Seq<i64>, d: int)
    requires
        forall|j: int| 0 <= j < ts.len() ==> day_of(ts[j]) != d,
    ensures
        count_on_day(ts, d) == 0,
    decreases ts.len(),
{
    if ts.len() > 0 {
        lemma_count_absent(ts.drop_last(), d);
    }
}

} // verus!
