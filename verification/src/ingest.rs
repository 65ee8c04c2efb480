//! Event ingestion: the client address of a request, the previous event of
//! each event in a batch, and the answer to a solved challenge.

use vstd::prelude::*;
use vstd::string::*;
use crate::network::index_from;
use crate::text::{chars_of, trim_ws, trimmed};

verus! {

/// Dashboard counters of a tenant.
pub struct StatsResponse {
    pub dau: i64,
    pub events_today: i64,
    pub total_sessions: i64,
    pub fraud_alerts: i64,
}

/// A tenant's verdict on a scored session.
pub struct FeedbackRequest {
    pub session_id: String,
    pub confirmed_fraud: bool,
}

/// The query of a dashboard WebSocket connection.
pub struct WsQuery {
    pub token: Option<String>,
}

/// The first entry of a forwarding header (up to the first comma), trimmed.
pub open spec fn first_forwarded_of(header: Seq<char>) -> Seq<char> {
    let comma = index_from(header, ',', 0);
    let end = if comma < 0 { header.len() as int } else { comma };
    trimmed(header.subrange(0, end))
}

/// The first entry of a forwarding header (see [`first_forwarded_of`]).
pub fn first_forwarded(header: &str) -> (r: String)
    ensures
        r@ == first_forwarded_of(header@),
{
    let c = chars_of(header);
    let mut i: usize = 0;
    while i < c.len()
        invariant
            c@ == header@,
            i <= c.len(),
            index_from(header@, ',', 0) == index_from(header@, ',', i as int),
        ensures
            c@ == header@,
            i <= c.len(),
            index_from(header@, ',', 0) == index_from(header@, ',', i as int),
            i < c.len() ==> c@[i as int] == ',',
        decreases c.len() - i,
    {
        if c[i] == ',' {
            break;
        }
        i = i + 1;
    }
    proof {
        if i < c.len() {
            assert(index_from(header@, ',', i as int) == i);
        }
    }
    let first = header.substring_char(0, i);
    String::from_str(trim_ws(first))
}

/// The client address of a request: the first entry of the forwarding
/// header (`X-Forwarded-For`, else `X-Real-IP`) when it is not empty, else
/// the address of the connection.
pub open spec fn client_ip_of(header: Option<Seq<char>>, peer: Option<Seq<char>>) -> Option<
    Seq<char>,
> {
    match header {
        Some(h) if first_forwarded_of(h).len() > 0 => Some(first_forwarded_of(h)),
        _ => peer,
    }
}

/// The client address of a request (see [`client_ip_of`]).
pub fn client_ip(header: Option<&str>, peer: Option<String>) -> (r: Option<String>)
    ensures
        match r {
            Some(s) => client_ip_of(crate::identity::opt_view(header), match peer {
                Some(p) => Some(p@),
                None => None,
            }) == Some(s@),
            None => client_ip_of(crate::identity::opt_view(header), match peer {
                Some(p) => Some(p@),
                None => None,
            }) is None,
        },
{
    if let Some(h) = header {
        let first = first_forwarded(h);
        if !first.as_str().is_empty() {
            return Some(first);
        }
    }
    peer
}

/// The previous event of each event in a batch: the first event's is the
/// stored one, every later event's is the type of the event before it.
pub fn batch_prev_events(initial: Option<String>, event_types: &Vec<String>) -> (r: Vec<
    Option<String>,
>)
    ensures
        r.len() == event_types.len(),
        r.len() > 0 ==> r@[0] == initial,
        forall|i: int| 0 < i < r.len() ==> ((#[trigger] r@[i]) matches Some(p) && p@ == event_types@[i
            - 1]@),
{
    let mut r: Vec<Option<String>> = Vec::new();
    let mut prev = initial;
    let mut i: usize = 0;
    while i < event_types.len()
        invariant
            i <= event_types.len(),
            r.len() == i,
            i == 0 ==> prev == initial,
            i > 0 ==> (prev matches Some(p) && p@ == event_types@[i - 1]@),
            r.len() > 0 ==> r@[0] == initial,
            forall|k: int| 0 < k < i ==> ((#[trigger] r@[k]) matches Some(p) && p@ == event_types@[k
                - 1]@),
        decreases event_types.len() - i,
    {
        r.push(prev);
        prev = Some(event_types[i].clone());
        i = i + 1;
    }
    r
}

/// The answer to a challenge solution.
#[derive(Debug, PartialEq, Eq, Structural, Clone, Copy)]
pub enum ChallengeOutcome {
    /// The challenge expired before it was solved.
    Expired,
    /// The challenge was solved before.
    AlreadySolved,
    /// The solution is accepted; the challenge is now solved.
    Accepted,
}

/// Judges a challenge solution at `now_us`, for a challenge that expires at
/// `expires_us` (both in microseconds): expiry is checked first, then
/// whether it was already solved.
pub fn challenge_outcome(now_us: i64, expires_us: i64, solved: bool) -> (r: ChallengeOutcome)
    ensures
        r == if now_us > expires_us {
            ChallengeOutcome::Expired
        } else if solved {
            ChallengeOutcome::AlreadySolved
        } else {
            ChallengeOutcome::Accepted
        },
{
    if now_us > expires_us {
        ChallengeOutcome::Expired
    } else if solved {
        ChallengeOutcome::AlreadySolved
    } else {
        ChallengeOutcome::Accepted
    }
}

} // verus!
