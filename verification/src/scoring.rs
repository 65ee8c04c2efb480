//! The scoring vocabulary: actions, per-event-type base risk, and the
//! honeypot events that end scoring at once.

use vstd::prelude::*;
use vstd::string::*;
use crate::text::str_eq;

verus! {

/// What the caller should do with an event.
#[derive(Debug, PartialEq, Eq, Structural, Clone, Copy)]
pub enum ScoringAction {
    Allow,
    Challenge,
    Block,
}

/// The name of an action as it is stored and sent to clients.
pub open spec fn action_name(a: ScoringAction) -> Seq<char> {
    match a {
        ScoringAction::Allow => "allow"@,
        ScoringAction::Challenge => "challenge"@,
        ScoringAction::Block => "block"@,
    }
}

impl ScoringAction {
    /// The name of the action (see [`action_name`]).
    pub fn as_str(&self) -> (r: &'static str)
        ensures
            r@ == action_name(*self),
    {
        match self {
            ScoringAction::Allow => "allow",
            ScoringAction::Challenge => "challenge",
            ScoringAction::Block => "block",
        }
    }
}

/// Counts of actions taken, for the debug dashboard.
pub struct ActionDist {
    pub allow: i64,
    pub challenge: i64,
    pub block: i64,
}

/// Whether an event type is a honeypot or decoy hit, which only automated
/// clients produce.
pub open spec fn is_honeypot(event_type: Seq<char>) -> bool {
    event_type == "honeypot_trigger"@ || event_type == "decoy_interaction"@
}

/// Whether an event type is a honeypot hit (see [`is_honeypot`]).
pub fn is_honeypot_event(event_type: &str) -> (r: bool)
    ensures
        r == is_honeypot(event_type@),
{
    str_eq(event_type, "honeypot_trigger") || str_eq(event_type, "decoy_interaction")
}

/// How much damage an event type can do, in thousandths: money movement and
/// credential changes are the riskiest, passive browsing the least.
pub open spec fn global_risk_of(event_type: Seq<char>) -> u32 {
    if event_type == "purchase"@ || event_type == "checkout"@ {
        900
    } else if event_type == "login"@ {
        800
    } else if event_type == "password_change"@ {
        1000
    } else if event_type == "withdrawal"@ || event_type == "transfer"@ {
        1000
    } else if event_type == "registration"@ {
        700
    } else if event_type == "click"@ {
        200
    } else if event_type == "page_view"@ {
        100
    } else if event_type == "page_hide"@ || event_type == "scroll"@ {
        50
    } else {
        300
    }
}

/// The base risk of an event type (see [`global_risk_of`]).
pub fn event_global_risk(event_type: &str) -> (r: u32)
    ensures
        r == global_risk_of(event_type@),
        r <= 1000,
{
    if str_eq(event_type, "purchase") || str_eq(event_type, "checkout") {
        900
    } else if str_eq(event_type, "login") {
        800
    } else if str_eq(event_type, "password_change") {
        1000
    } else if str_eq(event_type, "withdrawal") || str_eq(event_type, "transfer") {
        1000
    } else if str_eq(event_type, "registration") {
        700
    } else if str_eq(event_type, "click") {
        200
    } else if str_eq(event_type, "page_view") {
        100
    } else if str_eq(event_type, "page_hide") || str_eq(event_type, "scroll") {
        50
    } else {
        300
    }
}

} // verus!
