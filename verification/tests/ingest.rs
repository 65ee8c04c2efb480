use madrigal::ingest::{batch_prev_events, challenge_outcome, client_ip, first_forwarded, ChallengeOutcome};

#[test]
fn first_forwarded_entry() {
    assert_eq!(first_forwarded(" 203.0.113.7 , 10.0.0.1"), "203.0.113.7");
    assert_eq!(first_forwarded("198.51.100.2"), "198.51.100.2");
    assert_eq!(first_forwarded(" ,1.1.1.1"), "");
}

#[test]
fn client_ip_prefers_header_then_peer() {
    assert_eq!(client_ip(Some("1.2.3.4, 5.6.7.8"), Some("9.9.9.9".into())), Some("1.2.3.4".into()));
    assert_eq!(client_ip(Some("  "), Some("9.9.9.9".into())), Some("9.9.9.9".into()));
    assert_eq!(client_ip(None, Some("9.9.9.9".into())), Some("9.9.9.9".into()));
    assert_eq!(client_ip(None, None), None);
}

#[test]
fn batch_chains_previous_events() {
    let types: Vec<String> = ["page_view", "click", "purchase"].iter().map(|s| s.to_string()).collect();
    assert_eq!(
        batch_prev_events(Some("scroll".into()), &types),
        vec![Some("scroll".into()), Some("page_view".into()), Some("click".into())]
    );
    assert_eq!(
        batch_prev_events(None, &types)[0],
        None
    );
    assert!(batch_prev_events(None, &vec![]).is_empty());
}

#[test]
fn challenge_outcomes() {
    assert_eq!(challenge_outcome(11, 10, false), ChallengeOutcome::Expired);
    assert_eq!(challenge_outcome(11, 10, true), ChallengeOutcome::Expired);
    assert_eq!(challenge_outcome(10, 10, true), ChallengeOutcome::AlreadySolved);
    assert_eq!(challenge_outcome(10, 10, false), ChallengeOutcome::Accepted);
}
