use madrigal::scoring::{event_global_risk, is_honeypot_event, ScoringAction};

#[test]
fn action_names() {
    assert_eq!(ScoringAction::Allow.as_str(), "allow");
    assert_eq!(ScoringAction::Challenge.as_str(), "challenge");
    assert_eq!(ScoringAction::Block.as_str(), "block");
}

#[test]
fn honeypots() {
    assert!(is_honeypot_event("honeypot_trigger"));
    assert!(is_honeypot_event("decoy_interaction"));
    assert!(!is_honeypot_event("click"));
}

#[test]
fn global_risks() {
    let cases = [
        ("purchase", 900), ("checkout", 900), ("login", 800), ("password_change", 1000),
        ("withdrawal", 1000), ("transfer", 1000), ("registration", 700), ("click", 200),
        ("page_view", 100), ("page_hide", 50), ("scroll", 50), ("search", 300), ("", 300),
    ];
    for (e, r) in cases {
        assert_eq!(event_global_risk(e), r, "{}", e);
    }
}
