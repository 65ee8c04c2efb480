use madrigal::patterns::{
    add_contribution, day_counts, enough_contributors, lcs_length, quarantine_step,
    quarantine_until, CandidateUpdate, PromotionDecision, QUARANTINE_MICROS,
};

fn seq(items: &[&str]) -> Vec<String> {
    items.iter().map(|s| s.to_string()).collect()
}

#[test]
fn lcs_of_identical_sequences_is_their_length() {
    let a = seq(&["page_view", "click", "scroll", "click", "page_hide"]);
    assert_eq!(lcs_length(&a, &a), 5);
}

#[test]
fn lcs_of_disjoint_sequences_is_zero() {
    assert_eq!(lcs_length(&seq(&["a", "b"]), &seq(&["c", "d", "e"])), 0);
    assert_eq!(lcs_length(&seq(&[]), &seq(&["c"])), 0);
}

#[test]
fn lcs_examples() {
    assert_eq!(lcs_length(&seq(&["A", "B", "C", "B", "D", "A", "B"]), &seq(&["B", "D", "C", "A", "B", "A"])), 4);
    assert_eq!(lcs_length(&seq(&["x", "y", "z"]), &seq(&["y"])), 1);
    let a = seq(&["page_view", "click", "purchase"]);
    let b = seq(&["page_view", "scroll", "click", "page_hide", "purchase"]);
    assert_eq!(lcs_length(&a, &b), 3);
    assert_eq!(lcs_length(&b, &a), 3);
}

#[test]
fn contributors_needed() {
    assert!(!enough_contributors(4));
    assert!(enough_contributors(5));
}

#[test]
fn contributions_are_unique() {
    let mut c = seq(&["s1", "s2"]);
    assert!(add_contribution(&mut c, "s3"));
    assert_eq!(c, seq(&["s1", "s2", "s3"]));
    assert!(!add_contribution(&mut c, "s2"));
    assert_eq!(c, seq(&["s1", "s2", "s3"]));
}

#[test]
fn quarantine_gate() {
    let now = 1_000_000;
    let (d, u) = quarantine_step(None, now);
    assert!(matches!(d, PromotionDecision::Quarantine));
    assert_eq!(u, CandidateUpdate::InsertQuarantine);

    let (d, u) = quarantine_step(Some(("promoted", None)), now);
    assert!(matches!(d, PromotionDecision::Promote));
    assert_eq!(u, CandidateUpdate::Unchanged);

    let (d, u) = quarantine_step(Some(("quarantine", Some(now + 1))), now);
    assert!(matches!(d, PromotionDecision::Quarantine));
    assert_eq!(u, CandidateUpdate::Unchanged);

    let (d, u) = quarantine_step(Some(("quarantine", Some(now))), now);
    assert!(matches!(d, PromotionDecision::Promote));
    assert_eq!(u, CandidateUpdate::MarkPromoted);

    let (d, u) = quarantine_step(Some(("quarantine", None)), now);
    assert!(matches!(d, PromotionDecision::Promote));
    assert_eq!(u, CandidateUpdate::MarkPromoted);

    let (d, u) = quarantine_step(Some(("pending", Some(0))), now);
    assert!(matches!(d, PromotionDecision::Pending));
    assert_eq!(u, CandidateUpdate::Unchanged);
}

#[test]
fn quarantine_lasts_three_days() {
    assert_eq!(quarantine_until(0), 3 * 24 * 3600 * 1_000_000);
    assert_eq!(quarantine_until(5), 5 + QUARANTINE_MICROS);
}

#[test]
fn days_are_counted_in_order_of_first_appearance() {
    let day = 86400i64;
    let ts = vec![10, 2 * day + 5, 20, 2 * day + 7, -1, -day, -day - 1];
    let r = day_counts(&ts);
    // -1 and -86400 truncate to day 0 and -1; -86401 to -1
    assert_eq!(r, vec![(0, 3), (2, 2), (-1, 2)]);
    let total: u32 = r.iter().map(|(_, c)| *c).sum();
    assert_eq!(total as usize, ts.len());
    assert_eq!(day_counts(&vec![]), vec![]);
}
