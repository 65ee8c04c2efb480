use madrigal::session::{
    flush_action, next_fraud_strikes, push_bounded, stage2_filter, FlushAction, SessionLog, HOT_TTL_MS,
    MAX_FRAUD_STRIKES,
};

#[test]
fn window_keeps_last_five_events() {
    let mut log = SessionLog::new();
    let events = ["a", "b", "c", "d", "e", "f", "g"];
    for e in events {
        log.record(e);
    }
    assert_eq!(log.recent(), vec!["c", "d", "e", "f", "g"]);
    assert_eq!(log.sequence(), events.to_vec());
    assert_eq!(log.session_len(), 7);
}

#[test]
fn window_survives_session_end() {
    let mut log = SessionLog::new();
    for e in ["page_view", "click", "scroll", "click", "page_hide"] {
        log.record(e);
    }
    assert!(log.should_finalize("page_hide"));
    let seq = log.take_sequence();
    assert_eq!(seq.len(), 5);
    assert_eq!(log.session_len(), 0);
    assert_eq!(log.recent().len(), 5);
    log.record("page_view");
    assert_eq!(log.recent(), vec!["click", "scroll", "click", "page_hide", "page_view"]);
    assert_eq!(log.sequence(), vec!["page_view"]);
}

#[test]
fn short_sessions_do_not_finalize() {
    let mut log = SessionLog::new();
    for e in ["page_view", "click", "page_hide"] {
        log.record(e);
    }
    assert!(!log.should_finalize("page_hide"));
    for e in ["click", "click"] {
        log.record(e);
    }
    assert!(!log.should_finalize("click"));
    assert!(log.should_finalize("page_hide"));
}

fn types(v: &[&str]) -> Vec<String> {
    v.iter().map(|s| s.to_string()).collect()
}

#[test]
fn stage2_drops_bursts_and_accidents() {
    let t = types(&["page_view", "click", "click", "scroll", "click", "page_view", "page_view"]);
    let ts = vec![0, 5000, 5050, 5500, 7000, 7100, 9000];
    assert_eq!(stage2_filter(&t, &ts), vec![true, true, false, false, true, false, true]);
}

#[test]
fn stage2_keeps_first_and_slow_events() {
    let t = types(&["scroll", "scroll", "click"]);
    let ts = vec![100, 1100, 1180];
    assert_eq!(stage2_filter(&t, &ts), vec![true, true, true]);
    assert_eq!(stage2_filter(&vec![], &vec![]), Vec::<bool>::new());
}

#[test]
fn fraud_strikes_are_capped() {
    assert_eq!(next_fraud_strikes(0), 1);
    assert_eq!(next_fraud_strikes(9), 10);
    assert_eq!(next_fraud_strikes(MAX_FRAUD_STRIKES), MAX_FRAUD_STRIKES);
    let mut s = 0u8;
    for _ in 0..50 {
        s = next_fraud_strikes(s);
    }
    assert_eq!(s, 10);
}

#[test]
fn idle_users_are_flushed() {
    assert_eq!(flush_action(0, true), FlushAction::KeepHot);
    assert_eq!(flush_action(HOT_TTL_MS - 1, true), FlushAction::KeepHot);
    assert_eq!(flush_action(HOT_TTL_MS, true), FlushAction::SaveThenEvict);
    assert_eq!(flush_action(HOT_TTL_MS, false), FlushAction::Evict);
}

#[test]
fn bounded_window_drops_oldest() {
    let mut w: Vec<u32> = Vec::new();
    for x in 0..15 {
        push_bounded(&mut w, x, 12);
        assert!(w.len() <= 12);
    }
    assert_eq!(w, (3..15).collect::<Vec<u32>>());
    let mut z: Vec<u32> = vec![];
    push_bounded(&mut z, 1, 0);
    assert!(z.is_empty());
}
