use event_analytics::event::{decode, DecodeFailure, Event};
use event_analytics::render::render_report;
use event_analytics::window::{known_categories, Aggregator, Snapshot, DEFAULT_FLUSH_INTERVAL_MS};

fn fresh(now_ms: u64) -> Aggregator {
    Aggregator::new(known_categories(), DEFAULT_FLUSH_INTERVAL_MS, now_ms)
}

fn event(category: &str, user_id: Option<i64>) -> Event {
    Event { category: category.to_string(), user_id }
}

#[test]
fn known_categories_are_the_three_labels() {
    let cats = known_categories();
    assert_eq!(cats.len(), 3);
    assert_eq!(cats[0], "page_view");
    assert_eq!(cats[1], "click");
    assert_eq!(cats[2], "purchase");
}

#[test]
fn decode_reads_category_and_user_id() {
    let payload = b"{\"event_type\":\"click\",\"user_id\":7}".to_vec();
    let ev = decode(Some(payload.as_slice())).unwrap();
    assert_eq!(ev.category, "click");
    assert_eq!(ev.user_id, Some(7));
}

#[test]
fn decode_reads_full_producer_record() {
    let payload =
        b"{\"event_type\":\"purchase\",\"user_id\":42,\"item_id\":9,\"timestamp\":1.5}".to_vec();
    let ev = decode(Some(payload.as_slice())).unwrap();
    assert_eq!(ev.category, "purchase");
    assert_eq!(ev.user_id, Some(42));
}

#[test]
fn decode_absent_payload_is_empty_payload() {
    let r = decode(None);
    assert!(matches!(r, Err(DecodeFailure::EmptyPayload)));
}

#[test]
fn decode_unparseable_payload_is_malformed() {
    let payload = b"not json at all".to_vec();
    let r = decode(Some(payload.as_slice()));
    match r {
        Err(DecodeFailure::MalformedPayload(detail)) => assert!(!detail.is_empty()),
        _ => panic!("expected a malformed-payload failure"),
    }
}

#[test]
fn decode_missing_category_yields_empty_label() {
    let payload = b"{\"user_id\":5}".to_vec();
    let ev = decode(Some(payload.as_slice())).unwrap();
    assert_eq!(ev.category, "");
    assert_eq!(ev.user_id, Some(5));
}

#[test]
fn decode_non_string_category_yields_empty_label() {
    let payload = b"{\"event_type\":12,\"user_id\":5}".to_vec();
    let ev = decode(Some(payload.as_slice())).unwrap();
    assert_eq!(ev.category, "");
}

#[test]
fn decode_missing_user_id_is_absent() {
    let payload = b"{\"event_type\":\"click\"}".to_vec();
    let ev = decode(Some(payload.as_slice())).unwrap();
    assert_eq!(ev.category, "click");
    assert_eq!(ev.user_id, None);
}

#[test]
fn decode_non_numeric_user_id_is_absent() {
    let payload = b"{\"event_type\":\"click\",\"user_id\":\"seven\"}".to_vec();
    let ev = decode(Some(payload.as_slice())).unwrap();
    assert_eq!(ev.user_id, None);
}

#[test]
fn decode_fractional_user_id_is_absent() {
    let payload = b"{\"event_type\":\"click\",\"user_id\":7.5}".to_vec();
    let ev = decode(Some(payload.as_slice())).unwrap();
    assert_eq!(ev.user_id, None);
}

#[test]
fn counts_are_exact_per_category() {
    let mut agg = fresh(0);
    agg.observe(&event("click", Some(1)));
    agg.observe(&event("page_view", Some(2)));
    agg.observe(&event("click", Some(3)));
    agg.observe(&event("purchase", None));
    agg.observe(&event("click", Some(1)));
    assert_eq!(agg.counts, vec![1, 3, 1]);
}

#[test]
fn distinct_users_ignores_repeats_and_order() {
    let mut agg = fresh(0);
    for uid in [7, 7, 9, 3, 9, 7] {
        agg.observe(&event("click", Some(uid)));
    }
    assert_eq!(agg.users.len(), 3);
    let mut agg2 = fresh(0);
    for uid in [9, 3, 7] {
        agg2.observe(&event("page_view", Some(uid)));
    }
    assert_eq!(agg2.users.len(), 3);
}

#[test]
fn absent_user_id_adds_no_user() {
    let mut agg = fresh(0);
    agg.observe(&event("click", None));
    assert_eq!(agg.users.len(), 0);
}

#[test]
fn flush_resets_counts_users_and_window_start() {
    let mut agg = fresh(1000);
    agg.observe(&event("click", Some(7)));
    agg.observe(&event("purchase", Some(9)));
    let snapshot = agg.maybe_flush(1000 + DEFAULT_FLUSH_INTERVAL_MS);
    assert!(snapshot.is_some());
    assert_eq!(agg.counts, vec![0, 0, 0]);
    assert_eq!(agg.users.len(), 0);
    assert_eq!(agg.window_start_ms, 1000 + DEFAULT_FLUSH_INTERVAL_MS);
}

#[test]
fn round_trip_snapshot_matches_observed_events() {
    let mut agg = fresh(0);
    agg.observe(&event("click", Some(7)));
    agg.observe(&event("click", Some(7)));
    agg.observe(&event("purchase", Some(9)));
    let snapshot = agg.maybe_flush(DEFAULT_FLUSH_INTERVAL_MS).unwrap();
    assert_eq!(snapshot.categories, vec!["page_view", "click", "purchase"]);
    assert_eq!(snapshot.counts, vec![0, 2, 1]);
    assert_eq!(snapshot.distinct_users, 2);
}

#[test]
fn malformed_payload_alters_nothing_and_processing_continues() {
    let mut agg = fresh(0);
    let good = b"{\"event_type\":\"click\",\"user_id\":7}".to_vec();
    assert!(agg.ingest(Some(good.as_slice())).is_ok());
    let counts_before = agg.counts.clone();
    let users_before = agg.users.len();
    let bad = b"{{{".to_vec();
    let r = agg.ingest(Some(bad.as_slice()));
    assert!(matches!(r, Err(DecodeFailure::MalformedPayload(_))));
    assert_eq!(agg.counts, counts_before);
    assert_eq!(agg.users.len(), users_before);
    assert!(agg.ingest(Some(good.as_slice())).is_ok());
    assert_eq!(agg.counts, vec![0, 2, 0]);
}

#[test]
fn empty_payload_alters_nothing() {
    let mut agg = fresh(0);
    let r = agg.ingest(None);
    assert!(matches!(r, Err(DecodeFailure::EmptyPayload)));
    assert_eq!(agg.counts, vec![0, 0, 0]);
    assert_eq!(agg.users.len(), 0);
}

#[test]
fn unknown_category_keeps_counts_but_adds_user() {
    let mut agg = fresh(0);
    agg.observe(&event("refund", Some(42)));
    assert_eq!(agg.counts, vec![0, 0, 0]);
    assert_eq!(agg.users.len(), 1);
    assert!(agg.users.contains(&42));
}

#[test]
fn idle_interval_emits_all_zero_snapshot() {
    let mut agg = fresh(500);
    let snapshot = agg.maybe_flush(500 + DEFAULT_FLUSH_INTERVAL_MS).unwrap();
    assert_eq!(snapshot.counts, vec![0, 0, 0]);
    assert_eq!(snapshot.distinct_users, 0);
}

#[test]
fn flush_before_interval_is_a_no_op() {
    let mut agg = fresh(1000);
    agg.observe(&event("click", Some(7)));
    let r = agg.maybe_flush(1000 + DEFAULT_FLUSH_INTERVAL_MS - 1);
    assert!(r.is_none());
    assert_eq!(agg.counts, vec![0, 1, 0]);
    assert_eq!(agg.users.len(), 1);
    assert_eq!(agg.window_start_ms, 1000);
}

#[test]
fn ingest_through_decode_counts_events() {
    let mut agg = fresh(0);
    let p1 = b"{\"event_type\":\"page_view\",\"user_id\":1}".to_vec();
    let p2 = b"{\"event_type\":\"page_view\",\"user_id\":2}".to_vec();
    assert!(agg.ingest(Some(p1.as_slice())).is_ok());
    assert!(agg.ingest(Some(p2.as_slice())).is_ok());
    assert_eq!(agg.counts, vec![2, 0, 0]);
    assert_eq!(agg.users.len(), 2);
}

#[test]
fn headroom_holds_for_a_fresh_window() {
    let agg = fresh(0);
    assert!(agg.has_headroom());
}

#[test]
fn report_text_is_exact() {
    let mut agg = fresh(0);
    agg.observe(&event("click", Some(7)));
    agg.observe(&event("click", Some(7)));
    agg.observe(&event("purchase", Some(9)));
    let snapshot = agg.maybe_flush(DEFAULT_FLUSH_INTERVAL_MS).unwrap();
    let text = render_report(&snapshot);
    assert_eq!(
        text,
        "Event Counts:\n  page_view: 0\n  click: 2\n  purchase: 1\nDistinct Users: 2\n"
    );
}

#[test]
fn report_renders_multi_digit_numbers() {
    let snapshot = Snapshot {
        categories: vec!["click".to_string()],
        counts: vec![1234567890],
        distinct_users: 105,
    };
    let text = render_report(&snapshot);
    assert_eq!(text, "Event Counts:\n  click: 1234567890\nDistinct Users: 105\n");
}
