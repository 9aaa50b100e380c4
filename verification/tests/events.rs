use ledgerr_mcp::events::{
    reconstruct_lifecycle, EventHistoryFilter, InMemoryLifecycleEventStore, LifecycleEventStore,
};
use ledgerr_mcp::{StringMap, ToolError};

fn payload(pairs: &[(&str, &str)]) -> StringMap {
    let mut m = StringMap::new();
    for (k, v) in pairs {
        m.insert(k.to_string(), v.to_string());
    }
    m
}

fn no_filter() -> EventHistoryFilter {
    EventHistoryFilter { tx_id: None, document_ref: None, time_start: None, time_end: None }
}

#[test]
fn events_append_assigns_sequence_and_id() {
    let mut store = InMemoryLifecycleEventStore::new();
    let a = store
        .append_event(" Ingest ", Some(" tx-1 ".to_string()), None, payload(&[("date", "2024-01-02")]))
        .unwrap();
    assert_eq!(a.sequence, 1);
    assert_eq!(a.event_id.len(), 64);
    assert!(a.event_id.chars().all(|c| c.is_ascii_hexdigit() && !c.is_ascii_uppercase()));
    let b = store.append_event("classification", Some("tx-1".to_string()), None, payload(&[])).unwrap();
    assert_eq!(b.sequence, 2);

    let listed = store.list_events(no_filter()).unwrap().events;
    assert_eq!(listed.len(), 2);
    assert_eq!(listed[0].event_type, "ingest");
    assert_eq!(listed[0].tx_id, Some("tx-1".to_string()));
    assert_eq!(listed[0].occurred_at, "2024-01-02");
    assert_eq!(listed[1].occurred_at, "sequence:00000000000000000002");
    assert_eq!(listed[0].event_id, a.event_id);
}

#[test]
fn events_reject_unknown_type() {
    let mut store = InMemoryLifecycleEventStore::new();
    match store.append_event("deleted", None, None, payload(&[])) {
        Err(ToolError::InvalidInput(m)) => assert_eq!(
            m,
            "event_type must be one of: ingest,classification,reconciliation,adjustment,b00t_cost,b00t_delegate"
        ),
        _ => panic!("expected invalid input"),
    }
    assert!(store.list_events(no_filter()).unwrap().events.is_empty());
}

#[test]
fn events_same_inputs_same_id() {
    let mut s1 = InMemoryLifecycleEventStore::new();
    let mut s2 = InMemoryLifecycleEventStore::new();
    s2.append_event("ingest", None, None, payload(&[])).unwrap();
    let a = s1
        .append_event("ingest", Some("tx".to_string()), Some("doc".to_string()), payload(&[("k", "v")]))
        .unwrap();
    let b = s2
        .append_event(" INGEST", Some(" tx".to_string()), Some("doc ".to_string()), payload(&[("k", " v ")]))
        .unwrap();
    assert_eq!(a.event_id, b.event_id);
    assert_ne!(a.sequence, b.sequence);
    let c = s1.append_event("ingest", Some("other".to_string()), None, payload(&[])).unwrap();
    assert_ne!(a.event_id, c.event_id);
}

#[test]
fn events_filter_by_transaction_and_window() {
    let mut store = InMemoryLifecycleEventStore::new();
    store.append_event("ingest", Some("a".to_string()), None, payload(&[("date", "2024-01-01")])).unwrap();
    store.append_event("ingest", Some("b".to_string()), None, payload(&[("date", "2024-02-01")])).unwrap();
    store.append_event("classification", Some("a".to_string()), None, payload(&[("date", "2024-03-01")])).unwrap();

    let mut f = no_filter();
    f.tx_id = Some(" a ".to_string());
    let listed = store.list_events(f).unwrap().events;
    assert_eq!(listed.len(), 2);
    assert_eq!(listed[0].sequence, 1);
    assert_eq!(listed[1].sequence, 3);

    let mut f = no_filter();
    f.time_start = Some("2024-01-15".to_string());
    f.time_end = Some("2024-02-28".to_string());
    let listed = store.list_events(f).unwrap().events;
    assert_eq!(listed.len(), 1);
    assert_eq!(listed[0].tx_id, Some("b".to_string()));

    let mut f = no_filter();
    f.time_start = Some("2024-03-01".to_string());
    f.time_end = Some("2024-01-01".to_string());
    match store.list_events(f) {
        Err(ToolError::InvalidInput(m)) => assert_eq!(m, "time_start must be <= time_end"),
        _ => panic!("expected invalid input"),
    }
}

#[test]
fn events_replay_of_valid_lifecycle() {
    let mut store = InMemoryLifecycleEventStore::new();
    store.append_event("ingest", Some("tx-1".to_string()), None, payload(&[])).unwrap();
    store
        .append_event("classification", Some("tx-1".to_string()), None, payload(&[("category", "food")]))
        .unwrap();
    let events = store.list_events(no_filter()).unwrap().events;
    let p = reconstruct_lifecycle(&events);
    assert_eq!(p.reconstructed_state, "tx_id=tx-1;stage=classification;category=food");
    assert_eq!(p.event_count, 2);
    assert!(p.diagnostics.is_empty());
}

#[test]
fn events_replay_reports_gaps_and_bad_transitions() {
    let mut store = InMemoryLifecycleEventStore::new();
    store.append_event("ingest", Some("tx-1".to_string()), None, payload(&[])).unwrap();
    store.append_event("classification", Some("tx-2".to_string()), None, payload(&[])).unwrap();
    store.append_event("reconciliation", Some("tx-1".to_string()), None, payload(&[])).unwrap();
    let events = store.list_events(no_filter()).unwrap().events;
    let without_second: Vec<_> = events.into_iter().filter(|e| e.sequence != 2).collect();
    let p = reconstruct_lifecycle(&without_second);
    assert_eq!(p.event_count, 2);
    assert_eq!(
        p.diagnostics,
        vec![
            "invalid_transition:tx_id=tx-1,from=ingest,to=reconciliation".to_string(),
            "sequence_gap:expected=2,actual=3".to_string(),
        ]
    );
    assert_eq!(p.reconstructed_state, "tx_id=tx-1;stage=reconciliation;category=");

    let all = store.list_events(no_filter()).unwrap().events;
    let p = reconstruct_lifecycle(&all);
    assert!(p.diagnostics.contains(&"missing_predecessor:tx_id=tx-2,event_type=classification".to_string()));
    assert!(p.diagnostics.contains(&"invalid_transition:tx_id=tx-2,from=none,to=classification".to_string()));
}

#[test]
fn events_replay_of_nothing_is_empty() {
    let p = reconstruct_lifecycle(&[]);
    assert_eq!(p.reconstructed_state, "empty");
    assert_eq!(p.event_count, 0);
    assert!(p.diagnostics.is_empty());
}

#[test]
fn events_replay_does_not_depend_on_the_order_given() {
    let mut store = InMemoryLifecycleEventStore::new();
    store.append_event("ingest", Some("tx-1".to_string()), None, payload(&[])).unwrap();
    store.append_event("ingest", Some("tx-2".to_string()), None, payload(&[])).unwrap();
    store
        .append_event("classification", Some("tx-1".to_string()), None, payload(&[("category", "rent")]))
        .unwrap();
    store.append_event("reconciliation", Some("tx-2".to_string()), None, payload(&[])).unwrap();
    let events = store.list_events(no_filter()).unwrap().events;
    let mut reversed = store.list_events(no_filter()).unwrap().events;
    reversed.reverse();
    let a = reconstruct_lifecycle(&events);
    let b = reconstruct_lifecycle(&reversed);
    assert_eq!(a.reconstructed_state, b.reconstructed_state);
    assert_eq!(a.diagnostics, b.diagnostics);
    assert_eq!(a.event_count, b.event_count);
    assert_eq!(
        a.reconstructed_state,
        "tx_id=tx-1;stage=classification;category=rent|tx_id=tx-2;stage=reconciliation;category="
    );
}
