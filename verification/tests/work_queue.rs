use ledgerr_mcp::contract::{FetchQueueRequest, QueueItemType, QueueSeverity, QueueStatus};
use ledgerr_mcp::events::{EventHistoryFilter, InMemoryLifecycleEventStore, LifecycleEventStore};
use ledgerr_mcp::types::FlagStatusRequest;
use ledgerr_mcp::work_queue::{assemble_work_queue, flag_to_queue_item, ReviewFlag};
use ledgerr_mcp::StringMap;

fn payload(pairs: &[(&str, &str)]) -> StringMap {
    let mut m = StringMap::new();
    for (k, v) in pairs {
        m.insert(k.to_string(), v.to_string());
    }
    m
}

fn flags() -> Vec<ReviewFlag> {
    vec![
        ReviewFlag {
            tx_id: "t1".to_string(),
            year: 2024,
            status: FlagStatusRequest::Open,
            reason: "low confidence".to_string(),
        },
        ReviewFlag { tx_id: "t2".to_string(), year: 2023, status: FlagStatusRequest::Resolved, reason: "ok".to_string() },
    ]
}

fn events() -> Vec<ledgerr_mcp::events::LifecycleEvent> {
    let mut store = InMemoryLifecycleEventStore::new();
    store
        .append_event("classification", Some("t1".to_string()), None, payload(&[("actor", "alice"), ("date", "2024-05-01")]))
        .unwrap();
    store
        .append_event("adjustment", Some("t1".to_string()), None, payload(&[("actor", "agent"), ("date", "2024-05-02")]))
        .unwrap();
    store.append_event("ingest", Some("t3".to_string()), None, payload(&[("date", "2024-07-01")])).unwrap();
    store.append_event("classification", None, Some("doc".to_string()), payload(&[("date", "2024-06-01")])).unwrap();
    store
        .list_events(EventHistoryFilter { tx_id: None, document_ref: None, time_start: None, time_end: None })
        .unwrap()
        .events
}

fn request() -> FetchQueueRequest {
    FetchQueueRequest { item_types: None, statuses: None, updated_after: None, limit: 100, offset: 0 }
}

#[test]
fn queue_gathers_flags_and_manual_changes_newest_first() {
    let r = assemble_work_queue(&flags(), &events(), &request());
    assert_eq!(r.total_count, 4);
    assert_eq!(r.items.len(), 4);
    assert_eq!(r.items[0].created_at, "2024-06-01");
    assert_eq!(r.items[0].summary, "Manual change: classification");
    assert_eq!(r.items[0].tx_id, None);
    assert_eq!(r.items[0].document_ref, Some("doc".to_string()));
    assert!(r.items[0].related_tx_ids.is_empty());
    assert_eq!(r.items[1].created_at, "2024-05-01");
    assert!(r.items[1].id.starts_with("manual:"));
    assert_eq!(r.items[1].related_tx_ids, vec!["t1".to_string()]);
    assert_eq!(r.items[2].tx_id, Some("t1".to_string()));
    assert_eq!(r.items[2].item_type, QueueItemType::Flag);
    assert_eq!(r.items[2].severity, QueueSeverity::High);
    assert_eq!(r.items[2].created_at, "1970-01-01T00:00:00Z");
    assert_eq!(r.items[3].tx_id, Some("t2".to_string()));
    assert_eq!(r.items[3].status, QueueStatus::Resolved);
    assert_eq!((r.offset, r.limit), (0, 100));
}

#[test]
fn queue_filters_by_status_time_and_type() {
    let mut q = request();
    q.statuses = Some(vec![QueueStatus::Open]);
    let r = assemble_work_queue(&flags(), &events(), &q);
    assert_eq!(r.total_count, 1);
    assert_eq!(r.items[0].summary, "low confidence");

    let mut q = request();
    q.updated_after = Some("2024-05-15".to_string());
    let r = assemble_work_queue(&flags(), &events(), &q);
    assert_eq!(r.total_count, 1);
    assert_eq!(r.items[0].created_at, "2024-06-01");

    let mut q = request();
    q.item_types = Some(vec![QueueItemType::Flag]);
    let r = assemble_work_queue(&flags(), &events(), &q);
    assert_eq!(r.total_count, 2);
    assert!(r.items.iter().all(|i| i.item_type == QueueItemType::Flag));
}

#[test]
fn queue_pages() {
    let mut q = request();
    q.limit = 1;
    q.offset = 1;
    let r = assemble_work_queue(&flags(), &events(), &q);
    assert_eq!(r.total_count, 4);
    assert_eq!(r.items.len(), 1);
    assert_eq!(r.items[0].created_at, "2024-05-01");
    assert_eq!((r.offset, r.limit), (1, 1));
    q.offset = 10;
    let r = assemble_work_queue(&flags(), &events(), &q);
    assert!(r.items.is_empty());
}

#[test]
fn queue_flag_ids_are_content_hashes() {
    let a = flag_to_queue_item(&flags()[0]);
    let b = flag_to_queue_item(&flags()[0]);
    assert_eq!(a.id, b.id);
    assert_eq!(a.id.len(), 64);
    let mut other = flags()[0].clone();
    other.year = 2025;
    assert_ne!(flag_to_queue_item(&other).id, a.id);
}
