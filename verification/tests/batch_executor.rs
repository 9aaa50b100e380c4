use std::cell::Cell;

use ledgerr_mcp::batch_executor::BatchExecutor;
use ledgerr_mcp::contract::{BatchItemResult, BatchItemStatus, BatchMode};
use ledgerr_mcp::ToolError;

#[test]
fn test_execute_batch_empty_list() {
    let summary = BatchExecutor::execute_batch(
        vec![],
        BatchMode::ContinueOnError,
        false,
        |_tx_id: &str| {
            Ok(BatchItemResult {
                tx_id: "test".to_string(),
                status: BatchItemStatus::Succeeded,
                audit_entries: vec![],
            })
        },
    )
    .unwrap();

    assert_eq!(summary.total_requested, 0);
    assert_eq!(summary.succeeded, 0);
    assert_eq!(summary.failed, 0);
    assert_eq!(summary.skipped, 0);
}

#[test]
fn test_execute_batch_all_succeed() {
    let summary = BatchExecutor::execute_batch(
        vec!["tx1".to_string(), "tx2".to_string(), "tx3".to_string()],
        BatchMode::ContinueOnError,
        false,
        |tx_id: &str| {
            Ok(BatchItemResult {
                tx_id: tx_id.to_string(),
                status: BatchItemStatus::Succeeded,
                audit_entries: vec![],
            })
        },
    )
    .unwrap();

    assert_eq!(summary.total_requested, 3);
    assert_eq!(summary.succeeded, 3);
    assert_eq!(summary.failed, 0);
    assert_eq!(summary.skipped, 0);
}

#[test]
fn test_execute_batch_continue_on_error() {
    let call_count = Cell::new(0);
    let summary = BatchExecutor::execute_batch(
        vec!["tx1".to_string(), "tx2".to_string(), "tx3".to_string()],
        BatchMode::ContinueOnError,
        false,
        |tx_id: &str| {
            call_count.set(call_count.get() + 1);
            if tx_id == "tx2" {
                Err(ToolError::InvalidInput("test error".to_string()))
            } else {
                Ok(BatchItemResult {
                    tx_id: tx_id.to_string(),
                    status: BatchItemStatus::Succeeded,
                    audit_entries: vec![],
                })
            }
        },
    )
    .unwrap();

    assert_eq!(call_count.get(), 3); // All three attempted
    assert_eq!(summary.total_requested, 3);
    assert_eq!(summary.succeeded, 2);
    assert_eq!(summary.failed, 1);
    assert_eq!(summary.skipped, 0);
}

#[test]
fn test_execute_batch_all_or_nothing_stops_on_error() {
    let call_count = Cell::new(0);
    let summary = BatchExecutor::execute_batch(
        vec!["tx1".to_string(), "tx2".to_string(), "tx3".to_string()],
        BatchMode::AllOrNothing,
        false,
        |tx_id: &str| {
            call_count.set(call_count.get() + 1);
            if tx_id == "tx2" {
                Err(ToolError::InvalidInput("test error".to_string()))
            } else {
                Ok(BatchItemResult {
                    tx_id: tx_id.to_string(),
                    status: BatchItemStatus::Succeeded,
                    audit_entries: vec![],
                })
            }
        },
    )
    .unwrap();

    assert_eq!(call_count.get(), 2); // tx1 succeeded, tx2 failed, tx3 never attempted
    assert_eq!(summary.total_requested, 3);
    assert_eq!(summary.succeeded, 1);
    assert_eq!(summary.failed, 1);
    assert_eq!(summary.skipped, 0);
}

#[test]
fn test_execute_batch_dry_run() {
    let call_count = Cell::new(0);
    let summary = BatchExecutor::execute_batch(
        vec!["tx1".to_string(), "tx2".to_string()],
        BatchMode::ContinueOnError,
        true,
        |_tx_id: &str| {
            call_count.set(call_count.get() + 1);
            Err(ToolError::Internal("should not be called".to_string()))
        },
    )
    .unwrap();

    assert_eq!(call_count.get(), 0); // Operation never called in dry_run mode
    assert_eq!(summary.total_requested, 2);
    assert_eq!(summary.succeeded, 0);
    assert_eq!(summary.failed, 0);
    assert_eq!(summary.skipped, 2);
}

#[test]
fn batch_default_mode_continues_on_error() {
    assert_eq!(BatchMode::default_mode(), BatchMode::ContinueOnError);
}
