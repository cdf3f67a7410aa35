use billly::coordinator::{handle_deleted_event, handle_processing_failure, Notification};
use billly::models::{ExtractedInvoiceData, IngestionStatus, Invoice};
use billly::processor::{begin_processing, complete_processing, mark_failed, ProcessPlan};
use billly::store::RecordStore;

fn extracted(total: i64) -> ExtractedInvoiceData {
    ExtractedInvoiceData {
        invoice_number: Some("R-100".to_string()),
        invoice_date: Some("01.03.2024".to_string()),
        due_date: Some("2024/03/15".to_string()),
        counterparty_name: Some("ACME GmbH".to_string()),
        total_amount: Some(total),
        currency: Some("EUR".to_string()),
        tax_amount: Some(310),
        net_amount: None,
        extraction_notes: "clean scan".to_string(),
        confidence_score: Some(90),
    }
}

fn process_once(store: &mut RecordStore, path: &str, category: &str, hash: &str) -> Invoice {
    let plan = begin_processing(store, path, category, hash, "2024-03-01T10:00:00+00:00", "t0", "id-1");
    match plan {
        ProcessPlan::Extract(pending) => complete_processing(
            store,
            pending,
            extracted(1950),
            "{\"total_amount\":19.5}".to_string(),
            "t1",
        )
        .expect("no other record owns the path"),
        ProcessPlan::Unchanged(_) => panic!("first sighting must extract"),
    }
}

#[test]
fn first_sighting_creates_a_processed_record() {
    let mut store = RecordStore::new();
    let inv = process_once(&mut store, "/in/a.pdf", "revenue", "h1");
    assert_eq!(inv.id, "id-1".to_string());
    assert_eq!(inv.category, "revenue".to_string());
    assert_eq!(inv.file_path, Some("/in/a.pdf".to_string()));
    assert_eq!(inv.file_hash, "h1".to_string());
    assert!(matches!(inv.ingestion_status, IngestionStatus::Processed));
    assert_eq!(inv.invoice_number, Some("R-100".to_string()));
    assert_eq!(inv.invoice_date, Some("2024-03-01".to_string()));
    assert_eq!(inv.due_date, Some("2024-03-15".to_string()));
    assert_eq!(inv.total_amount, "19.50".to_string());
    assert_eq!(inv.tax_amount, Some("3.10".to_string()));
    assert_eq!(inv.net_amount, None);
    assert_eq!(inv.currency, "EUR".to_string());
    assert_eq!(inv.confidence_score, 90);
    assert_eq!(store.record_count(), 1);
    assert_eq!(store.log_count(), 1);
    let log = store.log_at(0);
    assert_eq!(log.status, "success".to_string());
    assert_eq!(log.invoice_id, Some("id-1".to_string()));
    assert_eq!(log.file_hash, Some("h1".to_string()));
}

#[test]
fn second_pass_on_unchanged_file_is_idempotent() {
    let mut store = RecordStore::new();
    let first = process_once(&mut store, "/in/a.pdf", "revenue", "h1");
    let records_before = store.record_count();
    let logs_before = store.log_count();

    let plan = begin_processing(
        &mut store,
        "/in/a.pdf",
        "revenue",
        "h1",
        "2024-03-01T10:00:00+00:00",
        "t9",
        "id-other",
    );
    match plan {
        ProcessPlan::Unchanged(same) => {
            assert_eq!(same.id, first.id);
            assert_eq!(same.file_hash, first.file_hash);
            assert_eq!(same.file_modified_at, first.file_modified_at);
            assert_eq!(same.invoice_number, first.invoice_number);
            assert_eq!(same.total_amount, first.total_amount);
            assert_eq!(same.updated_at, first.updated_at);
            assert_eq!(same.created_at, first.created_at);
        },
        ProcessPlan::Extract(_) => panic!("unchanged file must short-circuit"),
    }
    assert_eq!(store.record_count(), records_before);
    assert_eq!(store.log_count(), logs_before);
}

#[test]
fn changed_content_triggers_reprocessing_preserving_identity() {
    let mut store = RecordStore::new();
    let first = process_once(&mut store, "/in/a.pdf", "revenue", "h1");

    let plan = begin_processing(
        &mut store,
        "/in/a.pdf",
        "revenue",
        "h2",
        "2024-03-02T08:00:00+00:00",
        "t2",
        "id-new",
    );
    let pending = match plan {
        ProcessPlan::Extract(p) => p,
        ProcessPlan::Unchanged(_) => panic!("changed hash must re-extract"),
    };
    assert_eq!(pending.id, first.id);
    assert_eq!(pending.created_at, first.created_at);
    assert_eq!(pending.file_hash, "h2".to_string());
    assert!(matches!(pending.ingestion_status, IngestionStatus::Pending));
    assert_eq!(store.record_count(), 1);

    let updated = complete_processing(
        &mut store,
        pending,
        extracted(2500),
        "{}".to_string(),
        "t3",
    )
    .expect("same identity keeps the path");
    assert_eq!(updated.id, first.id);
    assert_eq!(updated.total_amount, "25.00".to_string());
    assert_eq!(store.record_count(), 1);
}

#[test]
fn deletion_marks_missing_without_deleting() {
    let mut store = RecordStore::new();
    let first = process_once(&mut store, "/in/a.pdf", "revenue", "h1");
    let n = match handle_deleted_event(&mut store, "/in/a.pdf", "t4") {
        Notification::RecordMissing(p) => p,
        _ => panic!("deletion must notify the missing path"),
    };
    assert_eq!(n, "/in/a.pdf".to_string());
    assert_eq!(store.record_count(), 1);
    let rec = store.get_invoice_by_path("/in/a.pdf").expect("record survives deletion");
    assert_eq!(rec.id, first.id);
    assert!(matches!(rec.ingestion_status, IngestionStatus::Missing));
    assert_eq!(rec.updated_at, "t4".to_string());
    assert_eq!(rec.total_amount, first.total_amount);
}

#[test]
fn scan_of_two_folders_yields_two_distinct_processed_records() {
    let mut store = RecordStore::new();
    let plan_a = begin_processing(&mut store, "/rev/a.pdf", "revenue", "ha", "ma", "t0", "id-a");
    let pending_a = match plan_a {
        ProcessPlan::Extract(p) => p,
        _ => panic!("new file"),
    };
    let plan_b = begin_processing(&mut store, "/pay/b.pdf", "payable", "hb", "mb", "t0", "id-b");
    let pending_b = match plan_b {
        ProcessPlan::Extract(p) => p,
        _ => panic!("new file"),
    };
    let a = complete_processing(&mut store, pending_a, extracted(100), "{}".to_string(), "t1")
        .expect("distinct path");
    let b = complete_processing(&mut store, pending_b, extracted(200), "{}".to_string(), "t1")
        .expect("distinct path");
    assert_ne!(a.id, b.id);
    assert_eq!(a.category, "revenue".to_string());
    assert_eq!(b.category, "payable".to_string());
    assert!(matches!(a.ingestion_status, IngestionStatus::Processed));
    assert!(matches!(b.ingestion_status, IngestionStatus::Processed));
    assert_eq!(store.record_count(), 2);
    assert_eq!(store.log_count(), 2);
}

#[test]
fn second_rapid_pass_over_same_content_short_circuits_on_the_pending_record() {
    let mut store = RecordStore::new();
    let p1 = match begin_processing(&mut store, "/in/a.pdf", "revenue", "h1", "m1", "t0", "id-1") {
        ProcessPlan::Extract(p) => p,
        _ => panic!("new file"),
    };
    // a second notification for the same unchanged content arrives while the
    // first pass is still extracting: it finds the pending record and owes
    // no extraction of its own
    match begin_processing(&mut store, "/in/a.pdf", "revenue", "h1", "m1", "t9", "id-2") {
        ProcessPlan::Unchanged(seen) => {
            assert_eq!(seen.id, "id-1".to_string());
            assert!(matches!(seen.ingestion_status, IngestionStatus::Pending));
        },
        ProcessPlan::Extract(_) => panic!("unchanged fingerprint must short-circuit"),
    }
    let done1 = complete_processing(&mut store, p1, extracted(1950), "{}".to_string(), "t1")
        .expect("identity owns the path");
    assert_eq!(store.record_count(), 1);
    let stored = store.get_invoice_by_path("/in/a.pdf").expect("record exists");
    assert_eq!(stored.id, done1.id);
    assert_eq!(stored.total_amount, done1.total_amount);
    assert!(matches!(stored.ingestion_status, IngestionStatus::Processed));
}

#[test]
fn two_completing_passes_leave_one_consistent_record_with_no_field_mix() {
    let mut store = RecordStore::new();
    let p1 = match begin_processing(&mut store, "/in/a.pdf", "revenue", "h1", "m1", "t0", "id-1") {
        ProcessPlan::Extract(p) => p,
        _ => panic!("new file"),
    };
    // the file changes again before the first pass finishes; the second
    // notification starts its own pass over the new content
    let p2 = match begin_processing(&mut store, "/in/a.pdf", "revenue", "h2", "m2", "t0", "id-9") {
        ProcessPlan::Extract(p) => p,
        _ => panic!("changed fingerprint must re-extract"),
    };
    assert_eq!(p2.id, p1.id);
    let done1 = complete_processing(&mut store, p1, extracted(1950), "{}".to_string(), "t1")
        .expect("identity owns the path");
    let done2 = complete_processing(&mut store, p2, extracted(2500), "{}".to_string(), "t2")
        .expect("identity owns the path");
    assert_eq!(store.record_count(), 1);
    let stored = store.get_invoice_by_path("/in/a.pdf").expect("record exists");
    // the later completion wins wholesale: no mix of the two extractions
    assert_eq!(stored.id, done2.id);
    assert_eq!(stored.file_hash, done2.file_hash);
    assert_eq!(stored.total_amount, done2.total_amount);
    assert_eq!(stored.updated_at, done2.updated_at);
    assert_ne!(stored.total_amount, done1.total_amount);
    assert!(matches!(stored.ingestion_status, IngestionStatus::Processed));
}

#[test]
fn failure_is_recorded_and_logged() {
    let mut store = RecordStore::new();
    let pending = match begin_processing(&mut store, "/in/a.pdf", "revenue", "h1", "m1", "t0", "id-1")
    {
        ProcessPlan::Extract(p) => p,
        _ => panic!("new file"),
    };
    let mut inv = pending;
    mark_failed(&mut store, &mut inv, "OpenAI error 500", "t1").expect("identity owns the path");
    assert!(matches!(inv.ingestion_status, IngestionStatus::Failed));
    assert_eq!(inv.updated_at, "t1".to_string());
    assert_eq!(store.log_count(), 1);
    let log = store.log_at(0);
    assert_eq!(log.status, "failed".to_string());
    assert_eq!(log.message, Some("OpenAI error 500".to_string()));
    let stored = store.get_invoice_by_path("/in/a.pdf").expect("record persisted");
    assert!(matches!(stored.ingestion_status, IngestionStatus::Failed));
}

#[test]
fn failure_handler_skips_unknown_paths_but_notifies() {
    let mut store = RecordStore::new();
    let n = handle_processing_failure(&mut store, "/in/never-seen.pdf", "text extraction failed", "t1");
    match n {
        Notification::ProcessingError(m) => assert_eq!(m, "text extraction failed".to_string()),
        _ => panic!("failure must notify the error"),
    }
    assert_eq!(store.record_count(), 0);
    assert_eq!(store.log_count(), 0);
}

#[test]
fn failure_handler_marks_known_paths_failed() {
    let mut store = RecordStore::new();
    process_once(&mut store, "/in/a.pdf", "revenue", "h1");
    let _ = handle_processing_failure(&mut store, "/in/a.pdf", "credential missing", "t5");
    let stored = store.get_invoice_by_path("/in/a.pdf").expect("record exists");
    assert!(matches!(stored.ingestion_status, IngestionStatus::Failed));
    assert_eq!(store.log_count(), 2);
    let log = store.log_at(1);
    assert_eq!(log.message, Some("credential missing".to_string()));
}

#[test]
fn records_are_reachable_by_identity_and_position() {
    let mut store = RecordStore::new();
    let inv = process_once(&mut store, "/in/a.pdf", "revenue", "h1");
    let by_id = store.get_invoice_by_id(&inv.id).expect("identity is stored");
    assert_eq!(by_id.file_path, Some("/in/a.pdf".to_string()));
    assert!(store.get_invoice_by_id("no-such-id").is_none());
    assert!(store.get_invoice_by_path("/elsewhere.pdf").is_none());
    let first = store.record_at(0);
    assert_eq!(first.id, inv.id);
    let log_copy = store.log_at(0).duplicate();
    assert_eq!(log_copy.status, "success".to_string());
}

#[test]
fn upsert_rejects_a_path_owned_by_another_identity() {
    let mut store = RecordStore::new();
    process_once(&mut store, "/in/a.pdf", "revenue", "h1");
    let stranger = {
        let mut inv = store.get_invoice_by_path("/in/a.pdf").expect("record exists");
        inv.id = "different-id".to_string();
        inv
    };
    assert!(store.upsert_invoice(&stranger).is_err());
    assert_eq!(store.record_count(), 1);
}
