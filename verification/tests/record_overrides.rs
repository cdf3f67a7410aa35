use billly::models::{IngestionStatus, Invoice, InvoiceOverride, InvoiceSummary};
use billly::overrides::{apply_overrides, apply_overrides_to_summary};
use billly::processor::{begin_processing_now, ProcessPlan};
use billly::stamps::now_rfc3339;
use billly::store::RecordStore;

fn base_invoice() -> Invoice {
    Invoice {
        id: "id-1".to_string(),
        category: "revenue".to_string(),
        file_path: Some("/in/a.pdf".to_string()),
        file_hash: "h1".to_string(),
        file_modified_at: "m1".to_string(),
        ingestion_status: IngestionStatus::Processed,
        ocr_text: None,
        extracted_json: "{}".to_string(),
        confidence_score: 70,
        invoice_number: Some("R-100".to_string()),
        invoice_date: Some("2024-03-01".to_string()),
        due_date: None,
        counterparty_name: None,
        total_amount: "19.50".to_string(),
        currency: "EUR".to_string(),
        tax_amount: None,
        net_amount: None,
        status: "open".to_string(),
        paid_at: None,
        created_at: "t0".to_string(),
        updated_at: "t1".to_string(),
    }
}

fn make_override(field: &str, value: &str) -> InvoiceOverride {
    InvoiceOverride {
        id: "o-1".to_string(),
        invoice_id: "id-1".to_string(),
        field_name: field.to_string(),
        override_value: value.to_string(),
        created_at: "t2".to_string(),
        updated_at: "t2".to_string(),
    }
}

#[test]
fn known_fields_are_replaced_in_order() {
    let mut inv = base_invoice();
    let os = vec![
        make_override("total_amount", "25.00"),
        make_override("counterparty_name", "ACME"),
        make_override("total_amount", "30.00"),
    ];
    apply_overrides(&mut inv, &os);
    assert_eq!(inv.total_amount, "30.00".to_string());
    assert_eq!(inv.counterparty_name, Some("ACME".to_string()));
    assert_eq!(inv.invoice_number, Some("R-100".to_string()));
}

#[test]
fn unknown_field_names_change_nothing() {
    let mut inv = base_invoice();
    apply_overrides(&mut inv, &[make_override("no_such_field", "x")]);
    assert_eq!(inv.total_amount, "19.50".to_string());
    assert_eq!(inv.status, "open".to_string());
}

#[test]
fn optional_fields_become_present_when_overridden() {
    let mut inv = base_invoice();
    apply_overrides(
        &mut inv,
        &[
            make_override("due_date", "2024-04-01"),
            make_override("paid_at", "2024-04-02"),
            make_override("status", "paid"),
        ],
    );
    assert_eq!(inv.due_date, Some("2024-04-01".to_string()));
    assert_eq!(inv.paid_at, Some("2024-04-02".to_string()));
    assert_eq!(inv.status, "paid".to_string());
}

#[test]
fn summary_rows_take_their_four_fields() {
    let mut row = InvoiceSummary {
        id: "id-1".to_string(),
        invoice_date: None,
        counterparty_name: None,
        total_amount: "19.50".to_string(),
        status: "open".to_string(),
        confidence_score: 70,
        file_path: None,
    };
    apply_overrides_to_summary(
        &mut row,
        &[
            make_override("invoice_date", "2024-03-05"),
            make_override("status", "paid"),
            make_override("invoice_number", "ignored on a row"),
        ],
    );
    assert_eq!(row.invoice_date, Some("2024-03-05".to_string()));
    assert_eq!(row.status, "paid".to_string());
    assert_eq!(row.total_amount, "19.50".to_string());
}

#[test]
fn duplicate_preserves_every_field() {
    let inv = base_invoice();
    let copy = inv.duplicate();
    assert_eq!(copy.id, inv.id);
    assert_eq!(copy.file_path, inv.file_path);
    assert_eq!(copy.total_amount, inv.total_amount);
    assert_eq!(copy.created_at, inv.created_at);
    assert!(matches!(copy.ingestion_status, IngestionStatus::Processed));
}

#[test]
fn stamps_have_the_promised_shapes() {
    assert!(!now_rfc3339().is_empty());
    let mut store = RecordStore::new();
    let first = match begin_processing_now(&mut store, "/in/a.pdf", "revenue", "h1", "m1") {
        ProcessPlan::Extract(p) => p,
        ProcessPlan::Unchanged(_) => panic!("first sighting must extract"),
    };
    let second = match begin_processing_now(&mut store, "/in/b.pdf", "revenue", "h2", "m2") {
        ProcessPlan::Extract(p) => p,
        ProcessPlan::Unchanged(_) => panic!("first sighting must extract"),
    };
    // identities are freshly generated hyphenated UUIDs, stamps real times
    assert_eq!(first.id.chars().count(), 36);
    assert_ne!(first.id, second.id);
    assert!(!first.created_at.is_empty());
}
