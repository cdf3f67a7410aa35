//! Processing orchestration.
//!
//! A processing pass over one file happens in two verified phases around the
//! unverifiable extraction work. [`begin_processing`] consults the store and
//! either short-circuits (the stored fingerprint pair is unchanged — nothing
//! is re-extracted or written) or persists an intermediate `Pending` record,
//! so that partial progress is observable and survives a crash.
//! [`complete_processing`] merges the extracted fields, stamps the record
//! `Processed` and persists it with a success log entry. A failure between
//! the phases is recorded by [`mark_failed`], called by the coordinating
//! caller so that it keeps the error text for reporting.

use vstd::prelude::*;

use crate::amounts::{format_decimal, spec_format_cents};
use crate::dates::{normalize_date, spec_normalize_date};
use crate::models::{
    ExtractedDataModel, ExtractedInvoiceData, IngestionStatus, Invoice, InvoiceModel,
};
use crate::store::{
    spec_find_by_path, spec_path_conflict, spec_upsert, LogModel, RecordStore, StoreError,
    lemma_find_by_path,
};
use crate::stamps::{new_record_id, now_rfc3339};
use crate::text::str_eq;

verus! {

/// The record created on the first sighting of a path: status `Pending`,
/// defaulted business fields, both time stamps set to `now`.
pub open spec fn spec_fresh_invoice(
    id: Seq<char>,
    category: Seq<char>,
    path: Seq<char>,
    hash: Seq<char>,
    mtime: Seq<char>,
    now: Seq<char>,
) -> InvoiceModel {
    InvoiceModel {
        id: id,
        category: category,
        file_path: Some(path),
        file_hash: hash,
        file_modified_at: mtime,
        ingestion_status: IngestionStatus::Pending,
        ocr_text: None,
        extracted_json: "{}"@,
        confidence_score: 0,
        invoice_number: None,
        invoice_date: None,
        due_date: None,
        counterparty_name: None,
        total_amount: "0.00"@,
        currency: "EUR"@,
        tax_amount: None,
        net_amount: None,
        status: "open"@,
        paid_at: None,
        created_at: now,
        updated_at: now,
    }
}

/// The intermediate record persisted before extraction: an existing record
/// keeps its identity and business fields; a first sighting starts fresh.
/// Either way the new fingerprint pair is stamped and the status is
/// `Pending`.
pub open spec fn spec_pending_invoice(
    existing: Option<InvoiceModel>,
    id_if_new: Seq<char>,
    category: Seq<char>,
    path: Seq<char>,
    hash: Seq<char>,
    mtime: Seq<char>,
    now: Seq<char>,
) -> InvoiceModel {
    match existing {
        Some(e) => InvoiceModel {
            file_path: Some(path),
            file_hash: hash,
            file_modified_at: mtime,
            ingestion_status: IngestionStatus::Pending,
            updated_at: now,
            ..e
        },
        None => spec_fresh_invoice(id_if_new, category, path, hash, mtime, now),
    }
}

/// The idempotent short-circuit condition: a record for the path exists and
/// both parts of its fingerprint pair are unchanged.
pub open spec fn spec_unchanged_match(
    existing: Option<InvoiceModel>,
    hash: Seq<char>,
    mtime: Seq<char>,
) -> bool {
    existing matches Some(e) && e.file_hash == hash && e.file_modified_at == mtime
}

/// Outcome of the first processing phase.
pub enum ProcessPlan {
    /// The stored record is untouched and returned as is; no extraction work
    /// is owed.
    Unchanged(Invoice),
    /// The contained `Pending` record was persisted; extraction work is owed
    /// and its result belongs to this record.
    Extract(Invoice),
}

fn fresh_invoice(
    id: &str,
    category: &str,
    path: &str,
    hash: &str,
    mtime: &str,
    now: &str,
) -> (r: Invoice)
    ensures
        r@ == spec_fresh_invoice(id@, category@, path@, hash@, mtime@, now@),
{
    Invoice {
        id: id.to_owned(),
        category: category.to_owned(),
        file_path: Some(path.to_owned()),
        file_hash: hash.to_owned(),
        file_modified_at: mtime.to_owned(),
        ingestion_status: IngestionStatus::Pending,
        ocr_text: None,
        extracted_json: "{}".to_owned(),
        confidence_score: 0,
        invoice_number: None,
        invoice_date: None,
        due_date: None,
        counterparty_name: None,
        total_amount: "0.00".to_owned(),
        currency: "EUR".to_owned(),
        tax_amount: None,
        net_amount: None,
        status: "open".to_owned(),
        paid_at: None,
        created_at: now.to_owned(),
        updated_at: now.to_owned(),
    }
}

/// First processing phase: change detection and the `Pending` write.
///
/// When the stored record for `path` carries the same fingerprint pair, the
/// store is left untouched and the stored record is returned unchanged.
/// Otherwise a `Pending` record — reusing the existing identity and business
/// fields, or fresh under `new_id` — is persisted and returned for the
/// extraction phase. The log is never written here.
pub fn begin_processing(
    store: &mut RecordStore,
    path: &str,
    category: &str,
    file_hash: &str,
    file_modified_at: &str,
    now: &str,
    new_id: &str,
) -> (r: ProcessPlan)
    requires
        old(store).wf(),
    ensures
        final(store).wf(),
        final(store).logs() == old(store).logs(),
        spec_unchanged_match(
            spec_find_by_path(old(store).records(), path@),
            file_hash@,
            file_modified_at@,
        ) ==> final(store).records() == old(store).records() && (r matches ProcessPlan::Unchanged(
            inv,
        ) && Some(inv@) == spec_find_by_path(old(store).records(), path@)),
        !spec_unchanged_match(
            spec_find_by_path(old(store).records(), path@),
            file_hash@,
            file_modified_at@,
        ) ==> (r matches ProcessPlan::Extract(inv) && inv@ == spec_pending_invoice(
            spec_find_by_path(old(store).records(), path@),
            new_id@,
            category@,
            path@,
            file_hash@,
            file_modified_at@,
            now@,
        ) && final(store).records() == spec_upsert(old(store).records(), inv@)),
{
    let ghost rs = store.records();
    let existing = store.get_invoice_by_path(path);

    if let Some(e) = &existing {
        if str_eq(e.file_hash.as_str(), file_hash) && str_eq(
            e.file_modified_at.as_str(),
            file_modified_at,
        ) {
            let kept = e.duplicate();
            return ProcessPlan::Unchanged(kept);
        }
    }

    let mut inv = match existing {
        Some(e) => e,
        None => fresh_invoice(new_id, category, path, file_hash, file_modified_at, now),
    };
    inv.file_hash = file_hash.to_owned();
    inv.file_modified_at = file_modified_at.to_owned();
    inv.file_path = Some(path.to_owned());
    inv.ingestion_status = IngestionStatus::Pending;
    inv.updated_at = now.to_owned();

    proof {
        assert(inv@ == spec_pending_invoice(
            spec_find_by_path(rs, path@),
            new_id@,
            category@,
            path@,
            file_hash@,
            file_modified_at@,
            now@,
        ));
        lemma_no_conflict_for_pending(rs, inv@, path@);
    }
    match store.upsert_invoice(&inv) {
        Ok(()) => {},
        Err(_) => {
            proof {
                assert(false);
            }
        },
    }
    ProcessPlan::Extract(inv)
}

/// The `Pending` record written by a processing pass can never collide with
/// another identity on its path: the record found by the path lookup is the
/// only owner of that path, and its identity is the one being reused.
pub proof fn lemma_no_conflict_for_pending(rs: Seq<InvoiceModel>, pending: InvoiceModel, path: Seq<char>)
    requires
        crate::store::unique_records(rs),
        pending.file_path == Some(path),
        match spec_find_by_path(rs, path) {
            Some(e) => pending.id == e.id,
            None => true,
        },
    ensures
        !spec_path_conflict(rs, pending),
{
    lemma_find_by_path(rs, path);
    if spec_path_conflict(rs, pending) {
        let k = choose|k: int|
            0 <= k < rs.len() && rs[k].id != pending.id && pending.file_path is Some
                && rs[k].file_path == pending.file_path;
        match spec_find_by_path(rs, path) {
            Some(e) => {
                let i = choose|i: int|
                    0 <= i < rs.len() && rs[i] == e && e.file_path == Some(path);
                assert(rs[k].file_path == Some(path));
                assert(k != i);
                if i < k {
                    assert(!(rs[i].file_path is Some && rs[i].file_path == rs[k].file_path));
                } else {
                    assert(!(rs[k].file_path is Some && rs[k].file_path == rs[i].file_path));
                }
                assert(false);
            },
            None => {
                assert(rs[k].file_path != Some(path));
                assert(false);
            },
        }
    }
}

/// First processing phase with the clock and the identity source drawn
/// here: the update stamp is the current time and a first sighting gets a
/// fresh random identity. Everything else is [`begin_processing`], whose
/// exact contract holds for the drawn values.
pub fn begin_processing_now(
    store: &mut RecordStore,
    path: &str,
    category: &str,
    file_hash: &str,
    file_modified_at: &str,
) -> (r: ProcessPlan)
    requires
        old(store).wf(),
    ensures
        final(store).wf(),
        final(store).logs() == old(store).logs(),
        spec_unchanged_match(
            spec_find_by_path(old(store).records(), path@),
            file_hash@,
            file_modified_at@,
        ) ==> final(store).records() == old(store).records() && (r matches ProcessPlan::Unchanged(
            inv,
        ) && Some(inv@) == spec_find_by_path(old(store).records(), path@)),
        !spec_unchanged_match(
            spec_find_by_path(old(store).records(), path@),
            file_hash@,
            file_modified_at@,
        ) ==> (r matches ProcessPlan::Extract(inv) && final(store).records() == spec_upsert(
            old(store).records(),
            inv@,
        ) && exists|now: Seq<char>, id: Seq<char>|
            inv@ == spec_pending_invoice(
                spec_find_by_path(old(store).records(), path@),
                id,
                category@,
                path@,
                file_hash@,
                file_modified_at@,
                now,
            )),
{
    let now = now_rfc3339();
    let new_id = new_record_id();
    let r = begin_processing(
        store,
        path,
        category,
        file_hash,
        file_modified_at,
        now.as_str(),
        new_id.as_str(),
    );
    proof {
        let found = spec_find_by_path(old(store).records(), path@);
        if !spec_unchanged_match(found, file_hash@, file_modified_at@) {
            match &r {
                ProcessPlan::Extract(inv) => {
                    assert(inv@ == spec_pending_invoice(
                        found,
                        new_id@,
                        category@,
                        path@,
                        file_hash@,
                        file_modified_at@,
                        now@,
                    ));
                },
                ProcessPlan::Unchanged(_) => {},
            }
        }
    }
    r
}

/// The merge of one extraction result into a record: dates are normalized
/// leniently, amounts take fixed two-decimal form, a missing currency keeps
/// the record's currency, and a missing confidence score falls back to the
/// midpoint.
pub open spec fn spec_apply_extracted(
    inv: InvoiceModel,
    d: ExtractedDataModel,
    raw: Seq<char>,
) -> InvoiceModel {
    InvoiceModel {
        extracted_json: raw,
        invoice_number: d.invoice_number,
        invoice_date: spec_normalize_date(d.invoice_date),
        due_date: spec_normalize_date(d.due_date),
        counterparty_name: d.counterparty_name,
        total_amount: match d.total_amount {
            Some(t) => spec_format_cents(t as int),
            None => inv.total_amount,
        },
        currency: match d.currency {
            Some(c) => c,
            None => inv.currency,
        },
        tax_amount: match d.tax_amount {
            Some(t) => Some(spec_format_cents(t as int)),
            None => None,
        },
        net_amount: match d.net_amount {
            Some(t) => Some(spec_format_cents(t as int)),
            None => None,
        },
        confidence_score: match d.confidence_score {
            Some(c) => c,
            None => 50,
        },
        ..inv
    }
}

/// Merges one extraction result into the record, as
/// [`spec_apply_extracted`] states.
pub fn apply_extracted(invoice: &mut Invoice, data: ExtractedInvoiceData, raw_json: String)
    requires
        data.total_amount matches Some(t) ==> t > i64::MIN,
        data.tax_amount matches Some(t) ==> t > i64::MIN,
        data.net_amount matches Some(t) ==> t > i64::MIN,
    ensures
        final(invoice)@ == spec_apply_extracted(old(invoice)@, data@, raw_json@),
{
    invoice.extracted_json = raw_json;
    invoice.invoice_number = data.invoice_number;
    invoice.invoice_date = normalize_date(data.invoice_date);
    invoice.due_date = normalize_date(data.due_date);
    invoice.counterparty_name = data.counterparty_name;
    if let Some(total) = data.total_amount {
        invoice.total_amount = format_decimal(total);
    }
    if let Some(currency) = data.currency {
        invoice.currency = currency;
    }
    invoice.tax_amount = match data.tax_amount {
        Some(t) => Some(format_decimal(t)),
        None => None,
    };
    invoice.net_amount = match data.net_amount {
        Some(t) => Some(format_decimal(t)),
        None => None,
    };
    invoice.confidence_score = match data.confidence_score {
        Some(c) => c,
        None => 50,
    };
}

/// The terminal record of a successful pass: the merged fields, status
/// `Processed`, update time stamped.
pub open spec fn spec_processed_invoice(
    pending: InvoiceModel,
    d: ExtractedDataModel,
    raw: Seq<char>,
    now: Seq<char>,
) -> InvoiceModel {
    InvoiceModel {
        ingestion_status: IngestionStatus::Processed,
        updated_at: now,
        ..spec_apply_extracted(pending, d, raw)
    }
}

/// The success log entry appended for a processed record.
pub open spec fn spec_success_log(m: InvoiceModel, now: Seq<char>) -> LogModel {
    LogModel {
        invoice_id: Some(m.id),
        file_hash: Some(m.file_hash),
        process_type: "process"@,
        status: "success"@,
        message: None,
        created_at: now,
    }
}

/// Second processing phase: merges the extraction result into the `Pending`
/// record, stamps it `Processed`, persists it and appends a success log
/// entry. Fails, changing nothing, only on a path conflict in the store.
pub fn complete_processing(
    store: &mut RecordStore,
    pending: Invoice,
    data: ExtractedInvoiceData,
    raw_json: String,
    now: &str,
) -> (r: Result<Invoice, StoreError>)
    requires
        old(store).wf(),
        data.total_amount matches Some(t) ==> t > i64::MIN,
        data.tax_amount matches Some(t) ==> t > i64::MIN,
        data.net_amount matches Some(t) ==> t > i64::MIN,
    ensures
        final(store).wf(),
        r is Ok <==> !spec_path_conflict(
            old(store).records(),
            spec_processed_invoice(pending@, data@, raw_json@, now@),
        ),
        r matches Ok(out) ==> {
            let updated = spec_processed_invoice(pending@, data@, raw_json@, now@);
            out@ == updated && final(store).records() == spec_upsert(old(store).records(), updated)
                && final(store).logs() == old(store).logs().push(spec_success_log(updated, now@))
        },
        r is Err ==> final(store).records() == old(store).records() && final(store).logs() == old(
            store,
        ).logs(),
{
    let mut inv = pending;
    apply_extracted(&mut inv, data, raw_json);
    inv.ingestion_status = IngestionStatus::Processed;
    inv.updated_at = now.to_owned();

    match store.upsert_invoice(&inv) {
        Ok(()) => {},
        Err(e) => {
            return Err(e);
        },
    }
    store.log_processing(
        Some(inv.id.as_str()),
        Some(inv.file_hash.as_str()),
        "process",
        "success",
        None,
        now,
    );
    Ok(inv)
}

/// The failure log entry appended for a failed record.
pub open spec fn spec_failed_log(m: InvoiceModel, message: Seq<char>, now: Seq<char>) -> LogModel {
    LogModel {
        invoice_id: Some(m.id),
        file_hash: Some(m.file_hash),
        process_type: "process"@,
        status: "failed"@,
        message: Some(message),
        created_at: now,
    }
}

/// Marks a record as failed: status `Failed`, update time stamped, record
/// persisted, failure log entry appended with the message. Called by the
/// coordinating caller after an extraction or credential failure, so that
/// failure history survives restarts.
pub fn mark_failed(
    store: &mut RecordStore,
    invoice: &mut Invoice,
    message: &str,
    now: &str,
) -> (r: Result<(), StoreError>)
    requires
        old(store).wf(),
    ensures
        final(store).wf(),
        final(invoice)@ == (InvoiceModel {
            ingestion_status: IngestionStatus::Failed,
            updated_at: now@,
            ..old(invoice)@
        }),
        r is Ok <==> !spec_path_conflict(old(store).records(), final(invoice)@),
        r matches Ok(_) ==> final(store).records() == spec_upsert(
            old(store).records(),
            final(invoice)@,
        ) && final(store).logs() == old(store).logs().push(
            spec_failed_log(final(invoice)@, message@, now@),
        ),
        r is Err ==> final(store).records() == old(store).records() && final(store).logs() == old(
            store,
        ).logs(),
{
    invoice.ingestion_status = IngestionStatus::Failed;
    invoice.updated_at = now.to_owned();
    match store.upsert_invoice(invoice) {
        Ok(()) => {},
        Err(e) => {
            return Err(e);
        },
    }
    store.log_processing(
        Some(invoice.id.as_str()),
        Some(invoice.file_hash.as_str()),
        "process",
        "failed",
        Some(message),
        now,
    );
    Ok(())
}

} // verus!
