//! Cross-operation laws of the ingestion core, stated and proved over the
//! models that the operations' own contracts use.

use vstd::prelude::*;

use crate::models::{IngestionStatus, InvoiceModel};
use crate::processor::{
    spec_pending_invoice, spec_processed_invoice, spec_unchanged_match,
};
use crate::store::{
    spec_find_by_path, spec_idx_of_id, spec_mark_missing, spec_mark_one, spec_path_conflict,
    spec_upsert, unique_records, lemma_find_by_path, lemma_idx_of_id,
};
use crate::watcher::spec_debounce_stable;
use crate::models::ExtractedDataModel;

verus! {

proof fn lemma_find_by_path_at(rs: Seq<InvoiceModel>, path: Seq<char>, k: int)
    requires
        0 <= k < rs.len(),
        rs[k].file_path == Some(path),
        forall|j: int| 0 <= j < k ==> rs[j].file_path != Some(path),
    ensures
        spec_find_by_path(rs, path) == Some(rs[k]),
    decreases k,
{
    if rs[0].file_path == Some(path) {
        assert(k == 0);
    } else {
        let t = rs.drop_first();
        assert forall|j: int| 0 <= j < k - 1 implies t[j].file_path != Some(path) by {
            assert(t[j] == rs[j + 1]);
        }
        assert(t[k - 1] == rs[k]);
        lemma_find_by_path_at(t, path, k - 1);
    }
}

/// After inserting or replacing a record that owns `path` — with no other
/// identity owning that path — looking the path up finds exactly that
/// record.
pub proof fn lemma_upsert_then_lookup(rs: Seq<InvoiceModel>, m: InvoiceModel, path: Seq<char>)
    requires
        unique_records(rs),
        m.file_path == Some(path),
        !spec_path_conflict(rs, m),
    ensures
        spec_find_by_path(spec_upsert(rs, m), path) == Some(m),
{
    let i = spec_idx_of_id(rs, m.id);
    lemma_idx_of_id(rs, m.id);
    assert forall|j: int| 0 <= j < rs.len() && rs[j].file_path == Some(path) implies rs[j].id
        == m.id by {
        if rs[j].id != m.id {
            assert(spec_path_conflict(rs, m));
        }
    }
    if i == -1 {
        let u = rs.push(m);
        assert forall|j: int| 0 <= j < rs.len() implies u[j].file_path != Some(path) by {
            assert(u[j] == rs[j]);
            if rs[j].file_path == Some(path) {
                assert(rs[j].id == m.id);
            }
        }
        assert(u[rs.len() as int] == m);
        lemma_find_by_path_at(u, path, rs.len() as int);
    } else {
        let u = rs.update(i, m);
        assert forall|j: int| 0 <= j < i implies u[j].file_path != Some(path) by {
            assert(u[j] == rs[j]);
            if rs[j].file_path == Some(path) {
                assert(rs[j].id == m.id);
                assert(rs[j].id == rs[i].id);
            }
        }
        assert(u[i] == m);
        lemma_find_by_path_at(u, path, i);
    }
}

/// Idempotence across a full pass: after a changed file is processed — the
/// `Pending` record written and then completed — the stored record for the
/// path carries exactly the fingerprint pair it was stamped with. A second
/// pass over the unchanged file therefore meets the short-circuit
/// condition, returns the stored record byte-identically, and owes no
/// extraction call and no write.
pub proof fn lemma_second_pass_short_circuits(
    rs: Seq<InvoiceModel>,
    path: Seq<char>,
    category: Seq<char>,
    hash: Seq<char>,
    mtime: Seq<char>,
    now: Seq<char>,
    id_if_new: Seq<char>,
    d: ExtractedDataModel,
    raw: Seq<char>,
    now2: Seq<char>,
)
    requires
        unique_records(rs),
    ensures
        ({
            let pending = spec_pending_invoice(
                spec_find_by_path(rs, path),
                id_if_new,
                category,
                path,
                hash,
                mtime,
                now,
            );
            let updated = spec_processed_invoice(pending, d, raw, now2);
            let stored = spec_upsert(rs, updated);
            spec_find_by_path(stored, path) == Some(updated) && spec_unchanged_match(
                spec_find_by_path(stored, path),
                hash,
                mtime,
            )
        }),
{
    let found = spec_find_by_path(rs, path);
    let pending = spec_pending_invoice(found, id_if_new, category, path, hash, mtime, now);
    let updated = spec_processed_invoice(pending, d, raw, now2);
    lemma_find_by_path(rs, path);
    assert(updated.file_path == Some(path));
    assert(updated.file_hash == hash);
    assert(updated.file_modified_at == mtime);
    crate::processor::lemma_no_conflict_for_pending(rs, updated, path);
    lemma_upsert_then_lookup(rs, updated, path);
}

/// Change detection: when a record for the path exists and the file's
/// content or modification time changed, the record written for
/// reprocessing keeps the existing identity, creation stamp, category and
/// business fields, while carrying the new fingerprint pair and status
/// `Pending`.
pub proof fn lemma_change_preserves_identity(
    rs: Seq<InvoiceModel>,
    e: InvoiceModel,
    path: Seq<char>,
    category: Seq<char>,
    hash: Seq<char>,
    mtime: Seq<char>,
    now: Seq<char>,
    id_if_new: Seq<char>,
)
    requires
        spec_find_by_path(rs, path) == Some(e),
    ensures
        ({
            let pending = spec_pending_invoice(
                spec_find_by_path(rs, path),
                id_if_new,
                category,
                path,
                hash,
                mtime,
                now,
            );
            pending.id == e.id && pending.created_at == e.created_at && pending.category
                == e.category && pending.invoice_number == e.invoice_number && pending.invoice_date
                == e.invoice_date && pending.due_date == e.due_date && pending.counterparty_name
                == e.counterparty_name && pending.total_amount == e.total_amount && pending.currency
                == e.currency && pending.status == e.status && pending.file_hash == hash
                && pending.file_modified_at == mtime && pending.ingestion_status
                == IngestionStatus::Pending && pending.updated_at == now
        }),
{
}

/// Debounce, growing file: three samples that pairwise disagree — as a
/// file written in growing chunks produces — never pass the filter, so no
/// "changed" event is dispatched from them.
pub proof fn lemma_debounce_growing(a: u64, b: u64, c: u64)
    requires
        a != b,
        b != c,
    ensures
        !spec_debounce_stable(Some(a), Some(b), Some(c)),
{
}

/// Debounce, stabilized file: once a sample repeats a nonzero size, the
/// filter passes — exactly one stable event results from a file that has
/// stopped growing.
pub proof fn lemma_debounce_stabilized(a: u64, b: u64)
    requires
        b > 0,
    ensures
        spec_debounce_stable(Some(a), Some(b), Some(b)),
{
}

/// Debounce, vanished file: a file that disappears during sampling never
/// passes the filter.
pub proof fn lemma_debounce_vanished(s2: Option<u64>, s3: Option<u64>)
    ensures
        !spec_debounce_stable(None, s2, s3),
        !spec_debounce_stable(s2, None, s3),
{
}

/// Deletion keeps the record: marking a path missing never changes the
/// number of records; the matching record keeps its identity, fingerprint
/// and business fields, only its status becomes `Missing` under a fresh
/// update stamp; and every other record is untouched.
pub proof fn lemma_deletion_keeps_record(
    rs: Seq<InvoiceModel>,
    path: Seq<char>,
    now: Seq<char>,
    k: int,
)
    requires
        unique_records(rs),
        0 <= k < rs.len(),
        rs[k].file_path == Some(path),
    ensures
        ({
            let u = spec_mark_missing(rs, path, now);
            u.len() == rs.len() && u[k] == (InvoiceModel {
                ingestion_status: IngestionStatus::Missing,
                updated_at: now,
                ..rs[k]
            }) && forall|j: int| 0 <= j < rs.len() && j != k ==> u[j] == rs[j]
        }),
{
    let u = spec_mark_missing(rs, path, now);
    assert(u[k] == spec_mark_one(rs[k], path, now));
    assert forall|j: int| 0 <= j < rs.len() && j != k implies u[j] == rs[j] by {
        assert(u[j] == spec_mark_one(rs[j], path, now));
        if rs[j].file_path == Some(path) {
            if j < k {
                assert(!(rs[j].file_path is Some && rs[j].file_path == rs[k].file_path));
            } else {
                assert(!(rs[k].file_path is Some && rs[k].file_path == rs[j].file_path));
            }
            assert(false);
        }
    }
}

} // verus!
