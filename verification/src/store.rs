//! The record store: keyed storage for invoice records and an append-only
//! processing log.
//!
//! This is the in-memory reference store of the core. Identities are unique,
//! and at most one record owns any given source path; both facts are part of
//! the store's well-formedness and are preserved by every operation. A
//! durable mirror (for instance an embedded database) is the host
//! application's concern; it replays exactly the operations of this
//! interface.

use vstd::prelude::*;

use crate::models::{IngestionStatus, Invoice, InvoiceModel};
use crate::text::str_eq;

verus! {

/// View of one processing-log entry.
pub struct LogModel {
    pub invoice_id: Option<Seq<char>>,
    pub file_hash: Option<Seq<char>>,
    pub process_type: Seq<char>,
    pub status: Seq<char>,
    pub message: Option<Seq<char>>,
    pub created_at: Seq<char>,
}

/// One append-only processing-log entry.
pub struct LogEntry {
    pub invoice_id: Option<String>,
    pub file_hash: Option<String>,
    pub process_type: String,
    pub status: String,
    pub message: Option<String>,
    pub created_at: String,
}

impl View for LogEntry {
    type V = LogModel;

    open spec fn view(&self) -> LogModel {
        LogModel {
            invoice_id: crate::models::opt_str_view(self.invoice_id),
            file_hash: crate::models::opt_str_view(self.file_hash),
            process_type: self.process_type@,
            status: self.status@,
            message: crate::models::opt_str_view(self.message),
            created_at: self.created_at@,
        }
    }
}

impl LogEntry {
    /// A copy whose view equals this entry's view.
    pub fn duplicate(&self) -> (r: LogEntry)
        ensures
            r@ == self@,
    {
        LogEntry {
            invoice_id: crate::models::dup_opt_string(&self.invoice_id),
            file_hash: crate::models::dup_opt_string(&self.file_hash),
            process_type: self.process_type.clone(),
            status: self.status.clone(),
            message: crate::models::dup_opt_string(&self.message),
            created_at: self.created_at.clone(),
        }
    }
}

/// View of an optional borrowed string.
pub open spec fn opt_ref_view(o: Option<&str>) -> Option<Seq<char>> {
    match o {
        Some(s) => Some(s@),
        None => None,
    }
}

/// Store failure: the record would take a source path that another identity
/// already owns. This mirrors a unique-index violation of a durable backend.
#[derive(Clone, Copy, PartialEq, Eq, Structural, Debug)]
pub enum StoreError {
    PathConflict,
}

impl StoreError {
    /// Human-readable description of the failure.
    pub fn message(&self) -> (r: String)
        ensures
            r@ == "record path is owned by another record"@,
    {
        "record path is owned by another record".to_owned()
    }
}

/// First record whose source path equals `path`.
pub open spec fn spec_find_by_path(rs: Seq<InvoiceModel>, path: Seq<char>) -> Option<InvoiceModel>
    decreases rs.len(),
{
    if rs.len() == 0 {
        None
    } else if rs[0].file_path == Some(path) {
        Some(rs[0])
    } else {
        spec_find_by_path(rs.drop_first(), path)
    }
}

/// First record whose identity equals `id`.
pub open spec fn spec_find_by_id(rs: Seq<InvoiceModel>, id: Seq<char>) -> Option<InvoiceModel>
    decreases rs.len(),
{
    if rs.len() == 0 {
        None
    } else if rs[0].id == id {
        Some(rs[0])
    } else {
        spec_find_by_id(rs.drop_first(), id)
    }
}

/// Index of the first record with identity `id`, or `-1`.
pub open spec fn spec_idx_of_id(rs: Seq<InvoiceModel>, id: Seq<char>) -> int
    decreases rs.len(),
{
    if rs.len() == 0 {
        -1
    } else if rs[0].id == id {
        0
    } else {
        let t = spec_idx_of_id(rs.drop_first(), id);
        if t == -1 {
            -1
        } else {
            1 + t
        }
    }
}

/// Insert-or-replace keyed by identity.
pub open spec fn spec_upsert(rs: Seq<InvoiceModel>, m: InvoiceModel) -> Seq<InvoiceModel> {
    let i = spec_idx_of_id(rs, m.id);
    if i == -1 {
        rs.push(m)
    } else {
        rs.update(i, m)
    }
}

/// Some other identity already owns the record's source path.
pub open spec fn spec_path_conflict(rs: Seq<InvoiceModel>, m: InvoiceModel) -> bool {
    exists|i: int|
        0 <= i < rs.len() && rs[i].id != m.id && m.file_path is Some && rs[i].file_path
            == m.file_path
}

/// A record matching `path` gets status `Missing` and a fresh update stamp;
/// everything else about it, and every other record, is untouched.
pub open spec fn spec_mark_one(m: InvoiceModel, path: Seq<char>, now: Seq<char>) -> InvoiceModel {
    if m.file_path == Some(path) {
        InvoiceModel { ingestion_status: IngestionStatus::Missing, updated_at: now, ..m }
    } else {
        m
    }
}

pub open spec fn spec_mark_missing(rs: Seq<InvoiceModel>, path: Seq<char>, now: Seq<char>) -> Seq<
    InvoiceModel,
> {
    Seq::new(rs.len(), |i: int| spec_mark_one(rs[i], path, now))
}

/// Identities are pairwise distinct and no two records own the same path.
pub open spec fn unique_records(rs: Seq<InvoiceModel>) -> bool {
    (forall|i: int, j: int| 0 <= i < j < rs.len() ==> rs[i].id != rs[j].id) && (forall|
        i: int,
        j: int,
    |
        0 <= i < j < rs.len() ==> !(rs[i].file_path is Some && rs[i].file_path
            == rs[j].file_path))
}

pub proof fn lemma_idx_of_id(rs: Seq<InvoiceModel>, id: Seq<char>)
    ensures
        spec_idx_of_id(rs, id) == -1 ==> forall|i: int| 0 <= i < rs.len() ==> rs[i].id != id,
        spec_idx_of_id(rs, id) != -1 ==> 0 <= spec_idx_of_id(rs, id) < rs.len() && rs[spec_idx_of_id(
            rs,
            id,
        )].id == id,
    decreases rs.len(),
{
    if rs.len() > 0 && !(rs[0].id == id) {
        lemma_idx_of_id(rs.drop_first(), id);
        assert forall|i: int| 1 <= i < rs.len() implies rs.drop_first()[i - 1] == rs[i] by {}
    }
}

pub proof fn lemma_find_by_path(rs: Seq<InvoiceModel>, path: Seq<char>)
    ensures
        spec_find_by_path(rs, path) is None ==> forall|i: int|
            0 <= i < rs.len() ==> rs[i].file_path != Some(path),
        spec_find_by_path(rs, path) matches Some(m) ==> exists|i: int|
            0 <= i < rs.len() && rs[i] == m && m.file_path == Some(path),
    decreases rs.len(),
{
    if rs.len() > 0 {
        if rs[0].file_path == Some(path) {
        } else {
            lemma_find_by_path(rs.drop_first(), path);
            assert forall|i: int| 1 <= i < rs.len() implies rs.drop_first()[i - 1] == rs[i] by {}
            match spec_find_by_path(rs, path) {
                Some(m) => {
                    let i = choose|i: int|
                        0 <= i < rs.drop_first().len() && rs.drop_first()[i] == m && m.file_path
                            == Some(path);
                    assert(rs[i + 1] == m);
                },
                None => {},
            }
        }
    }
}

/// Keyed storage for invoice records plus the append-only processing log.
pub struct RecordStore {
    records: Vec<Invoice>,
    logs: Vec<LogEntry>,
}

impl RecordStore {
    /// The stored records, as their views, in insertion order.
    pub closed spec fn records(&self) -> Seq<InvoiceModel> {
        self.records@.map_values(|r: Invoice| r@)
    }

    /// The processing log, oldest first.
    pub closed spec fn logs(&self) -> Seq<LogModel> {
        self.logs@.map_values(|l: LogEntry| l@)
    }

    /// Store well-formedness: identities and owned paths are unique.
    pub open spec fn wf(&self) -> bool {
        unique_records(self.records())
    }

    /// An empty store.
    pub fn new() -> (r: RecordStore)
        ensures
            r.records() == Seq::<InvoiceModel>::empty(),
            r.logs() == Seq::<LogModel>::empty(),
            r.wf(),
    {
        let r = RecordStore { records: Vec::new(), logs: Vec::new() };
        proof {
            assert(r.records() =~= Seq::<InvoiceModel>::empty());
            assert(r.logs() =~= Seq::<LogModel>::empty());
        }
        r
    }

    /// Number of stored records.
    pub fn record_count(&self) -> (r: usize)
        ensures
            r == self.records().len(),
    {
        self.records.len()
    }

    /// Number of log entries.
    pub fn log_count(&self) -> (r: usize)
        ensures
            r == self.logs().len(),
    {
        self.logs.len()
    }

    /// The `i`-th log entry, oldest first.
    pub fn log_at(&self, i: usize) -> (r: LogEntry)
        requires
            i < self.logs().len(),
        ensures
            r@ == self.logs()[i as int],
    {
        self.logs[i].duplicate()
    }

    /// The `i`-th record, in insertion order.
    pub fn record_at(&self, i: usize) -> (r: Invoice)
        requires
            i < self.records().len(),
        ensures
            r@ == self.records()[i as int],
    {
        self.records[i].duplicate()
    }

    /// Looks a record up by its source path.
    pub fn get_invoice_by_path(&self, path: &str) -> (r: Option<Invoice>)
        ensures
            match r {
                Some(inv) => spec_find_by_path(self.records(), path@) == Some(inv@),
                None => spec_find_by_path(self.records(), path@) is None,
            },
    {
        let models = Ghost(self.records());
        proof {
            assert(models@.skip(0) =~= models@);
        }
        let n = self.records.len();
        let mut i: usize = 0;
        while i < n
            invariant
                0 <= i <= n,
                n == self.records.len(),
                models@ == self.records(),
                spec_find_by_path(models@, path@) == spec_find_by_path(
                    models@.skip(i as int),
                    path@,
                ),
            decreases n - i,
        {
            let matched = match &self.records[i].file_path {
                Some(p) => str_eq(p.as_str(), path),
                None => false,
            };
            proof {
                assert(models@.skip(i as int)[0] == models@[i as int]);
            }
            if matched {
                return Some(self.records[i].duplicate());
            }
            proof {
                assert(models@.skip(i as int).drop_first() =~= models@.skip(i + 1));
            }
            i = i + 1;
        }
        proof {
            assert(models@.skip(n as int) =~= Seq::<InvoiceModel>::empty());
        }
        None
    }

    /// Looks a record up by its identity.
    pub fn get_invoice_by_id(&self, id: &str) -> (r: Option<Invoice>)
        ensures
            match r {
                Some(inv) => spec_find_by_id(self.records(), id@) == Some(inv@),
                None => spec_find_by_id(self.records(), id@) is None,
            },
    {
        let models = Ghost(self.records());
        proof {
            assert(models@.skip(0) =~= models@);
        }
        let n = self.records.len();
        let mut i: usize = 0;
        while i < n
            invariant
                0 <= i <= n,
                n == self.records.len(),
                models@ == self.records(),
                spec_find_by_id(models@, id@) == spec_find_by_id(models@.skip(i as int), id@),
            decreases n - i,
        {
            proof {
                assert(models@.skip(i as int)[0] == models@[i as int]);
            }
            if str_eq(self.records[i].id.as_str(), id) {
                return Some(self.records[i].duplicate());
            }
            proof {
                assert(models@.skip(i as int).drop_first() =~= models@.skip(i + 1));
            }
            i = i + 1;
        }
        proof {
            assert(models@.skip(n as int) =~= Seq::<InvoiceModel>::empty());
        }
        None
    }

    /// True when another identity already owns the record's source path.
    fn has_path_conflict(&self, inv: &Invoice) -> (r: bool)
        ensures
            r == spec_path_conflict(self.records(), inv@),
    {
        let models = Ghost(self.records());
        let new_path = match &inv.file_path {
            Some(p) => p,
            None => {
                return false;
            },
        };
        let n = self.records.len();
        let mut i: usize = 0;
        while i < n
            invariant
                0 <= i <= n,
                n == self.records.len(),
                models@ == self.records(),
                inv@.file_path == Some(new_path@),
                forall|k: int|
                    0 <= k < i ==> !(models@[k].id != inv@.id && models@[k].file_path == Some(
                        new_path@,
                    )),
            decreases n - i,
        {
            proof {
                assert(models@[i as int] == self.records@[i as int]@);
            }
            let same_path = match &self.records[i].file_path {
                Some(p) => str_eq(p.as_str(), new_path.as_str()),
                None => false,
            };
            if same_path && !str_eq(self.records[i].id.as_str(), inv.id.as_str()) {
                proof {
                    assert(models@[i as int].file_path == Some(new_path@));
                    assert(models@[i as int].id != inv@.id);
                    assert(spec_path_conflict(models@, inv@));
                }
                return true;
            }
            i = i + 1;
        }
        false
    }

    /// Position of the record sharing the identity, if any.
    fn position_of_id(&self, id: &str) -> (r: Option<usize>)
        ensures
            match r {
                Some(i) => i < self.records().len() && spec_idx_of_id(self.records(), id@)
                    == i as int,
                None => spec_idx_of_id(self.records(), id@) == -1,
            },
    {
        let models = Ghost(self.records());
        let n = self.records.len();
        let mut idx: usize = 0;
        while idx < n
            invariant
                0 <= idx <= n,
                n == self.records.len(),
                models@ == self.records(),
                forall|k: int| 0 <= k < idx ==> models@[k].id != id@,
            decreases n - idx,
        {
            proof {
                assert(models@[idx as int] == self.records@[idx as int]@);
            }
            if str_eq(self.records[idx].id.as_str(), id) {
                proof {
                    lemma_idx_of_id_first(models@, id@, idx as int);
                }
                return Some(idx);
            }
            idx = idx + 1;
        }
        proof {
            lemma_idx_of_id_first(models@, id@, models@.len() as int);
        }
        None
    }

    /// Inserts the record, or replaces the record that shares its identity.
    /// Fails, changing nothing, exactly when another identity already owns
    /// the record's source path.
    pub fn upsert_invoice(&mut self, inv: &Invoice) -> (r: Result<(), StoreError>)
        requires
            old(self).wf(),
        ensures
            final(self).wf(),
            final(self).logs() == old(self).logs(),
            r is Ok <==> !spec_path_conflict(old(self).records(), inv@),
            r is Ok ==> final(self).records() == spec_upsert(old(self).records(), inv@),
            r is Err ==> final(self).records() == old(self).records(),
    {
        let models = Ghost(self.records());
        if self.has_path_conflict(inv) {
            return Err(StoreError::PathConflict);
        }
        match self.position_of_id(inv.id.as_str()) {
            Some(idx) => {
                proof {
                    lemma_idx_of_id(models@, inv@.id);
                }
                self.records.set(idx, inv.duplicate());
                proof {
                    assert(self.records() =~= spec_upsert(models@, inv@));
                    lemma_upsert_wf_replace(models@, inv@, idx as int);
                }
            },
            None => {
                proof {
                    lemma_idx_of_id(models@, inv@.id);
                }
                self.records.push(inv.duplicate());
                proof {
                    assert(self.records() =~= models@.push(inv@));
                    lemma_upsert_wf_push(models@, inv@);
                }
            },
        }
        Ok(())
    }

    /// Marks the record owning `path` as missing, stamping the update time.
    /// The record itself stays stored; nothing is deleted.
    pub fn mark_invoice_missing(&mut self, path: &str, now: &str)
        requires
            old(self).wf(),
        ensures
            final(self).wf(),
            final(self).logs() == old(self).logs(),
            final(self).records() == spec_mark_missing(old(self).records(), path@, now@),
    {
        let models = Ghost(self.records());
        let n = self.records.len();
        let mut out: Vec<Invoice> = Vec::new();
        let mut i: usize = 0;
        while i < n
            invariant
                0 <= i <= n,
                n == self.records.len(),
                models@ == self.records(),
                out@.len() == i,
                forall|k: int| 0 <= k < i ==> #[trigger] out@[k]@ == spec_mark_one(
                    models@[k],
                    path@,
                    now@,
                ),
            decreases n - i,
        {
            proof {
                assert(models@[i as int] == self.records@[i as int]@);
            }
            let matched = match &self.records[i].file_path {
                Some(p) => str_eq(p.as_str(), path),
                None => false,
            };
            let mut upd = self.records[i].duplicate();
            if matched {
                upd.ingestion_status = IngestionStatus::Missing;
                upd.updated_at = now.to_owned();
            }
            proof {
                assert(upd@ == spec_mark_one(models@[i as int], path@, now@));
            }
            out.push(upd);
            i = i + 1;
        }
        self.records = out;
        proof {
            assert(self.records() =~= spec_mark_missing(models@, path@, now@));
            assert forall|a: int, b: int|
                0 <= a < b < self.records().len() implies self.records()[a].id
                != self.records()[b].id && !(self.records()[a].file_path is Some
                && self.records()[a].file_path == self.records()[b].file_path) by {
                assert(self.records()[a] == spec_mark_one(models@[a], path@, now@));
                assert(self.records()[b] == spec_mark_one(models@[b], path@, now@));
                assert(self.records()[a].id == models@[a].id);
                assert(self.records()[b].id == models@[b].id);
                assert(self.records()[a].file_path == models@[a].file_path);
                assert(self.records()[b].file_path == models@[b].file_path);
            }
        }
    }

    /// Appends one processing-log entry.
    pub fn log_processing(
        &mut self,
        invoice_id: Option<&str>,
        file_hash: Option<&str>,
        process_type: &str,
        status: &str,
        message: Option<&str>,
        created_at: &str,
    )
        ensures
            final(self).records() == old(self).records(),
            final(self).logs() == old(self).logs().push(
                LogModel {
                    invoice_id: opt_ref_view(invoice_id),
                    file_hash: opt_ref_view(file_hash),
                    process_type: process_type@,
                    status: status@,
                    message: opt_ref_view(message),
                    created_at: created_at@,
                },
            ),
            final(self).wf() == old(self).wf(),
    {
        let entry = LogEntry {
            invoice_id: match invoice_id {
                Some(s) => Some(s.to_owned()),
                None => None,
            },
            file_hash: match file_hash {
                Some(s) => Some(s.to_owned()),
                None => None,
            },
            process_type: process_type.to_owned(),
            status: status.to_owned(),
            message: match message {
                Some(s) => Some(s.to_owned()),
                None => None,
            },
            created_at: created_at.to_owned(),
        };
        self.logs.push(entry);
        proof {
            assert(final(self).logs() =~= old(self).logs().push(
                LogModel {
                    invoice_id: opt_ref_view(invoice_id),
                    file_hash: opt_ref_view(file_hash),
                    process_type: process_type@,
                    status: status@,
                    message: opt_ref_view(message),
                    created_at: created_at@,
                },
            ));
        }
    }
}

proof fn lemma_idx_of_id_first(rs: Seq<InvoiceModel>, id: Seq<char>, k: int)
    requires
        0 <= k <= rs.len(),
        forall|i: int| 0 <= i < k ==> rs[i].id != id,
        k < rs.len() ==> rs[k].id == id,
    ensures
        spec_idx_of_id(rs, id) == if k < rs.len() {
            k
        } else {
            -1
        },
    decreases rs.len(),
{
    if rs.len() > 0 {
        if rs[0].id == id {
        } else {
            assert(k > 0);
            let t = rs.drop_first();
            assert forall|i: int| 0 <= i < k - 1 implies t[i].id != id by {
                assert(t[i] == rs[i + 1]);
            }
            assert(k - 1 < t.len() ==> t[k - 1].id == id);
            lemma_idx_of_id_first(t, id, k - 1);
        }
    }
}

proof fn lemma_upsert_wf_replace(rs: Seq<InvoiceModel>, m: InvoiceModel, idx: int)
    requires
        unique_records(rs),
        0 <= idx < rs.len(),
        rs[idx].id == m.id,
        !spec_path_conflict(rs, m),
    ensures
        unique_records(rs.update(idx, m)),
{
    let u = rs.update(idx, m);
    assert forall|i: int, j: int| 0 <= i < j < u.len() implies u[i].id != u[j].id && !(u[i].file_path
        is Some && u[i].file_path == u[j].file_path) by {
        if i != idx && j != idx {
            assert(u[i] == rs[i] && u[j] == rs[j]);
        } else if i == idx {
            assert(u[i].id == rs[idx].id && u[j] == rs[j]);
            if u[i].file_path is Some && u[i].file_path == u[j].file_path {
                assert(rs[j].id != rs[idx].id);
                assert(spec_path_conflict(rs, m));
            }
        } else {
            assert(u[j].id == rs[idx].id && u[i] == rs[i]);
            if u[i].file_path is Some && u[i].file_path == u[j].file_path {
                assert(rs[i].id != rs[idx].id);
                assert(spec_path_conflict(rs, m));
            }
        }
    }
}

proof fn lemma_upsert_wf_push(rs: Seq<InvoiceModel>, m: InvoiceModel)
    requires
        unique_records(rs),
        forall|i: int| 0 <= i < rs.len() ==> rs[i].id != m.id,
        !spec_path_conflict(rs, m),
    ensures
        unique_records(rs.push(m)),
{
    let u = rs.push(m);
    assert forall|i: int, j: int| 0 <= i < j < u.len() implies u[i].id != u[j].id && !(u[i].file_path
        is Some && u[i].file_path == u[j].file_path) by {
        if j < rs.len() {
            assert(u[i] == rs[i] && u[j] == rs[j]);
        } else {
            assert(u[j] == m && u[i] == rs[i]);
            if u[i].file_path is Some && u[i].file_path == u[j].file_path {
                assert(spec_path_conflict(rs, m));
            }
        }
    }
}

} // verus!
