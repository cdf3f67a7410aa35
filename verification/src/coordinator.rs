//! The ingestion coordinator: watcher lifecycle and event dispatch.
//!
//! The coordinator owns the settings snapshot and the watcher set, converts
//! classified events into processing work, and publishes notifications to
//! observers. Restarting the watchers is the only way folder configuration
//! takes effect: the old set is always released before a fresh set is
//! planned from the current snapshot.

use vstd::prelude::*;

use crate::models::{IngestionStatus, Invoice, InvoiceModel};
use crate::processor::{mark_failed, spec_failed_log};
use crate::settings::Settings;
use crate::store::{
    spec_find_by_path, spec_mark_missing, spec_upsert, RecordStore,
};
use crate::watcher::{
    plan_watches, spec_plan_watches, FileEventKind, WatchModel, WatchSpec,
};

verus! {

/// Fire-and-forget notification to observers; delivery is not
/// acknowledged, and a dropped notification rolls nothing back.
pub enum Notification {
    /// A record was created or updated; carries the full record.
    RecordUpdated(Invoice),
    /// The file at the carried path vanished and its record was marked
    /// missing.
    RecordMissing(String),
    /// A processing pass failed; carries the error message.
    ProcessingError(String),
}

/// What the dispatch loop does with one stable event kind.
#[derive(Clone, Copy, PartialEq, Eq, Structural, Debug)]
pub enum DispatchAction {
    /// Handle synchronously: mark the record missing, notify observers.
    MarkMissing,
    /// Run the debounce filter and, if it passes, a processing task.
    Probe,
}

/// A deletion is handled synchronously and cheaply; everything else goes
/// through the debounce filter toward a processing task.
pub fn dispatch_event(kind: FileEventKind) -> (r: DispatchAction)
    ensures
        r == DispatchAction::MarkMissing <==> kind == FileEventKind::Deleted,
        r == DispatchAction::Probe <==> kind != FileEventKind::Deleted,
{
    match kind {
        FileEventKind::Deleted => DispatchAction::MarkMissing,
        _ => DispatchAction::Probe,
    }
}

/// Handles a deletion event: the matching record (if any) is marked
/// missing — never deleted — and observers learn the path. No extraction
/// work is performed.
pub fn handle_deleted_event(store: &mut RecordStore, path: &str, now: &str) -> (n: Notification)
    requires
        old(store).wf(),
    ensures
        final(store).wf(),
        final(store).records() == spec_mark_missing(old(store).records(), path@, now@),
        final(store).logs() == old(store).logs(),
        n matches Notification::RecordMissing(p) && p@ == path@,
{
    store.mark_invoice_missing(path, now);
    Notification::RecordMissing(path.to_owned())
}

/// Handles a failed processing pass: when a record for the path exists it
/// is marked failed and the failure is logged; when the very first
/// extraction attempt failed before any write, no failure record is
/// created. Either way observers get the error message.
pub fn handle_processing_failure(
    store: &mut RecordStore,
    path: &str,
    message: &str,
    now: &str,
) -> (n: Notification)
    requires
        old(store).wf(),
    ensures
        final(store).wf(),
        n matches Notification::ProcessingError(m) && m@ == message@,
        spec_find_by_path(old(store).records(), path@) is None ==> final(store).records() == old(
            store,
        ).records() && final(store).logs() == old(store).logs(),
        spec_find_by_path(old(store).records(), path@) matches Some(e) ==> {
            let failed = InvoiceModel {
                ingestion_status: IngestionStatus::Failed,
                updated_at: now@,
                ..e
            };
            final(store).records() == spec_upsert(old(store).records(), failed)
                && final(store).logs() == old(store).logs().push(
                spec_failed_log(failed, message@, now@),
            )
        },
{
    let found = store.get_invoice_by_path(path);
    match found {
        Some(mut inv) => {
            proof {
                crate::store::lemma_find_by_path(store.records(), path@);
            }
            let ghost failed = InvoiceModel {
                ingestion_status: IngestionStatus::Failed,
                updated_at: now@,
                ..inv@
            };
            proof {
                crate::processor::lemma_no_conflict_for_pending(store.records(), failed, path@);
            }
            match mark_failed(store, &mut inv, message, now) {
                Ok(()) => {},
                Err(_) => {
                    proof {
                        assert(false);
                    }
                },
            }
        },
        None => {},
    }
    Notification::ProcessingError(message.to_owned())
}

/// The watcher lifecycle: stopped, or running a planned set of watches.
/// There is no incremental add or remove of folders; a restart always
/// releases the old set before installing the set the current settings
/// call for.
pub struct WatcherLifecycle {
    active: Option<Vec<WatchSpec>>,
}

impl WatcherLifecycle {
    /// The currently installed watches, when running.
    pub closed spec fn watches(&self) -> Option<Seq<WatchModel>> {
        match self.active {
            Some(v) => Some(v@.map_values(|w: WatchSpec| w@)),
            None => None,
        }
    }

    pub open spec fn is_running(&self) -> bool {
        self.watches() is Some
    }

    /// A stopped lifecycle, holding no watches.
    pub fn new() -> (r: WatcherLifecycle)
        ensures
            !r.is_running(),
    {
        WatcherLifecycle { active: None }
    }

    /// Releases the installed watches.
    pub fn stop(&mut self)
        ensures
            !final(self).is_running(),
    {
        self.active = None;
    }

    /// Releases any installed watches, then installs the set planned from
    /// the settings snapshot and the folders' existence.
    pub fn restart_watchers(
        &mut self,
        settings: &Settings,
        revenue_exists: bool,
        payable_exists: bool,
    )
        ensures
            final(self).watches() == Some(
                spec_plan_watches(
                    settings@.revenue_folder,
                    revenue_exists,
                    settings@.payable_folder,
                    payable_exists,
                ),
            ),
    {
        self.active = None;
        let planned = plan_watches(
            &settings.revenue_folder,
            revenue_exists,
            &settings.payable_folder,
            payable_exists,
        );
        self.active = Some(planned);
    }

    /// Number of installed watches; zero when stopped.
    pub fn watch_count(&self) -> (r: usize)
        ensures
            r as int == match self.watches() {
                Some(ws) => ws.len() as int,
                None => 0,
            },
    {
        match &self.active {
            Some(v) => v.len(),
            None => 0,
        }
    }

    /// The `i`-th installed watch.
    pub fn watch_at(&self, i: usize) -> (r: WatchSpec)
        requires
            self.watches() is Some,
            i < self.watches()->Some_0.len(),
        ensures
            r@ == self.watches()->Some_0[i as int],
    {
        let v = match &self.active {
            Some(v) => v,
            None => {
                proof {
                    assert(false);
                }
                return WatchSpec { folder: String::new(), category: String::new() };
            },
        };
        WatchSpec { folder: v[i].folder.clone(), category: v[i].category.clone() }
    }
}

} // verus!
