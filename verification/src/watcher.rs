//! Folder watching: event classification, the `.pdf` filter, watch planning
//! and the write-debounce filter.
//!
//! The native filesystem observer itself is host-side; it hands raw event
//! kinds and paths to [`classify_event`]. Only single-level watches over the
//! configured folders are planned, and only for folders that exist.

use vstd::prelude::*;


verus! {

/// Kind of a surfaced file event: creation and content modification both
/// mean "changed" work; removal is handled separately.
#[derive(Clone, Copy, PartialEq, Eq, Structural, Debug)]
pub enum FileEventKind {
    Created,
    Modified,
    Deleted,
}

/// An ephemeral, classified filesystem event. Not persisted.
pub struct FileEvent {
    pub path: String,
    pub category: String,
    pub kind: FileEventKind,
}

/// Raw observer event kinds, as the native notification backend reports
/// them. Anything that is not a creation, modification or removal is noise.
#[derive(Clone, Copy, PartialEq, Eq, Structural, Debug)]
pub enum RawEventKind {
    Create,
    Modify,
    Remove,
    Other,
}

/// Index of the last occurrence of `c`, or `-1`.
pub open spec fn spec_last_index_of(s: Seq<char>, c: char) -> int
    decreases s.len(),
{
    if s.len() == 0 {
        -1
    } else if s.last() == c {
        s.len() - 1
    } else {
        spec_last_index_of(s.drop_last(), c)
    }
}

pub proof fn lemma_last_index_of(s: Seq<char>, c: char)
    ensures
        spec_last_index_of(s, c) == -1 ==> forall|j: int| 0 <= j < s.len() ==> s[j] != c,
        spec_last_index_of(s, c) != -1 ==> {
            let i = spec_last_index_of(s, c);
            0 <= i < s.len() && s[i] == c && forall|j: int| i < j < s.len() ==> s[j] != c
        },
    decreases s.len(),
{
    if s.len() > 0 && s.last() != c {
        lemma_last_index_of(s.drop_last(), c);
        assert forall|j: int| 0 <= j < s.len() - 1 implies s.drop_last()[j] == s[j] by {}
    }
}

/// The three characters of a `.pdf` extension, case-insensitively.
pub open spec fn spec_pdf_chars(e: Seq<char>) -> bool {
    e.len() == 3 && (e[0] == 'p' || e[0] == 'P') && (e[1] == 'd' || e[1] == 'D') && (e[2] == 'f'
        || e[2] == 'F')
}

/// The path names a file whose extension is `.pdf`, case-insensitively: the
/// file name (after the last `/`) has a last dot that is neither its first
/// nor its last character, and what follows it reads `pdf`.
pub open spec fn spec_is_pdf(s: Seq<char>) -> bool {
    let name = s.skip(spec_last_index_of(s, '/') + 1);
    let dot = spec_last_index_of(name, '.');
    dot > 0 && spec_pdf_chars(name.skip(dot + 1))
}

fn last_index_of(s: &str, c: char) -> (r: Option<usize>)
    ensures
        match r {
            Some(i) => i < s@.len() && spec_last_index_of(s@, c) == i as int,
            None => spec_last_index_of(s@, c) == -1,
        },
{
    let n = s.unicode_len();
    let mut i: usize = n;
    while i > 0
        invariant
            0 <= i <= n,
            n == s@.len(),
            forall|j: int| i <= j < n ==> s@[j] != c,
        decreases i,
    {
        i = i - 1;
        if s.get_char(i) == c {
            proof {
                lemma_last_index_of(s@, c);
                if spec_last_index_of(s@, c) == -1 {
                    assert(false);
                }
                let k = spec_last_index_of(s@, c);
                if k < i as int {
                    assert(s@[i as int] == c);
                    assert(false);
                }
                if k > i as int {
                    assert(s@[k] != c);
                    assert(false);
                }
            }
            return Some(i);
        }
    }
    proof {
        lemma_last_index_of(s@, c);
        if spec_last_index_of(s@, c) != -1 {
            let k = spec_last_index_of(s@, c);
            assert(s@[k] != c);
            assert(false);
        }
    }
    None
}

/// Case-insensitive `.pdf` extension test on a path, as
/// [`spec_is_pdf`] states.
pub fn is_pdf(path: &str) -> (r: bool)
    ensures
        r == spec_is_pdf(path@),
{
    let n = path.unicode_len();
    let name_start: usize = match last_index_of(path, '/') {
        Some(i) => i + 1,
        None => 0,
    };
    let name = path.substring_char(name_start, n);
    proof {
        assert(name@ == path@.skip(spec_last_index_of(path@, '/') + 1));
    }
    let name_len = name.unicode_len();
    let dot: usize = match last_index_of(name, '.') {
        Some(i) => i,
        None => {
            return false;
        },
    };
    if dot == 0 {
        return false;
    }
    let ext = name.substring_char(dot + 1, name_len);
    proof {
        assert(ext@ == name@.skip(dot + 1));
    }
    if ext.unicode_len() != 3 {
        return false;
    }
    let c0 = ext.get_char(0);
    let c1 = ext.get_char(1);
    let c2 = ext.get_char(2);
    (c0 == 'p' || c0 == 'P') && (c1 == 'd' || c1 == 'D') && (c2 == 'f' || c2 == 'F')
}

/// The classified event a raw observer event gives rise to, if any: only
/// `.pdf` paths are surfaced, creation and modification map to their kinds,
/// removal maps to `Deleted`, and any other raw kind is dropped.
pub open spec fn spec_classify(
    kind: RawEventKind,
    path: Seq<char>,
) -> Option<FileEventKind> {
    if kind == RawEventKind::Other || !spec_is_pdf(path) {
        None
    } else if kind == RawEventKind::Create {
        Some(FileEventKind::Created)
    } else if kind == RawEventKind::Modify {
        Some(FileEventKind::Modified)
    } else {
        Some(FileEventKind::Deleted)
    }
}

/// Classifies one raw observer event, as [`spec_classify`] states; the
/// event carries the watch's category through.
pub fn classify_event(kind: RawEventKind, path: String, category: String) -> (r: Option<FileEvent>)
    ensures
        match r {
            Some(ev) => spec_classify(kind, path@) == Some(ev.kind) && ev.path@ == path@
                && ev.category@ == category@,
            None => spec_classify(kind, path@) is None,
        },
{
    let mapped = match kind {
        RawEventKind::Create => Some(FileEventKind::Created),
        RawEventKind::Modify => Some(FileEventKind::Modified),
        RawEventKind::Remove => Some(FileEventKind::Deleted),
        RawEventKind::Other => None,
    };
    match mapped {
        Some(k) => {
            if is_pdf(path.as_str()) {
                Some(FileEvent { path, category, kind: k })
            } else {
                None
            }
        },
        None => None,
    }
}

/// One planned single-level watch: a folder and the category its documents
/// belong to.
pub struct WatchSpec {
    pub folder: String,
    pub category: String,
}

/// View of a planned watch.
pub struct WatchModel {
    pub folder: Seq<char>,
    pub category: Seq<char>,
}

impl View for WatchSpec {
    type V = WatchModel;

    open spec fn view(&self) -> WatchModel {
        WatchModel { folder: self.folder@, category: self.category@ }
    }
}

/// The watches a settings snapshot calls for: the revenue folder when set
/// and existing, then the payable folder when set and existing. A missing
/// or nonexistent folder is silently omitted, never an error.
pub open spec fn spec_plan_watches(
    revenue_folder: Option<Seq<char>>,
    revenue_exists: bool,
    payable_folder: Option<Seq<char>>,
    payable_exists: bool,
) -> Seq<WatchModel> {
    let head: Seq<WatchModel> = match revenue_folder {
        Some(f) => if revenue_exists {
            seq![WatchModel { folder: f, category: "revenue"@ }]
        } else {
            Seq::empty()
        },
        None => Seq::empty(),
    };
    let tail: Seq<WatchModel> = match payable_folder {
        Some(f) => if payable_exists {
            seq![WatchModel { folder: f, category: "payable"@ }]
        } else {
            Seq::empty()
        },
        None => Seq::empty(),
    };
    head + tail
}

/// Plans the watches for the configured folders, as
/// [`spec_plan_watches`] states. Whether each folder exists is the host's
/// knowledge and passed in.
pub fn plan_watches(
    revenue_folder: &Option<String>,
    revenue_exists: bool,
    payable_folder: &Option<String>,
    payable_exists: bool,
) -> (r: Vec<WatchSpec>)
    ensures
        r@.map_values(|w: WatchSpec| w@) == spec_plan_watches(
            crate::models::opt_str_view(*revenue_folder),
            revenue_exists,
            crate::models::opt_str_view(*payable_folder),
            payable_exists,
        ),
{
    let mut out: Vec<WatchSpec> = Vec::new();
    if let Some(f) = revenue_folder {
        if revenue_exists {
            out.push(WatchSpec { folder: f.clone(), category: "revenue".to_owned() });
        }
    }
    if let Some(f) = payable_folder {
        if payable_exists {
            out.push(WatchSpec { folder: f.clone(), category: "payable".to_owned() });
        }
    }
    proof {
        assert(out@.map_values(|w: WatchSpec| w@) =~= spec_plan_watches(
            crate::models::opt_str_view(*revenue_folder),
            revenue_exists,
            crate::models::opt_str_view(*payable_folder),
            payable_exists,
        ));
    }
    out
}

/// Decision of the write-debounce filter over its up to three size samples,
/// taken with a fixed pause between them. A vanished file is never stable;
/// two consecutive equal, nonzero sizes mean stable; two consecutive equal
/// zero sizes, or three pairwise disagreeing samples, drop the event.
pub open spec fn spec_debounce_stable(
    s1: Option<u64>,
    s2: Option<u64>,
    s3: Option<u64>,
) -> bool {
    match s1 {
        None => false,
        Some(a) => match s2 {
            None => false,
            Some(b) => if b == a {
                a > 0
            } else {
                match s3 {
                    None => false,
                    Some(c) => if c == b {
                        b > 0
                    } else {
                        false
                    },
                }
            },
        },
    }
}

/// Pure form of the debounce decision, as [`spec_debounce_stable`] states.
pub fn debounce_decision(s1: Option<u64>, s2: Option<u64>, s3: Option<u64>) -> (r: bool)
    ensures
        r == spec_debounce_stable(s1, s2, s3),
{
    match s1 {
        None => false,
        Some(a) => match s2 {
            None => false,
            Some(b) => if b == a {
                a > 0
            } else {
                match s3 {
                    None => false,
                    Some(c) => c == b && b > 0,
                }
            },
        },
    }
}

/// What one debounce observation decides.
#[derive(Clone, Copy, PartialEq, Eq, Structural, Debug)]
pub enum ProbeStep {
    /// The file is stable; process it.
    Stable,
    /// Drop the event; the next notification or a manual scan is the retry
    /// path.
    Drop,
    /// Not decided yet; sample again after the pause.
    Continue,
}

/// Incremental debounce filter: fed one size sample (or `None` for a
/// vanished file) per pause, it decides after at most three samples. It is
/// a filter, not a queue — a dropped event is not retried here.
pub struct DebounceProbe {
    /// Last observed size, if any sample was taken.
    pub last: Option<u64>,
    /// Number of samples taken so far.
    pub taken: u8,
}

impl DebounceProbe {
    pub open spec fn wf(&self) -> bool {
        self.taken <= 3 && (self.taken == 0 ==> self.last is None)
    }

    /// A fresh probe, no samples taken.
    pub fn new() -> (r: DebounceProbe)
        ensures
            r.wf(),
            r.taken == 0,
            r.last is None,
    {
        DebounceProbe { last: None, taken: 0 }
    }

    /// Feeds one size sample. A vanished file drops the event; a size equal
    /// to the previous sample decides by whether it is nonzero; a third
    /// disagreeing sample drops the event; otherwise sampling continues.
    pub fn observe(&mut self, size: Option<u64>) -> (r: ProbeStep)
        requires
            old(self).wf(),
            old(self).taken < 3,
        ensures
            final(self).wf(),
            match size {
                None => r == ProbeStep::Drop && *final(self) == *old(self),
                Some(sz) => {
                    if old(self).last == Some(sz) {
                        (if sz > 0 {
                            r == ProbeStep::Stable
                        } else {
                            r == ProbeStep::Drop
                        }) && *final(self) == *old(self)
                    } else {
                        final(self).last == Some(sz) && final(self).taken == old(self).taken + 1
                            && (if old(self).taken == 2 {
                            r == ProbeStep::Drop
                        } else {
                            r == ProbeStep::Continue
                        })
                    }
                },
            },
    {
        match size {
            None => ProbeStep::Drop,
            Some(sz) => {
                let repeated = match self.last {
                    Some(prev) => prev == sz,
                    None => false,
                };
                if repeated {
                    if sz > 0 {
                        ProbeStep::Stable
                    } else {
                        ProbeStep::Drop
                    }
                } else {
                    self.last = Some(sz);
                    self.taken = self.taken + 1;
                    if self.taken == 3 {
                        ProbeStep::Drop
                    } else {
                        ProbeStep::Continue
                    }
                }
            },
        }
    }
}

/// One entry seen by a shallow folder scan.
pub struct ScanEntry {
    pub path: String,
    pub is_file: bool,
}

/// View of a scan entry.
pub struct ScanModel {
    pub path: Seq<char>,
    pub is_file: bool,
}

impl View for ScanEntry {
    type V = ScanModel;

    open spec fn view(&self) -> ScanModel {
        ScanModel { path: self.path@, is_file: self.is_file }
    }
}

/// The paths a shallow scan dispatches: the files with a `.pdf` extension,
/// in listing order.
pub open spec fn spec_pdf_scan(s: Seq<ScanModel>) -> Seq<Seq<char>>
    decreases s.len(),
{
    if s.len() == 0 {
        Seq::empty()
    } else {
        let rest = spec_pdf_scan(s.drop_first());
        if s[0].is_file && spec_is_pdf(s[0].path) {
            seq![s[0].path] + rest
        } else {
            rest
        }
    }
}

/// Filters a shallow folder listing to the `.pdf` files to be processed,
/// as [`spec_pdf_scan`] states.
pub fn filter_pdf_entries(entries: &Vec<ScanEntry>) -> (r: Vec<String>)
    ensures
        r@.map_values(|p: String| p@) == spec_pdf_scan(entries@.map_values(|e: ScanEntry| e@)),
{
    let ghost ms = entries@.map_values(|e: ScanEntry| e@);
    let mut out: Vec<String> = Vec::new();
    let n = entries.len();
    let mut i: usize = 0;
    proof {
        assert(ms.skip(0) =~= ms);
    }
    while i < n
        invariant
            0 <= i <= n,
            n == entries@.len(),
            ms == entries@.map_values(|e: ScanEntry| e@),
            spec_pdf_scan(ms) =~= out@.map_values(|p: String| p@) + spec_pdf_scan(
                ms.skip(i as int),
            ),
        decreases n - i,
    {
        proof {
            assert(ms.skip(i as int)[0] == ms[i as int]);
            assert(ms.skip(i as int).drop_first() =~= ms.skip(i + 1));
        }
        let keep = entries[i].is_file && is_pdf(entries[i].path.as_str());
        if keep {
            out.push(entries[i].path.clone());
        }
        proof {
            assert(spec_pdf_scan(ms) =~= out@.map_values(|p: String| p@) + spec_pdf_scan(
                ms.skip(i + 1),
            ));
        }
        i = i + 1;
    }
    proof {
        assert(ms.skip(n as int) =~= Seq::<ScanModel>::empty());
        assert(spec_pdf_scan(ms) =~= out@.map_values(|p: String| p@));
    }
    out
}

} // verus!
