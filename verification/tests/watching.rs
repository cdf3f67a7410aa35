use billly::coordinator::{dispatch_event, DispatchAction, WatcherLifecycle};
use billly::settings::{load_settings, Settings};
use billly::watcher::{
    classify_event, debounce_decision, filter_pdf_entries, is_pdf, plan_watches, DebounceProbe,
    FileEventKind, ProbeStep, RawEventKind, ScanEntry,
};

#[test]
fn pdf_extension_is_case_insensitive() {
    assert!(is_pdf("invoice.pdf"));
    assert!(is_pdf("INVOICE.PDF"));
    assert!(is_pdf("/in/coming/scan.PdF"));
    assert!(!is_pdf("invoice.txt"));
    assert!(!is_pdf("invoice"));
    assert!(!is_pdf(".pdf"));
    assert!(!is_pdf("/folder/.pdf"));
    assert!(!is_pdf("archive.pdf/readme"));
    assert!(!is_pdf("report.pdfx"));
}

#[test]
fn classification_maps_kinds_and_filters() {
    let ev = classify_event(RawEventKind::Create, "a.pdf".to_string(), "revenue".to_string())
        .expect("pdf creation is surfaced");
    assert_eq!(ev.kind, FileEventKind::Created);
    assert_eq!(ev.path, "a.pdf".to_string());
    assert_eq!(ev.category, "revenue".to_string());

    let ev = classify_event(RawEventKind::Modify, "a.pdf".to_string(), "payable".to_string())
        .expect("pdf modification is surfaced");
    assert_eq!(ev.kind, FileEventKind::Modified);

    let ev = classify_event(RawEventKind::Remove, "a.pdf".to_string(), "revenue".to_string())
        .expect("pdf removal is surfaced");
    assert_eq!(ev.kind, FileEventKind::Deleted);

    assert!(classify_event(RawEventKind::Other, "a.pdf".to_string(), "revenue".to_string())
        .is_none());
    assert!(classify_event(RawEventKind::Create, "a.txt".to_string(), "revenue".to_string())
        .is_none());
}

#[test]
fn deletion_dispatches_synchronously_everything_else_probes() {
    assert_eq!(dispatch_event(FileEventKind::Deleted), DispatchAction::MarkMissing);
    assert_eq!(dispatch_event(FileEventKind::Created), DispatchAction::Probe);
    assert_eq!(dispatch_event(FileEventKind::Modified), DispatchAction::Probe);
}

#[test]
fn debounce_growing_file_is_dropped() {
    assert!(!debounce_decision(Some(10), Some(20), Some(30)));
}

#[test]
fn debounce_stabilized_file_passes() {
    assert!(debounce_decision(Some(10), Some(20), Some(20)));
    assert!(debounce_decision(Some(20), Some(20), None));
}

#[test]
fn debounce_vanished_or_empty_file_is_dropped() {
    assert!(!debounce_decision(None, Some(5), Some(5)));
    assert!(!debounce_decision(Some(5), None, Some(5)));
    assert!(!debounce_decision(Some(0), Some(0), Some(0)));
}

#[test]
fn probe_walks_the_same_decisions() {
    let mut p = DebounceProbe::new();
    assert_eq!(p.observe(Some(10)), ProbeStep::Continue);
    assert_eq!(p.observe(Some(20)), ProbeStep::Continue);
    assert_eq!(p.observe(Some(30)), ProbeStep::Drop);

    let mut p = DebounceProbe::new();
    assert_eq!(p.observe(Some(10)), ProbeStep::Continue);
    assert_eq!(p.observe(Some(10)), ProbeStep::Stable);

    let mut p = DebounceProbe::new();
    assert_eq!(p.observe(Some(10)), ProbeStep::Continue);
    assert_eq!(p.observe(None), ProbeStep::Drop);

    let mut p = DebounceProbe::new();
    assert_eq!(p.observe(Some(0)), ProbeStep::Continue);
    assert_eq!(p.observe(Some(0)), ProbeStep::Drop);
}

#[test]
fn watches_are_planned_only_for_existing_folders() {
    let plan = plan_watches(&Some("/rev".to_string()), true, &Some("/pay".to_string()), true);
    assert_eq!(plan.len(), 2);
    assert_eq!(plan[0].folder, "/rev".to_string());
    assert_eq!(plan[0].category, "revenue".to_string());
    assert_eq!(plan[1].folder, "/pay".to_string());
    assert_eq!(plan[1].category, "payable".to_string());

    let plan = plan_watches(&Some("/rev".to_string()), false, &None, false);
    assert_eq!(plan.len(), 0);

    let plan = plan_watches(&None, true, &Some("/pay".to_string()), true);
    assert_eq!(plan.len(), 1);
    assert_eq!(plan[0].category, "payable".to_string());
}

#[test]
fn lifecycle_restart_installs_fresh_set() {
    let settings = Settings {
        revenue_folder: Some("/rev".to_string()),
        payable_folder: None,
        openai_api_key: None,
        ocr_language: "deu".to_string(),
    };
    let mut lc = WatcherLifecycle::new();
    assert_eq!(lc.watch_count(), 0);
    lc.restart_watchers(&settings, true, false);
    assert_eq!(lc.watch_count(), 1);
    let w = lc.watch_at(0);
    assert_eq!(w.folder, "/rev".to_string());
    assert_eq!(w.category, "revenue".to_string());
    lc.stop();
    assert_eq!(lc.watch_count(), 0);
}

#[test]
fn scan_keeps_pdf_files_in_order() {
    let entries = vec![
        ScanEntry { path: "/in/a.pdf".to_string(), is_file: true },
        ScanEntry { path: "/in/sub.pdf".to_string(), is_file: false },
        ScanEntry { path: "/in/b.txt".to_string(), is_file: true },
        ScanEntry { path: "/in/c.PDF".to_string(), is_file: true },
    ];
    let picked = filter_pdf_entries(&entries);
    assert_eq!(picked, vec!["/in/a.pdf".to_string(), "/in/c.PDF".to_string()]);
}

#[test]
fn settings_loading_defaults_the_ocr_language() {
    let s = load_settings(Some("/rev".to_string()), None, Some("enc:x".to_string()), None);
    assert_eq!(s.revenue_folder, Some("/rev".to_string()));
    assert_eq!(s.payable_folder, None);
    assert_eq!(s.openai_api_key, Some("enc:x".to_string()));
    assert_eq!(s.ocr_language, "deu".to_string());

    let s = load_settings(None, None, None, Some("eng".to_string()));
    assert_eq!(s.ocr_language, "eng".to_string());
    let copy = s.duplicate();
    assert_eq!(copy.ocr_language, "eng".to_string());
}
