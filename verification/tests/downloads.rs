use navdata_interface::download::{
    count_occurrences, entry_action, progress_event, BatchDecision, BatchFollowUp, BatchReturn, BatchStart,
    DownloadStatus, EntryAction, NavigationDataDownloader, UpdateAction, ZipFileHandler,
};
use navdata_interface::json_structs::{DownloadProgressEvent, DownloadProgressPhase};
use navdata_interface::navdata_updater::{DownloadStatistics, DownloadStatus as UpdaterStatus, NavdataDownloader, UpdaterAction};

#[test]
fn handler_cleans_then_extracts() {
    let mut h = ZipFileHandler::new(2);
    assert_eq!(h.clean_step(10, true), BatchReturn::MoreFilesToDelete);
    assert_eq!(h.deleted, 10);
    assert_eq!(h.clean_step(10, false), BatchReturn::MoreFilesToUnzip);
    assert!(h.cleaned_destination);
    assert_eq!(h.deleted, 10);
    assert_eq!(h.batch_decision(0, 1), BatchDecision::Entry(0));
    h.advance();
    assert_eq!(h.batch_decision(0, 1), BatchDecision::Entry(1));
    h.advance();
    assert_eq!(h.batch_decision(0, 1), BatchDecision::Finish);
    h.finish();
    assert!(!h.has_archive);
    assert_eq!(h.current_file_index, 2);
}

/// Runs one batch of extraction without I/O, as the downloader drives it.
fn run_batch(h: &mut ZipFileHandler, batch_size: usize) -> (Vec<usize>, BatchReturn) {
    let mut handled = 0;
    let mut entries = Vec::new();
    loop {
        match h.batch_decision(handled, batch_size) {
            BatchDecision::Pause => return (entries, BatchReturn::MoreFilesToUnzip),
            BatchDecision::Finish => {
                h.finish();
                return (entries, BatchReturn::Finished);
            }
            BatchDecision::Entry(i) => {
                entries.push(i);
                h.advance();
                handled += 1;
            }
        }
    }
}

#[test]
fn batches_advance_by_at_most_their_size() {
    let mut h = ZipFileHandler::new(5);
    assert_eq!(h.batch_start(), BatchStart::Clean);
    let before = h.current_file_index;
    h.clean_step(2, true);
    assert_eq!(h.current_file_index, before);
    h.clean_step(2, false);
    assert_eq!(h.batch_start(), BatchStart::Extract);
    assert_eq!(run_batch(&mut h, 2), (vec![0, 1], BatchReturn::MoreFilesToUnzip));
    assert_eq!(run_batch(&mut h, 2), (vec![2, 3], BatchReturn::MoreFilesToUnzip));
    assert!(h.has_archive);
    assert_eq!(run_batch(&mut h, 2), (vec![4], BatchReturn::Finished));
    assert_eq!(h.current_file_index, h.zip_file_count);
    assert!(!h.has_archive);
    assert_eq!(h.batch_start(), BatchStart::NoArchive);
    assert_eq!(h.batch_decision(0, 0), BatchDecision::Pause);
}

#[test]
fn entries_with_two_dots_are_skipped() {
    assert_eq!(count_occurrences("a.b.c", '.'), 2);
    assert_eq!(entry_action("\\work/data/file.tar.gz", "file.tar.gz"), EntryAction::Skip);
    assert_eq!(entry_action("\\work/data/dir", "dir/"), EntryAction::CreateDirectory);
    assert_eq!(entry_action("\\work/data/cycle.json", "cycle.json"), EntryAction::ExtractFile);
}

#[test]
fn progress_events_by_status() {
    assert_eq!(
        progress_event(&DownloadStatus::Extracting, None, Some(5), Some(2)),
        Some(DownloadProgressEvent {
            phase: DownloadProgressPhase::Extracting,
            deleted: None,
            total_to_unzip: Some(5),
            unzipped: Some(2)
        })
    );
    assert_eq!(progress_event(&DownloadStatus::NoDownload, None, None, None), None);
    assert_eq!(progress_event(&DownloadStatus::Failed("x".to_string()), None, None, None), None);
}

#[test]
fn downloader_runs_through_a_download() {
    let mut d = NavigationDataDownloader::new();
    assert_eq!(d.options.batch_size, 10);
    assert!(matches!(d.update_action(), UpdateAction::Idle));
    let ev = d.download().unwrap();
    assert_eq!(ev.phase, DownloadProgressPhase::Downloading);
    assert!(d.has_task);
    assert!(d.download().is_none());
    d.request_finished(Ok(3));
    assert!(matches!(d.update_action(), UpdateAction::ExtractBatch(10)));
    match d.after_batch(Ok(BatchReturn::MoreFilesToDelete)) {
        BatchFollowUp::Progress(Some(e)) => {
            assert_eq!(e.phase, DownloadProgressPhase::Cleaning);
            assert_eq!(e.deleted, Some(0));
        }
        _ => panic!("a cleaning batch reports progress"),
    }
    assert!(matches!(d.download_status, DownloadStatus::CleaningDestination));
    match d.after_batch(Ok(BatchReturn::MoreFilesToUnzip)) {
        BatchFollowUp::Progress(Some(e)) => {
            assert_eq!(e.total_to_unzip, Some(3));
            assert_eq!(e.unzipped, Some(0));
        }
        _ => panic!("an extraction batch reports progress"),
    }
    assert!(matches!(d.after_batch(Ok(BatchReturn::Finished)), BatchFollowUp::Completed));
    assert!(matches!(d.download_status, DownloadStatus::Downloaded));
    d.acknowledge_download();
    assert!(matches!(d.download_status, DownloadStatus::NoDownload));
    assert!(d.zip_handler.is_none());
    assert!(!d.has_task);
}

#[test]
fn downloader_failures() {
    let mut d = NavigationDataDownloader::new();
    d.download();
    d.request_finished(Err("No data received".to_string()));
    match d.update_action() {
        UpdateAction::Fail(m) => assert_eq!(m, "No data received"),
        _ => panic!("a failed download reports its message"),
    }
    let mut d = NavigationDataDownloader::new();
    d.download();
    d.request_finished(Ok(1));
    match d.after_batch(Err("Failed to create file".to_string())) {
        BatchFollowUp::Failed(m) => assert_eq!(m, "Failed to create file"),
        _ => panic!("a failed batch is reported"),
    }
    assert!(d.zip_handler.is_none());
    assert!(!d.has_task);
    let mut d = NavigationDataDownloader::new();
    assert!(matches!(d.after_batch(Ok(BatchReturn::Finished)), BatchFollowUp::Nothing));
    assert!(matches!(d.download_status, DownloadStatus::NoDownload));
    d.set_download_options(25);
    assert_eq!(d.options.batch_size, 25);
}

#[test]
fn updater_status_follows_archive() {
    let mut u = NavdataDownloader::new();
    assert!(matches!(u.update_and_get_status(), UpdaterStatus::NoDownload));
    assert!(u.get_download_statistics().is_err());
    assert!(u.download(Ok(())));
    assert!(matches!(u.status, UpdaterStatus::Downloading));
    u.request_finished(Ok(4));
    assert!(matches!(u.update_and_get_status(), UpdaterStatus::Extracting));
    assert_eq!(
        u.get_download_statistics().unwrap(),
        DownloadStatistics { total_files: 4, files_unzipped: 0, files_to_unzip: 4 }
    );
    assert!(!u.download(Ok(())));
    match u.on_update() {
        UpdaterAction::Extract(s) => assert_eq!(s.files_to_unzip, 4),
        _ => panic!("extraction continues while entries remain"),
    }
    if let Some(z) = u.zip_handler.as_mut() {
        for _ in 0..4 {
            z.advance();
        }
    }
    assert!(matches!(u.update_and_get_status(), UpdaterStatus::Done));
    u.clear_zip_handler();
    assert!(matches!(u.status, UpdaterStatus::NoDownload));
}

#[test]
fn updater_reports_bad_arguments() {
    let mut u = NavdataDownloader::new();
    assert!(!u.download(Err("JSON Parsing error from JS: x".to_string())));
    match &u.status {
        UpdaterStatus::Failed(m) => assert_eq!(m, "JSON Parsing error from JS: x"),
        _ => panic!("bad arguments fail the download"),
    }
    u.request_finished(Err("No data received".to_string()));
    assert!(matches!(u.status, UpdaterStatus::Failed(_)));
    u.set_download_options(3);
    assert_eq!(u.options.batch_size, 3);
}
