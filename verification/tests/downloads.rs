use arandu_core::downloader::DownloadConfig;
use arandu_core::downloader::DownloadManager;
use arandu_core::downloader::DownloadState;
use arandu_core::downloader::build_download_url;
use arandu_core::downloader::extract_filename_from_url;
use arandu_core::downloader::final_file_path;
use arandu_core::downloader::generate_download_id;
use arandu_core::downloader::init_download_status;
use arandu_core::downloader::sanitize_filename;
use arandu_core::downloader::should_emit_progress;
use arandu_core::downloader::temp_file_path;

fn test_config(files: Vec<String>) -> DownloadConfig {
    DownloadConfig {
        base_url: "https://example.com/repo".to_string(),
        destination_folder: "/tmp/dl".to_string(),
        auto_extract: false,
        create_subfolder: None,
        files,
        custom_headers: None,
    }
}

fn start_job(mgr: &mut DownloadManager, id: &str, files: Vec<String>, now: i64) {
    let config = test_config(files.clone());
    let status = init_download_status(id.to_string(), &config, "/tmp/dl".to_string(), files, now);
    mgr.add_download(status);
}

#[test]
fn bytes_never_exceed_known_total() {
    let mut mgr = DownloadManager::new();
    start_job(&mut mgr, "job", vec!["f.bin".to_string()], 1000);
    mgr.mark_file_started(0, 0);
    mgr.record_total_bytes(0, 100);
    mgr.record_chunk(0, 60, 1, 1001);
    assert_eq!(mgr.get_status("job").unwrap().downloaded_bytes, 60);
    // a chunk past the promised size is capped at the total
    mgr.record_chunk(0, 60, 2, 1002);
    let s = mgr.get_status("job").unwrap();
    assert_eq!(s.downloaded_bytes, 100);
    assert_eq!(s.total_bytes, 100);
}

#[test]
fn pause_then_resume_credits_the_pause() {
    let mut mgr = DownloadManager::new();
    start_job(&mut mgr, "job", vec!["f.bin".to_string()], 1000);
    mgr.mark_file_started(0, 0);
    mgr.record_total_bytes(0, 100);
    mgr.record_chunk(0, 40, 1, 1001);
    assert!(mgr.pause_download("job", 2000).is_ok());
    assert!(matches!(mgr.get_status("job").unwrap().status, DownloadState::Paused));
    // pausing mid-file for 2 seconds then resuming credits those 2 seconds
    assert!(mgr.resume_download("job", 2002).is_ok());
    let s = mgr.get_status("job").unwrap();
    assert_eq!(s.total_paused_time, 2);
    assert_eq!(s.downloaded_bytes, 40);
    assert!(matches!(s.status, DownloadState::Downloading));
    // elapsed time excludes the paused stretch
    mgr.record_chunk(0, 10, 3, 1010);
    let s = mgr.get_status("job").unwrap();
    assert_eq!(s.elapsed_time, (1010 - 1000) - 2);
}

#[test]
fn pause_rejects_jobs_not_downloading() {
    let mut mgr = DownloadManager::new();
    start_job(&mut mgr, "job", vec!["f.bin".to_string()], 1000);
    let err = mgr.pause_download("job", 1500).unwrap_err();
    assert_eq!(err, "Download is not in a state that can be paused");
    let err = mgr.resume_download("job", 1500).unwrap_err();
    assert_eq!(err, "Download is not paused");
    let err = mgr.pause_download("ghost", 1500).unwrap_err();
    assert_eq!(err, "Download not found");
}

#[test]
fn cancel_is_terminal_and_cleans_the_partial_file() {
    let mut mgr = DownloadManager::new();
    start_job(&mut mgr, "job", vec!["f.bin".to_string()], 1000);
    mgr.mark_file_started(0, 0);
    mgr.record_total_bytes(0, 100);
    mgr.record_chunk(0, 40, 1, 1001);
    assert!(mgr.cancel_download("job").is_ok());
    assert!(matches!(mgr.get_status("job").unwrap().status, DownloadState::Cancelled));
    // the worker sees the cancellation and deletes the temp artifact
    assert_eq!(mgr.check_cancellation_status("job"), Ok(true));
    let s = mgr.get_status("job").unwrap();
    let temp = temp_file_path(s.destination.as_str(), s.current_file.as_str());
    assert_eq!(temp, "/tmp/dl/f.bin.download");
    // terminal states permit no further transition
    assert_eq!(mgr.cancel_download("job").unwrap_err(), "Download is already finished");
    assert!(mgr.pause_download("job", 2000).is_err());
    assert!(mgr.fail_download("job", "boom".to_string()));
    assert!(matches!(mgr.get_status("job").unwrap().status, DownloadState::Cancelled));
    mgr.mark_file_done(0, 0);
    assert_eq!(mgr.get_status("job").unwrap().files_completed, 0);
}

#[test]
fn files_completed_reaches_total_exactly_at_completion() {
    let mut mgr = DownloadManager::new();
    start_job(
        &mut mgr,
        "job",
        vec!["f1.bin".to_string(), "f2.bin".to_string()],
        1000,
    );
    assert_eq!(mgr.get_status("job").unwrap().files_completed, 0);
    mgr.mark_file_started(0, 0);
    mgr.record_total_bytes(0, 10);
    mgr.record_chunk(0, 10, 1, 1001);
    mgr.mark_file_done(0, 0);
    let s = mgr.get_status("job").unwrap();
    assert_eq!(s.files_completed, 1);
    assert!(!matches!(s.status, DownloadState::Completed));
    mgr.mark_file_started(0, 1);
    mgr.record_total_bytes(0, 10);
    mgr.record_chunk(0, 10, 1, 1002);
    mgr.mark_file_done(0, 1);
    let s = mgr.get_status("job").unwrap();
    assert_eq!(s.files_completed, 2);
    assert!(matches!(s.status, DownloadState::Completed));
    assert_eq!(s.progress, 100);
}

#[test]
fn three_file_job_skips_an_existing_file() {
    let mut mgr = DownloadManager::new();
    let files = vec!["f1.bin".to_string(), "f2.bin".to_string(), "f3.bin".to_string()];
    start_job(&mut mgr, "job", files, 1000);
    // file 1 downloads normally
    assert_eq!(mgr.check_cancellation_status("job"), Ok(false));
    mgr.mark_file_started(0, 0);
    mgr.record_total_bytes(0, 10);
    mgr.record_chunk(0, 10, 1, 1001);
    mgr.mark_file_done(0, 0);
    // file 2 already exists at the destination: no network steps at all
    assert_eq!(mgr.check_cancellation_status("job"), Ok(false));
    mgr.mark_file_done(0, 1);
    assert_eq!(mgr.get_status("job").unwrap().files_completed, 2);
    // file 3 downloads normally and the job completes
    mgr.mark_file_started(0, 2);
    mgr.record_total_bytes(0, 10);
    mgr.record_chunk(0, 10, 1, 1002);
    mgr.mark_file_done(0, 2);
    let s = mgr.get_status("job").unwrap();
    assert_eq!(s.files_completed, 3);
    assert!(matches!(s.status, DownloadState::Completed));
}

#[test]
fn clear_history_drops_only_finished_jobs() {
    let mut mgr = DownloadManager::new();
    start_job(&mut mgr, "done", vec!["a.bin".to_string()], 1000);
    start_job(&mut mgr, "live", vec!["b.bin".to_string()], 1000);
    mgr.mark_file_started(0, 0);
    mgr.mark_file_done(0, 0);
    assert!(matches!(mgr.get_status("done").unwrap().status, DownloadState::Completed));
    mgr.clear_download_history();
    assert!(mgr.get_status("done").is_none());
    assert!(mgr.get_status("live").is_some());
}

#[test]
fn failure_is_recorded_in_the_job_entry() {
    let mut mgr = DownloadManager::new();
    start_job(&mut mgr, "job", vec!["a.bin".to_string()], 1000);
    assert!(mgr.fail_download("job", "connection reset".to_string()));
    let s = mgr.get_status("job").unwrap();
    assert!(matches!(s.status, DownloadState::Failed));
    assert_eq!(s.error.as_deref(), Some("connection reset"));
    assert!(!mgr.fail_download("ghost", "x".to_string()));
}

#[test]
fn progress_events_are_throttled() {
    assert!(should_emit_progress(500, 10, 10));
    assert!(should_emit_progress(0, 11, 10));
    assert!(!should_emit_progress(499, 10, 10));
}

#[test]
fn download_urls_join_on_single_slashes() {
    assert_eq!(
        build_download_url("https://h.co/repo/", "/sub/f.bin", false),
        "https://h.co/repo/sub/f.bin"
    );
    assert_eq!(
        build_download_url("https://h.co/f.bin", "ignored", true),
        "https://h.co/f.bin"
    );
    assert_eq!(final_file_path("/dest", "f.bin"), "/dest/f.bin");
    assert_eq!(temp_file_path("/dest", "f.bin"), "/dest/f.bin.download");
}

#[test]
fn test_extract_filename_from_url() {
    let url = "https://huggingface.co/author/model/blob/main/model-Q4_K_M.gguf";
    assert_eq!(
        extract_filename_from_url(url),
        Ok("model-Q4_K_M.gguf".to_string())
    );
}

#[test]
fn filename_extraction_reports_bad_urls() {
    assert!(extract_filename_from_url("not a url").is_err());
    assert_eq!(
        extract_filename_from_url("https://example.com/"),
        Ok("download".to_string())
    );
}

#[test]
fn download_ids_carry_time_and_sanitized_name() {
    let mut config = test_config(Vec::new());
    config.base_url = "https://example.com/files/m.gguf".to_string();
    assert_eq!(generate_download_id(&config, 1234), "download_1234_m.gguf");
    let config = test_config(vec!["a/b.gguf".to_string()]);
    assert_eq!(generate_download_id(&config, 5), "download_5_a_b.gguf");
    assert_eq!(sanitize_filename("a/b:c*d?.bin"), "a_b_c_d_.bin");
}

#[test]
fn status_starts_well_formed() {
    let config = test_config(vec!["x.bin".to_string()]);
    let s = init_download_status(
        "id1".to_string(),
        &config,
        "/tmp/dl".to_string(),
        vec!["x.bin".to_string()],
        77,
    );
    assert!(matches!(s.status, DownloadState::Starting));
    assert_eq!(s.total_files, 1);
    assert_eq!(s.files_completed, 0);
    assert_eq!(s.start_time, 77);
    assert_eq!(
        s.message.as_deref(),
        Some("Starting download from https://example.com/repo")
    );
}
