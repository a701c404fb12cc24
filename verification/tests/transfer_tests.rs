use textbook_downloader::models::TextbookDownloadInfo;
use textbook_downloader::registry::CancellationRegistry;
use textbook_downloader::transfer::{
    build_save_path, calculate_progress, extract_file_extension, run_transfer, status_event,
    DownloadStatus, StreamStep, TransferError, TransferEvent, TransferOutcome, TransferScript,
    PROGRESS_UPDATE_THRESHOLD,
};

fn info(url: &str, title: &str) -> TextbookDownloadInfo {
    TextbookDownloadInfo::new(url.to_string(), title.to_string())
}

fn plain_script(content_length: Option<u64>, steps: Vec<StreamStep>) -> TransferScript {
    TransferScript {
        cancel_before_start: false,
        dir_error: None,
        send_error: None,
        response_ok: true,
        status_detail: "200 OK".to_string(),
        content_length,
        create_error: None,
        steps,
    }
}

fn progress_values(events: &[TransferEvent]) -> Vec<u32> {
    events
        .iter()
        .filter_map(|e| match e {
            TransferEvent::Progress { progress } => Some(*progress),
            _ => None,
        })
        .collect()
}

#[test]
fn progress_percentages() {
    assert_eq!(calculate_progress(512, Some(1024)), 50);
    assert_eq!(calculate_progress(0, Some(1024)), 0);
    assert_eq!(calculate_progress(2048, Some(1024)), 100);
    assert_eq!(calculate_progress(1024, Some(0)), 0);
    assert_eq!(calculate_progress(1024, None), 0);
    assert_eq!(calculate_progress(1, Some(3)), 33);
}

#[test]
fn extension_extraction() {
    assert_eq!(extract_file_extension("/files/doc.pdf"), ".pdf");
    assert_eq!(extract_file_extension("/files/doc"), "");
    assert_eq!(extract_file_extension("/files/doc."), "");
    assert_eq!(extract_file_extension("/files/.hidden"), ".hidden");
    assert_eq!(extract_file_extension("/a/b/c.tar.gz"), ".gz");
}

#[test]
fn grouped_destination_path() {
    let mut i = info("https://example.test/doc.pdf", "Book");
    i.save_by_category = true;
    i.category_label = Some("数学".to_string());
    i.subject_label = Some("人教版".to_string());
    i.version_label = Some("".to_string());
    i.grade_label = Some("三年级".to_string());
    i.year_label = Some("".to_string());
    assert_eq!(build_save_path(&i, "/base"), "/base/数学/人教版/三年级");
}

#[test]
fn ungrouped_destination_path() {
    let mut i = info("https://example.test/doc.pdf", "Book");
    i.category_label = Some("数学".to_string());
    assert_eq!(build_save_path(&i, "/base"), "/base");
}

#[test]
fn status_event_shaping() {
    match status_event(DownloadStatus::Completed, 7) {
        TransferEvent::Status { progress, file_path, .. } => {
            assert_eq!(progress, 100);
            assert_eq!(file_path, None);
        },
        _ => panic!("expected a status event"),
    }
    match status_event(DownloadStatus::Cancelled, 88) {
        TransferEvent::Status { progress, .. } => assert_eq!(progress, 0),
        _ => panic!("expected a status event"),
    }
}

#[test]
fn single_transfer_completes_with_expected_path() {
    // request {source_url: https://example.test/doc.pdf, title: Book A},
    // base /tmp/out, grouping disabled
    let mut registry = CancellationRegistry::new();
    let script = plain_script(Some(10), vec![StreamStep::Chunk(4), StreamStep::Chunk(6)]);
    let m = run_transfer(&info("https://example.test/doc.pdf", "Book A"), "/tmp/out", &mut registry, &script)
        .unwrap();
    match m.outcome.as_ref().unwrap() {
        TransferOutcome::Completed(path) => assert_eq!(path, "/tmp/out/Book A.pdf"),
        other => panic!("unexpected outcome: {other:?}"),
    }
    assert!(m.file_on_disk);
    // the terminal completed event is the last one and carries the path
    match m.events.last().unwrap() {
        TransferEvent::Status { status: DownloadStatus::Completed, progress, file_path } => {
            assert_eq!(*progress, 100);
            assert_eq!(file_path.as_deref(), Some("/tmp/out/Book A.pdf"));
        },
        other => panic!("unexpected final event: {other:?}"),
    }
    // the registry entry was revoked on exit
    assert_eq!(
        registry.cancel(&"https://example.test/doc.pdf".to_string()),
        Err("No active download found for: https://example.test/doc.pdf".to_string())
    );
}

#[test]
fn progress_events_non_decreasing_and_end_full() {
    let mut registry = CancellationRegistry::new();
    let total = 3 * PROGRESS_UPDATE_THRESHOLD;
    let script = plain_script(
        Some(total),
        vec![
            StreamStep::Chunk(PROGRESS_UPDATE_THRESHOLD),
            StreamStep::Chunk(PROGRESS_UPDATE_THRESHOLD),
            StreamStep::Chunk(PROGRESS_UPDATE_THRESHOLD),
        ],
    );
    let m = run_transfer(&info("https://example.test/doc.pdf", "B"), "/tmp/out", &mut registry, &script)
        .unwrap();
    let values = progress_values(&m.events);
    assert_eq!(values, vec![33, 66, 100]);
    assert!(values.windows(2).all(|w| w[0] <= w[1]));
    assert_eq!(*values.last().unwrap(), 100);
}

#[test]
fn small_chunks_are_rate_limited() {
    let mut registry = CancellationRegistry::new();
    let half = PROGRESS_UPDATE_THRESHOLD / 2;
    let script = plain_script(
        None,
        vec![StreamStep::Chunk(half), StreamStep::Chunk(half), StreamStep::Chunk(1)],
    );
    let m = run_transfer(&info("https://example.test/doc.pdf", "B"), "/tmp/out", &mut registry, &script)
        .unwrap();
    // only the second chunk crosses the threshold; unknown total reports 0
    assert_eq!(progress_values(&m.events), vec![0]);
}

#[test]
fn cancellation_mid_stream_removes_file() {
    let mut registry = CancellationRegistry::new();
    let script = plain_script(
        Some(100),
        vec![StreamStep::Chunk(10), StreamStep::Cancel, StreamStep::Chunk(10), StreamStep::Chunk(10)],
    );
    let url = "https://example.test/doc.pdf";
    let m = run_transfer(&info(url, "B"), "/tmp/out", &mut registry, &script).unwrap();
    assert!(matches!(m.outcome, Some(TransferOutcome::Cancelled)));
    assert!(!m.file_on_disk);
    match m.events.last().unwrap() {
        TransferEvent::Status { status: DownloadStatus::Cancelled, progress, .. } => {
            assert_eq!(*progress, 0)
        },
        other => panic!("unexpected final event: {other:?}"),
    }
    // a second cancel on the same identity reports "not found"
    assert_eq!(
        registry.cancel(&url.to_string()),
        Err(format!("No active download found for: {url}"))
    );
}

#[test]
fn cancel_before_start_aborts_promptly() {
    let mut registry = CancellationRegistry::new();
    let mut script = plain_script(Some(10), vec![StreamStep::Chunk(10)]);
    script.cancel_before_start = true;
    let m = run_transfer(&info("https://example.test/doc.pdf", "B"), "/tmp/out", &mut registry, &script)
        .unwrap();
    assert!(matches!(m.outcome, Some(TransferOutcome::Cancelled)));
    assert!(!m.file_on_disk);
    assert_eq!(m.events.len(), 1);
}

#[test]
fn empty_download_path_is_rejected() {
    let mut registry = CancellationRegistry::new();
    let script = plain_script(Some(10), vec![]);
    match run_transfer(&info("https://example.test/doc.pdf", "B"), "", &mut registry, &script) {
        Err(TransferError::Precondition(m)) => {
            assert_eq!(m, "Download path is not provided.")
        },
        other => panic!("unexpected result: {other:?}"),
    }
}

#[test]
fn malformed_url_is_rejected() {
    let mut registry = CancellationRegistry::new();
    let script = plain_script(Some(10), vec![]);
    match run_transfer(&info("no scheme here", "B"), "/tmp/out", &mut registry, &script) {
        Err(TransferError::InvalidLocator(m)) => assert_eq!(m, "Invalid URL"),
        other => panic!("unexpected result: {other:?}"),
    }
}

#[test]
fn bad_status_fails_without_file() {
    let mut registry = CancellationRegistry::new();
    let mut script = plain_script(Some(10), vec![]);
    script.response_ok = false;
    script.status_detail = "404 Not Found".to_string();
    let m = run_transfer(&info("https://example.test/doc.pdf", "B"), "/tmp/out", &mut registry, &script)
        .unwrap();
    match m.outcome.as_ref().unwrap() {
        TransferOutcome::Failed(reason) => {
            assert_eq!(reason, "Download failed with status: 404 Not Found")
        },
        other => panic!("unexpected outcome: {other:?}"),
    }
    assert!(!m.file_on_disk);
}

#[test]
fn stream_errors_fail_and_clean_up() {
    let mut registry = CancellationRegistry::new();
    let script = plain_script(
        Some(100),
        vec![StreamStep::Chunk(10), StreamStep::ChunkError("connection reset".to_string())],
    );
    let m = run_transfer(&info("https://example.test/doc.pdf", "B"), "/tmp/out", &mut registry, &script)
        .unwrap();
    match m.outcome.as_ref().unwrap() {
        TransferOutcome::Failed(reason) => {
            assert_eq!(reason, "Error while downloading: connection reset")
        },
        other => panic!("unexpected outcome: {other:?}"),
    }
    assert!(!m.file_on_disk);

    let mut registry2 = CancellationRegistry::new();
    let script2 = plain_script(Some(100), vec![StreamStep::WriteError("disk full".to_string())]);
    let m2 = run_transfer(&info("https://example.test/doc.pdf", "B"), "/tmp/out", &mut registry2, &script2)
        .unwrap();
    match m2.outcome.as_ref().unwrap() {
        TransferOutcome::Failed(reason) => {
            assert_eq!(reason, "Error while writing to file: disk full")
        },
        other => panic!("unexpected outcome: {other:?}"),
    }
}

#[test]
fn setup_errors_carry_their_detail() {
    let mut registry = CancellationRegistry::new();
    let mut script = plain_script(Some(10), vec![]);
    script.dir_error = Some("permission denied".to_string());
    let m = run_transfer(&info("https://example.test/doc.pdf", "B"), "/tmp/out", &mut registry, &script)
        .unwrap();
    assert!(matches!(
        m.outcome.as_ref().unwrap(),
        TransferOutcome::Failed(r) if r == "Failed to create download directory: permission denied"
    ));

    let mut script2 = plain_script(Some(10), vec![]);
    script2.send_error = Some("dns failure".to_string());
    let mut registry2 = CancellationRegistry::new();
    let m2 = run_transfer(&info("https://example.test/doc.pdf", "B"), "/tmp/out", &mut registry2, &script2)
        .unwrap();
    assert!(matches!(
        m2.outcome.as_ref().unwrap(),
        TransferOutcome::Failed(r) if r == "Download failed: dns failure"
    ));

    let mut script3 = plain_script(Some(10), vec![]);
    script3.create_error = Some("read-only".to_string());
    let mut registry3 = CancellationRegistry::new();
    let m3 = run_transfer(&info("https://example.test/doc.pdf", "B"), "/tmp/out", &mut registry3, &script3)
        .unwrap();
    assert!(matches!(
        m3.outcome.as_ref().unwrap(),
        TransferOutcome::Failed(r) if r == "Failed to create file: read-only"
    ));
}

#[test]
fn bearer_header_value() {
    assert_eq!(textbook_downloader::transfer::bearer_value("tok123"), "Bearer tok123");
}

#[test]
fn query_string_does_not_reach_the_extension() {
    // the extension comes from the URL's path portion, not the raw string
    let mut registry = CancellationRegistry::new();
    let script = plain_script(Some(1), vec![StreamStep::Chunk(1)]);
    let m = run_transfer(
        &info("https://example.test/doc.pdf?session=1.html", "B"),
        "/tmp/out",
        &mut registry,
        &script,
    )
    .unwrap();
    match m.outcome.as_ref().unwrap() {
        TransferOutcome::Completed(path) => assert_eq!(path, "/tmp/out/B.pdf"),
        other => panic!("unexpected outcome: {other:?}"),
    }
}
