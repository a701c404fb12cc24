use textbook_downloader::batch::{
    run_batch, BatchRunner, Limiter, ItemPhase, ItemState,
};
use textbook_downloader::models::TextbookDownloadInfo;
use textbook_downloader::registry::{CancellationHandle, CancellationRegistry};
use textbook_downloader::transfer::{StreamStep, TransferError, TransferOutcome, TransferScript};

fn info(url: &str) -> TextbookDownloadInfo {
    TextbookDownloadInfo::new(url.to_string(), format!("title-{url}"))
}

fn ok_script(steps: Vec<StreamStep>) -> TransferScript {
    TransferScript {
        cancel_before_start: false,
        dir_error: None,
        send_error: None,
        response_ok: true,
        status_detail: "200 OK".to_string(),
        content_length: Some(100),
        create_error: None,
        steps,
    }
}

#[test]
fn batch_rejects_empty_request_set() {
    match run_batch(vec![], vec![], "/tmp/out", 2) {
        Err(TransferError::Precondition(m)) => {
            assert_eq!(m, "No textbooks provided for download")
        },
        other => panic!("unexpected result: {other:?}"),
    }
}

#[test]
fn batch_rejects_empty_path() {
    match run_batch(vec![info("https://example.test/a")], vec![ok_script(vec![])], "", 2) {
        Err(TransferError::Precondition(m)) => assert_eq!(m, "Download path is not provided."),
        other => panic!("unexpected result: {other:?}"),
    }
}

#[test]
fn batch_rejects_zero_concurrency() {
    match run_batch(vec![info("https://example.test/a")], vec![ok_script(vec![])], "/tmp/out", 0) {
        Err(TransferError::Precondition(m)) => {
            assert_eq!(m, "Thread count must be greater than 0")
        },
        other => panic!("unexpected result: {other:?}"),
    }
}

#[test]
fn batch_rejects_duplicate_identities() {
    let books = vec![info("https://example.test/a"), info("https://example.test/a")];
    let scripts = vec![ok_script(vec![]), ok_script(vec![])];
    match run_batch(books, scripts, "/tmp/out", 2) {
        Err(TransferError::Precondition(m)) => assert_eq!(m, "Duplicate download identity"),
        other => panic!("unexpected result: {other:?}"),
    }
}

#[test]
fn one_bad_status_fails_batch_but_not_siblings() {
    let books = vec![
        info("https://example.test/a.pdf"),
        info("https://example.test/b.pdf"),
        info("https://example.test/c.pdf"),
    ];
    let mut bad = ok_script(vec![]);
    bad.response_ok = false;
    bad.status_detail = "500".to_string();
    let scripts = vec![
        ok_script(vec![StreamStep::Chunk(100)]),
        bad,
        ok_script(vec![StreamStep::Chunk(50), StreamStep::Chunk(50)]),
    ];
    let runner = run_batch(books, scripts, "/tmp/out", 2).unwrap();
    assert_eq!(runner.items.len(), 3);
    assert!(runner.items[0].succeeded);
    assert!(!runner.items[1].succeeded);
    assert!(runner.items[2].succeeded);
    assert!(matches!(
        runner.items[0].machine.as_ref().unwrap().outcome,
        Some(TransferOutcome::Completed(_))
    ));
    assert!(matches!(
        runner.items[1].machine.as_ref().unwrap().outcome,
        Some(TransferOutcome::Failed(_))
    ));
    let event = runner.terminal_event();
    assert!(!event.all_succeeded);
    assert_eq!(event.download_path, "/tmp/out");
    assert!(!runner.aggrelimiter_result().all_succeeded);
}

#[test]
fn all_good_batch_reports_success() {
    let books = vec![info("https://example.test/a.pdf"), info("https://example.test/b.pdf")];
    let scripts = vec![ok_script(vec![StreamStep::Chunk(100)]), ok_script(vec![])];
    let runner = run_batch(books, scripts, "/tmp/out", 1).unwrap();
    assert!(runner.terminal_event().all_succeeded);
    assert_eq!(runner.limiter.active, 0);
}

#[test]
fn cancelled_item_counts_as_failure() {
    let books = vec![info("https://example.test/a.pdf"), info("https://example.test/b.pdf")];
    let mut cancelled = ok_script(vec![StreamStep::Chunk(10)]);
    cancelled.cancel_before_start = true;
    let scripts = vec![cancelled, ok_script(vec![])];
    let runner = run_batch(books, scripts, "/tmp/out", 2).unwrap();
    assert!(!runner.items[0].succeeded);
    assert!(matches!(
        runner.items[0].machine.as_ref().unwrap().outcome,
        Some(TransferOutcome::Cancelled)
    ));
    assert!(runner.items[1].succeeded);
    assert!(!runner.terminal_event().all_succeeded);
}

fn manual_runner(urls: &[&str], limit: usize) -> BatchRunner {
    let mut registry = CancellationRegistry::new();
    let mut items = Vec::new();
    for url in urls {
        registry.register(url.to_string(), CancellationHandle::new());
        items.push(ItemState {
            info: info(url),
            script: ok_script(vec![StreamStep::Chunk(10), StreamStep::Chunk(10)]),
            phase: ItemPhase::Waiting,
            machine: None,
            cursor: 0,
            succeeded: false,
        });
    }
    BatchRunner { download_path: "/tmp/out".to_string(), limiter: Limiter::new(limit), registry, items }
}

#[test]
fn limiter_counter_never_exceeds_limit() {
    // instrumented limiter counter: under an adversarial schedule, at no point
    // do more than `limit` transfers hold a permit
    let limit = 2;
    let mut runner = manual_runner(
        &["https://example.test/a", "https://example.test/b", "https://example.test/c"],
        limit,
    );
    // start as many items as the schedule can
    assert!(runner.step(0));
    assert!(runner.limiter.active <= limit);
    assert!(runner.step(1));
    assert!(runner.limiter.active <= limit);
    assert_eq!(runner.limiter.active, 2);
    // the third item cannot take a permit while two run
    assert!(!runner.step(2));
    assert_eq!(runner.items[2].phase, ItemPhase::Waiting);
    assert_eq!(runner.limiter.active, 2);
    // drive item 0 to completion: two chunks, then stream end
    assert!(runner.step(0));
    assert!(runner.limiter.active <= limit);
    assert!(runner.step(0));
    assert!(runner.step(0));
    assert_eq!(runner.items[0].phase, ItemPhase::Done);
    assert_eq!(runner.limiter.active, 1);
    // now the third item can start
    assert!(runner.step(2));
    assert_eq!(runner.items[2].phase, ItemPhase::Running);
    assert_eq!(runner.limiter.active, 2);
    // finish everything and check the permits all came back
    runner.run_all();
    assert_eq!(runner.limiter.active, 0);
    assert!(runner.items.iter().all(|it| it.phase == ItemPhase::Done));
    assert!(runner.aggrelimiter_result().all_succeeded);
}

#[test]
fn limiter_try_acquire_and_release() {
    let mut g = Limiter::new(1);
    assert!(g.try_acquire());
    assert_eq!(g.active, 1);
    assert!(!g.try_acquire());
    assert_eq!(g.active, 1);
    g.release();
    assert_eq!(g.active, 0);
    assert!(g.try_acquire());
}
