use icnx::downloader::{retry_decide, pre_attempt, AttemptResult, Downloader, NextMove};
use icnx::limiter::Limiter;
use icnx::model::{DownloadItem, DownloadStatus, QueueItem, QuickDownloadRequest, Settings};
use icnx::registry::{
    cancel_session, has_session_token, is_session_paused, register_session_token,
    remove_session_pause_flag, set_session_paused, unregister_session_token, PauseRegistry,
    SessionRegistry,
};
use icnx::session::{
    build_completed_record, build_failed_record, build_history_record, finish_session,
    make_queue_item, quick_download_outcome, start_session,
};
use icnx::transfer::{poll_gate, Gate, TransferEvent, TransferExec};
use tokio_util::sync::CancellationToken;

fn item(url: &str) -> DownloadItem {
    DownloadItem {
        url: url.to_string(),
        filename: None,
        title: None,
        type_tag: None,
        headers: Vec::new(),
    }
}

fn go(data: Option<Vec<u8>>) -> TransferEvent {
    TransferEvent { cancelled: false, paused: false, data }
}

#[test]
fn test_pause_flag_lifecycle() {
    let mut reg = PauseRegistry::new();
    let sid = "unit-test-session-1";
    set_session_paused(&mut reg, sid, true);
    assert!(is_session_paused(&reg, sid));
    set_session_paused(&mut reg, sid, false);
    assert!(!is_session_paused(&reg, sid));
    remove_session_pause_flag(&mut reg, sid);
    assert!(!is_session_paused(&reg, sid));
}

#[test]
fn test_session_token_registry() {
    let mut reg = SessionRegistry::new();
    let sid = "unit-test-session-2";
    let token = CancellationToken::new();
    register_session_token(&mut reg, sid, token.clone());
    let cancelled = cancel_session(&mut reg, sid);
    assert!(cancelled, "expected cancel_session to find and cancel token");
    assert!(token.is_cancelled());
    let cancelled_again = cancel_session(&mut reg, sid);
    assert!(!cancelled_again, "expected second cancel to return false");
    register_session_token(&mut reg, sid, CancellationToken::new());
    unregister_session_token(&mut reg, sid);
    assert!(!has_session_token(&reg, sid));
}

#[test]
fn test_transfer_basic_success() {
    let mut t = TransferExec::begin(None);
    assert_eq!(t.step(&go(Some(vec![b'a'; 1024])), "/tmp/d", "file"), None);
    match t.step(&go(None), "/tmp/d", "file") {
        Some(DownloadStatus::Completed { size, path }) => {
            assert_eq!(size, 1024);
            assert_eq!(path, "/tmp/d/file");
        }
        other => panic!("expected completed, got {:?}", other.is_some()),
    }
}

#[test]
fn test_transfer_incomplete_detected() {
    // Declared 2048 bytes, only 1024 received: the failure cites both.
    let mut t = TransferExec::begin(Some(2048));
    assert_eq!(t.step(&go(Some(vec![b'c'; 1024])), "/tmp/d", "file"), None);
    match t.step(&go(None), "/tmp/d", "file") {
        Some(DownloadStatus::Failed(msg)) => {
            assert_eq!(msg, "Incomplete download: expected 2048 bytes, got 1024 bytes");
            assert!(msg.contains("2048"));
            assert!(msg.contains("1024"));
            assert!(msg.contains("Incomplete"));
        }
        other => panic!("expected failure, got {:?}", other.is_some()),
    }
}

#[test]
fn test_transfer_exact_size_completes() {
    let mut t = TransferExec::begin(Some(1024));
    assert_eq!(t.step(&go(Some(vec![b'a'; 1024])), "/tmp/d", "f"), None);
    match t.step(&go(None), "/tmp/d", "f") {
        Some(DownloadStatus::Completed { size, .. }) => assert_eq!(size, 1024),
        _ => panic!("expected completed"),
    }
}

#[test]
fn test_transfer_pause_halts_growth() {
    let mut t = TransferExec::begin(Some(2048));
    assert_eq!(t.step(&go(Some(vec![b'a'; 512])), "/tmp/d", "f"), None);
    assert_eq!(t.downloaded, 512);
    // Paused passes read nothing and leave the byte count as it is.
    let paused = TransferEvent { cancelled: false, paused: true, data: None };
    assert_eq!(t.step(&paused, "/tmp/d", "f"), None);
    assert_eq!(t.step(&paused, "/tmp/d", "f"), None);
    assert_eq!(t.downloaded, 512);
    // Resumed: growth continues where it stopped.
    assert_eq!(t.step(&go(Some(vec![b'a'; 512])), "/tmp/d", "f"), None);
    assert_eq!(t.downloaded, 1024);
}

#[test]
fn test_transfer_cancelled() {
    let mut t = TransferExec::begin(None);
    assert_eq!(t.step(&go(Some(vec![b'a'; 10])), "/tmp/d", "f"), None);
    let cancel = TransferEvent { cancelled: true, paused: false, data: None };
    match t.step(&cancel, "/tmp/d", "f") {
        Some(DownloadStatus::Canceled) => {}
        _ => panic!("expected canceled"),
    }
}

#[test]
fn test_poll_gate_order() {
    assert_eq!(poll_gate(true, true), Gate::CancelNow);
    assert_eq!(poll_gate(true, false), Gate::CancelNow);
    assert_eq!(poll_gate(false, true), Gate::Wait);
    assert_eq!(poll_gate(false, false), Gate::Read);
}

#[test]
fn test_retry_once_then_success() {
    // HTTP 500 on the first attempt, then 200 with 512 bytes: one backoff of
    // the base delay, then completion with the successful byte count.
    match retry_decide(0, AttemptResult::Errored("HTTP 500".to_string()), 1, 10) {
        NextMove::Backoff(d) => assert_eq!(d, 10),
        NextMove::Stop(_) => panic!("expected a backoff"),
    }
    let done = AttemptResult::Finished(DownloadStatus::Completed {
        size: 512,
        path: "/tmp/d/f".to_string(),
    });
    match retry_decide(1, done, 1, 10) {
        NextMove::Stop(DownloadStatus::Completed { size, .. }) => assert_eq!(size, 512),
        _ => panic!("expected completion"),
    }
}

#[test]
fn test_retry_exhausted_fails_with_message() {
    match retry_decide(1, AttemptResult::Errored("HTTP 500".to_string()), 1, 10) {
        NextMove::Stop(DownloadStatus::Failed(msg)) => assert_eq!(msg, "HTTP 500"),
        _ => panic!("expected failure after retries"),
    }
}

#[test]
fn test_pre_attempt_cancellation_short_circuits() {
    match pre_attempt(true) {
        Some(DownloadStatus::Canceled) => {}
        _ => panic!("expected canceled"),
    }
    assert!(pre_attempt(false).is_none());
}

#[test]
fn test_limiter_bounds_concurrency() {
    let mut l = Limiter::new(2);
    assert!(l.try_acquire());
    assert!(l.try_acquire());
    assert!(!l.try_acquire());
    l.release();
    assert!(l.try_acquire());
}

#[test]
fn test_limiter_minimum_capacity() {
    let mut l = Limiter::new(0);
    assert!(l.try_acquire());
    assert!(!l.try_acquire());
}

#[test]
fn test_downloader_concurrency() {
    let settings = Settings::default();
    let dl = Downloader::new(&settings);
    assert_eq!(dl.semaphore.capacity, 3);
    let dl2 = Downloader::with_concurrency(&settings, 0);
    assert_eq!(dl2.semaphore.capacity, 1);
    dl.cancel_all();
    assert!(dl.cancel_token.is_cancelled());
}

#[test]
fn test_session_lifecycle() {
    let mut sreg = SessionRegistry::new();
    let mut preg = PauseRegistry::new();
    let (sid, token) = start_session(&mut sreg);
    assert_eq!(sid.len(), 36);
    assert!(has_session_token(&sreg, sid.as_str()));
    set_session_paused(&mut preg, sid.as_str(), true);
    finish_session(&mut sreg, &mut preg, sid.as_str());
    assert!(!has_session_token(&sreg, sid.as_str()));
    assert!(!is_session_paused(&preg, sid.as_str()));
    assert!(token.is_cancelled());
    // a second cancel after teardown reports not found
    assert!(!cancel_session(&mut sreg, sid.as_str()));
}

#[test]
fn test_make_queue_item_fresh_id() {
    let q = make_queue_item(item("https://example.com/x"), "/tmp/d".to_string());
    assert_eq!(q.id.len(), 36);
    let q2 = make_queue_item(item("https://example.com/x"), "/tmp/d".to_string());
    assert_ne!(q.id, q2.id);
}

#[test]
fn test_build_history_record_sizes() {
    let q = QueueItem {
        id: "t".to_string(),
        item: item("https://example.com/a/file.bin"),
        dir: "/tmp/d".to_string(),
    };
    let done = build_history_record(&q, "sid", "completed", 99);
    assert_eq!(done.size, Some(99));
    assert_eq!(done.filename, "file.bin");
    assert_eq!(done.id.len(), 36);
    let failed = build_history_record(&q, "sid", "failed", 99);
    assert_eq!(failed.size, None);
}

#[test]
fn test_build_failed_record() {
    let req = QuickDownloadRequest {
        url: "https://example.com/thing".to_string(),
        destination: "/tmp/d".to_string(),
        filename: None,
        session_id: Some("s-1".to_string()),
        script_name: None,
        source_url: None,
        file_type: None,
    };
    let rec = build_failed_record(&req);
    assert_eq!(rec.status, "Failed");
    assert_eq!(rec.session_id, "s-1");
    assert_eq!(rec.size, None);
    assert_eq!(rec.filename, "thing.bin");
}

#[test]
fn test_build_completed_record() {
    let req = QuickDownloadRequest {
        url: "https://example.com/file.png".to_string(),
        destination: "/tmp/d".to_string(),
        filename: None,
        session_id: None,
        script_name: Some("collector".to_string()),
        source_url: Some("https://example.com/page".to_string()),
        file_type: Some("png".to_string()),
    };
    let rec = build_completed_record(&req, "file.png", 512);
    assert_eq!(rec.status, "Completed");
    assert_eq!(rec.size, Some(512));
    assert_eq!(rec.filename, "file.png");
    assert_eq!(rec.session_id.len(), 36);
    assert_eq!(rec.script_name, Some("collector".to_string()));
}

#[test]
fn test_quick_download_outcome() {
    let ok = quick_download_outcome(DownloadStatus::Completed {
        size: 1,
        path: "p".to_string(),
    });
    assert_eq!(ok.unwrap(), "Download completed successfully");
    let failed = quick_download_outcome(DownloadStatus::Failed("boom".to_string()));
    assert_eq!(failed.unwrap_err(), "Download failed: boom");
    let cancelled = quick_download_outcome(DownloadStatus::Canceled);
    assert_eq!(cancelled.unwrap_err(), "Download was canceled");
    let queued = quick_download_outcome(DownloadStatus::Queued);
    assert_eq!(queued.unwrap_err(), "Download is in progress");
}
