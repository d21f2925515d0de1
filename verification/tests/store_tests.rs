use icnx::model::{DownloadRecord, History};
use icnx::session::{migrate_history, remove_session_records, session_details, summarize_history, summarize_session};
use icnx::store::{HistoryStore, ScrapeStore, ScrapeRow, SessionDb};
use icnx::writer::{HistoryJob, HistoryWriter, ProgressJob, ProgressWriter, ScrapeJob, ScrapeWriter};

fn record(id: &str, session: &str, status: &str, size: Option<u64>, created_at: i64) -> DownloadRecord {
    DownloadRecord {
        id: id.to_string(),
        session_id: session.to_string(),
        url: format!("https://example.com/{}", id),
        filename: format!("{}.bin", id),
        dir: "/tmp/out".to_string(),
        size,
        status: status.to_string(),
        file_type: None,
        script_name: None,
        source_url: None,
        created_at,
    }
}

#[test]
fn test_session_db_upsert_and_read() {
    let mut db = SessionDb::open("session-test.db".to_string());
    db.upsert_progress("https://example.com/a", "a.jpg", 500, 512, Some(1024), 100, Some(5), "downloading", 1);
    db.upsert_progress("https://example.com/b", "b.jpg", 1000, 2048, Some(2048), 200, None, "completed", 2);

    let rows = db.read_all();
    assert!(rows.len() >= 2);
    let mut found_a = false;
    for r in rows {
        if r.url == "https://example.com/a" {
            assert_eq!(r.filename, "a.jpg");
            found_a = true;
        }
    }
    assert!(found_a);
}

#[test]
fn test_progress_upsert_replaces_by_url() {
    let mut db = SessionDb::open("p.db".to_string());
    db.upsert_progress("u", "f", 100, 10, Some(100), 1, None, "downloading", 1);
    db.upsert_progress("u", "f", 200, 20, Some(100), 2, None, "downloading", 2);
    assert_eq!(db.len(), 1);
    let rows = db.read_all();
    assert_eq!(rows.len(), 1);
    assert_eq!(rows[0].downloaded, 20);
    assert_eq!(rows[0].updated_at, 2);
}

#[test]
fn test_progress_read_newest_first() {
    let mut db = SessionDb::open("p.db".to_string());
    db.upsert_progress("u1", "f1", 100, 10, None, 1, None, "downloading", 5);
    db.upsert_progress("u2", "f2", 100, 10, None, 1, None, "downloading", 9);
    db.upsert_progress("u3", "f3", 100, 10, None, 1, None, "downloading", 7);
    let rows = db.read_all();
    assert_eq!(rows.len(), 3);
    assert_eq!(rows[0].url, "u2");
    assert_eq!(rows[1].url, "u3");
    assert_eq!(rows[2].url, "u1");
}

#[test]
fn test_history_same_id_replaces() {
    let mut store = HistoryStore::open("history.db".to_string());
    store.insert_or_replace(record("id-1", "s1", "Failed", None, 10));
    store.insert_or_replace(record("id-1", "s1", "Completed", Some(42), 11));
    assert_eq!(store.len(), 1);
    let rows = store.read_history();
    assert_eq!(rows.len(), 1);
    assert_eq!(rows[0].status, "Completed");
    assert_eq!(rows[0].size, Some(42));
}

#[test]
fn test_history_purge() {
    let mut store = HistoryStore::open("history.db".to_string());
    store.insert_or_replace(record("id-1", "s1", "Completed", Some(1), 10));
    store.insert_or_replace(record("id-2", "s1", "Completed", Some(1), 20));
    store.purge(Some(15));
    let rows = store.read_history();
    assert_eq!(rows.len(), 1);
    assert_eq!(rows[0].id, "id-2");
    store.purge(None);
    assert_eq!(store.read_history().len(), 0);
}

#[test]
fn test_scrape_store_filters_by_session_key() {
    let mut store = ScrapeStore::open("scrape.db".to_string());
    store.upsert(ScrapeRow {
        session_key: "prod::https://a".to_string(),
        url: "https://a/1".to_string(),
        filename: None,
        title: Some("one".to_string()),
        type_tag: None,
        meta: None,
        updated_at: 1,
    });
    store.upsert(ScrapeRow {
        session_key: "prod::https://b".to_string(),
        url: "https://b/1".to_string(),
        filename: None,
        title: Some("two".to_string()),
        type_tag: None,
        meta: None,
        updated_at: 2,
    });
    let rows = store.read_scrape_items("prod::https://a");
    assert_eq!(rows.len(), 1);
    assert_eq!(rows[0].url, "https://a/1");
}

#[test]
fn test_progress_writer_single_writer_order() {
    let mut w = ProgressWriter::new();
    w.enqueue(ProgressJob {
        db_path: "s.db".to_string(),
        url: "u".to_string(),
        filename: "f".to_string(),
        progress_permille: 100,
        downloaded: 10,
        total: Some(100),
        speed_bps: 5,
        eta_secs: None,
        status: "downloading".to_string(),
    });
    w.enqueue(ProgressJob {
        db_path: "s.db".to_string(),
        url: "u".to_string(),
        filename: "f".to_string(),
        progress_permille: 200,
        downloaded: 20,
        total: Some(100),
        speed_bps: 6,
        eta_secs: None,
        status: "downloading".to_string(),
    });
    assert!(w.apply_next(1));
    assert!(w.apply_next(2));
    assert!(!w.apply_next(3));
    let db = w.store_at("s.db").expect("store opened");
    let rows = db.read_all();
    assert_eq!(rows.len(), 1);
    assert_eq!(rows[0].downloaded, 20);
    assert_eq!(rows[0].progress_permille, 200);
}

#[test]
fn test_history_writer_applies_record() {
    let mut w = HistoryWriter::new();
    w.enqueue(HistoryJob { db_path: "h.db".to_string(), rec: record("id-9", "s", "Completed", Some(7), 3) });
    assert!(w.apply_next());
    let db = w.store_at("h.db").expect("store opened");
    let rows = db.read_history();
    assert_eq!(rows.len(), 1);
    assert_eq!(rows[0].id, "id-9");
}

#[test]
fn test_scrape_writer_applies_record() {
    let mut w = ScrapeWriter::new();
    w.enqueue(ScrapeJob {
        db_path: "sc.db".to_string(),
        session_key: "k".to_string(),
        url: "https://x".to_string(),
        filename: None,
        title: None,
        type_tag: None,
        meta: Some("{}".to_string()),
    });
    assert!(w.apply_next(4));
    let db = w.store_at("sc.db").expect("store opened");
    let rows = db.read_scrape_items("k");
    assert_eq!(rows.len(), 1);
    assert_eq!(rows[0].updated_at, 4);
}

#[test]
fn test_summarize_session_mixed() {
    let group = vec![
        record("a", "s1", "Completed", Some(1024), 10),
        record("b", "s1", "Failed", None, 20),
    ];
    let s = summarize_session(&group);
    assert_eq!(s.session_id, "s1");
    assert_eq!(s.status, "Mixed");
    assert_eq!(s.total_size, "1.00 KB");
    assert_eq!(s.created_at, 10);
}

#[test]
fn test_summarize_session_statuses() {
    let all_done = vec![record("a", "s", "Completed", Some(1), 1)];
    assert_eq!(summarize_session(&all_done).status, "Completed");
    let all_failed = vec![record("a", "s", "Failed", None, 1)];
    assert_eq!(summarize_session(&all_failed).status, "Failed");
    let pending = vec![record("a", "s", "Queued", None, 1)];
    assert_eq!(summarize_session(&pending).status, "Incomplete");
}

#[test]
fn test_summarize_history_newest_first() {
    let items = vec![
        record("a", "s1", "Completed", Some(1), 10),
        record("b", "s2", "Completed", Some(1), 30),
        record("c", "s1", "Failed", None, 20),
    ];
    let summaries = summarize_history(&items);
    assert_eq!(summaries.len(), 2);
    assert_eq!(summaries[0].session_id, "s2");
    assert_eq!(summaries[1].session_id, "s1");
    assert_eq!(summaries[1].status, "Mixed");
}

#[test]
fn test_session_details_paths() {
    let items = vec![
        record("a", "s1", "Completed", Some(1), 10),
        record("b", "s2", "Completed", Some(1), 20),
    ];
    let views = session_details(&items, "s1");
    assert_eq!(views.len(), 1);
    assert_eq!(views[0].id, "a");
    assert_eq!(views[0].path, "/tmp/out/a.bin");
}

#[test]
fn test_remove_session_records() {
    let mut history = History {
        items: vec![
            record("a", "s1", "Completed", Some(1), 10),
            record("b", "s2", "Completed", Some(1), 20),
        ],
    };
    remove_session_records(&mut history, "s1");
    assert_eq!(history.items.len(), 1);
    assert_eq!(history.items[0].session_id, "s2");
}

#[test]
fn test_migrate_history() {
    let mut store = HistoryStore::open("h.db".to_string());
    let legacy = History {
        items: vec![
            record("a", "s1", "Completed", Some(1), 10),
            record("b", "s2", "Failed", None, 20),
        ],
    };
    migrate_history(&mut store, &legacy);
    assert_eq!(store.len(), 2);
}
