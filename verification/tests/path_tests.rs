use icnx::model::Settings;
use icnx::paths::{
    choose_session_db_path, history_db_path, history_path, scrape_db_path, session_db_path,
    settings_path,
};

#[test]
fn test_store_paths() {
    assert_eq!(session_db_path("/data", "abc"), "/data/.icnx/session-abc.db");
    assert_eq!(history_db_path("/data"), "/data/.icnx/history.db");
    assert_eq!(scrape_db_path("/data"), "/data/.icnx/scrape.db");
    assert_eq!(settings_path("/data"), "/data/settings.json");
    assert_eq!(history_path("/data"), "/data/history.json");
}

#[test]
fn test_choose_session_db_path() {
    let app = "/data".to_string();
    // the application-data store wins when it exists
    assert_eq!(
        choose_session_db_path(Some(&app), true, "/dest", false, "s"),
        "/data/.icnx/session-s.db"
    );
    // else the destination store when that one exists
    assert_eq!(
        choose_session_db_path(Some(&app), false, "/dest", true, "s"),
        "/dest/.icnx/session-s.db"
    );
    // else the application-data one when that directory is known at all
    assert_eq!(
        choose_session_db_path(Some(&app), false, "/dest", false, "s"),
        "/data/.icnx/session-s.db"
    );
    // with no application directory the destination store is used
    assert_eq!(
        choose_session_db_path(None, false, "/dest", false, "s"),
        "/dest/.icnx/session-s.db"
    );
}

#[test]
fn test_settings_defaults() {
    let s = Settings::default();
    assert_eq!(s.default_download_dir, "downloads");
    assert_eq!(s.max_concurrent, 3);
    assert_eq!(s.retries, 3);
    assert_eq!(s.backoff_ms, 1000);
    assert_eq!(s.user_agent, "ICNX/0.1");
    assert_eq!(s.language, "en");
    assert!(!s.enable_crash_reports);
    assert!(!s.enable_logging);
    assert!(!s.auto_close_downloads);
}
