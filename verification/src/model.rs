//! The data model: items queued for transfer, runtime settings, terminal
//! statuses, and the record shapes carried by the history stores.

use vstd::prelude::*;

verus! {

/// One item to fetch, produced by an upstream collaborator. Immutable once
/// queued.
pub struct DownloadItem {
    pub url: String,
    pub filename: Option<String>,
    pub title: Option<String>,
    pub type_tag: Option<String>,
    pub headers: Vec<(String, String)>,
}

/// A batch of items handed over by an upstream producer.
pub struct EmitPayload {
    pub dir: Option<String>,
    pub items: Vec<DownloadItem>,
}

/// One transfer: an item bound to a destination directory under a fresh id.
pub struct QueueItem {
    pub id: String,
    pub item: DownloadItem,
    pub dir: String,
}

/// Terminal and live states of a transfer. Live metrics are integers:
/// progress as permille of the declared total, speed in bytes per second,
/// eta in seconds.
#[derive(Debug, PartialEq)]
pub enum DownloadStatus {
    Queued,
    Running {
        progress_permille: u64,
        downloaded: u64,
        total: Option<u64>,
        speed_bps: u64,
        eta_secs: Option<u64>,
    },
    Completed { size: u64, path: String },
    Failed(String),
    Canceled,
}

/// Colour scheme selection carried by the settings.
pub enum Theme {
    Light,
    Dark,
}

/// Runtime settings for the orchestration core.
pub struct Settings {
    pub default_download_dir: String,
    pub max_concurrent: usize,
    pub retries: u32,
    pub backoff_ms: u64,
    pub user_agent: String,
    pub theme: Theme,
    pub language: String,
    pub enable_crash_reports: bool,
    pub enable_logging: bool,
    pub auto_close_downloads: bool,
}

impl Default for Settings {
    /// The defaults: three concurrent transfers, three retries with a one
    /// second base backoff, downloads kept under a `downloads` directory.
    fn default() -> (s: Settings)
        ensures
            s.default_download_dir@ == "downloads"@,
            s.max_concurrent == 3,
            s.retries == 3,
            s.backoff_ms == 1000,
            s.user_agent@ == "ICNX/0.1"@,
            s.theme is Dark,
            s.language@ == "en"@,
            !s.enable_crash_reports,
            !s.enable_logging,
            !s.auto_close_downloads,
    {
        Settings {
            default_download_dir: "downloads".to_owned(),
            max_concurrent: 3,
            retries: 3,
            backoff_ms: 1000,
            user_agent: "ICNX/0.1".to_owned(),
            theme: Theme::Dark,
            language: "en".to_owned(),
            enable_crash_reports: false,
            enable_logging: false,
            auto_close_downloads: false,
        }
    }
}

/// One terminal outcome in the cross-session history.
pub struct DownloadRecord {
    pub id: String,
    pub session_id: String,
    pub url: String,
    pub filename: String,
    pub dir: String,
    pub size: Option<u64>,
    pub status: String,
    pub file_type: Option<String>,
    pub script_name: Option<String>,
    pub source_url: Option<String>,
    pub created_at: i64,
}

/// The legacy flat history: a list of records.
pub struct History {
    pub items: Vec<DownloadRecord>,
}

impl Default for History {
    fn default() -> (h: History)
        ensures
            h.items@.len() == 0,
    {
        History { items: Vec::new() }
    }
}

/// A request for a single ad-hoc transfer.
pub struct QuickDownloadRequest {
    pub url: String,
    pub destination: String,
    pub filename: Option<String>,
    pub session_id: Option<String>,
    pub script_name: Option<String>,
    pub source_url: Option<String>,
    pub file_type: Option<String>,
}

/// One progress tick as handed to the event sink, with integer metrics.
pub struct DownloadProgress {
    pub progress_permille: u64,
    pub downloaded: u64,
    pub total: Option<u64>,
    pub speed_bps: u64,
    pub eta_secs: Option<u64>,
    pub status: String,
    pub url: String,
    pub filename: String,
    pub error: Option<String>,
}

/// One session row of the history view: title, script, size and outcome.
pub struct DownloadSessionSummary {
    pub session_id: String,
    pub title: String,
    pub subtitle: String,
    pub total_size: String,
    pub status: String,
    pub created_at: i64,
}

/// One record of a session as presented in the detail view.
pub struct DownloadRecordView {
    pub id: String,
    pub url: String,
    pub filename: String,
    pub path: String,
    pub size: Option<u64>,
    pub status: String,
    pub file_type: Option<String>,
}

/// A choice offered by a producer-script option.
pub struct SelectOption {
    pub label: String,
    pub value: String,
}

/// A producer-script option that is only relevant when another option holds a
/// given value.
pub struct DependsOn {
    pub option: String,
    pub value: String,
}

} // verus!
