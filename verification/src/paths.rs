//! Locations of the persisted files: the per-session progress stores, the
//! shared history and scrape stores under the `.icnx` subdirectory, and the
//! flat settings and legacy history files.

use vstd::prelude::*;

use crate::transfer::{path_join, spec_path_join};

verus! {

/// The per-session progress store under a base directory.
pub open spec fn spec_session_db_path(base: Seq<char>, session_id: Seq<char>) -> Seq<char> {
    base + "/.icnx/session-"@ + session_id + ".db"@
}

/// Builds the per-session progress store path.
pub fn session_db_path(base: &str, session_id: &str) -> (r: String)
    ensures
        r@ == spec_session_db_path(base@, session_id@),
{
    let mut r = base.to_owned();
    r.append("/.icnx/session-");
    r.append(session_id);
    r.append(".db");
    r
}

/// The shared history store under a base directory.
pub open spec fn spec_history_db_path(base: Seq<char>) -> Seq<char> {
    base + "/.icnx/history.db"@
}

/// Builds the shared history store path.
pub fn history_db_path(base: &str) -> (r: String)
    ensures
        r@ == spec_history_db_path(base@),
{
    let mut r = base.to_owned();
    r.append("/.icnx/history.db");
    r
}

/// The shared scrape cache under a base directory.
pub open spec fn spec_scrape_db_path(base: Seq<char>) -> Seq<char> {
    base + "/.icnx/scrape.db"@
}

/// Builds the shared scrape cache path.
pub fn scrape_db_path(base: &str) -> (r: String)
    ensures
        r@ == spec_scrape_db_path(base@),
{
    let mut r = base.to_owned();
    r.append("/.icnx/scrape.db");
    r
}

/// The settings file under the application data directory.
pub fn settings_path(base: &str) -> (r: String)
    ensures
        r@ == base@ + "/settings.json"@,
{
    let mut r = base.to_owned();
    r.append("/settings.json");
    r
}

/// The legacy flat history file under the application data directory.
pub fn history_path(base: &str) -> (r: String)
    ensures
        r@ == base@ + "/history.json"@,
{
    let mut r = base.to_owned();
    r.append("/history.json");
    r
}

/// The store a session read goes to: the application-data store when it
/// exists, else the destination store when it exists, else the
/// application-data one when that directory is known at all, else the
/// destination store.
pub open spec fn spec_choose_session_db(
    app_base: Option<Seq<char>>,
    app_exists: bool,
    destination: Seq<char>,
    dest_exists: bool,
    session_id: Seq<char>,
) -> Seq<char> {
    match app_base {
        Some(b) => {
            if destination.len() > 0 {
                if app_exists {
                    spec_session_db_path(b, session_id)
                } else if dest_exists {
                    spec_session_db_path(destination, session_id)
                } else {
                    spec_session_db_path(b, session_id)
                }
            } else {
                spec_session_db_path(b, session_id)
            }
        },
        None => spec_session_db_path(destination, session_id),
    }
}

/// Chooses which per-session store a read opens, from the candidate bases
/// and whether each candidate file exists on disk.
pub fn choose_session_db_path(
    app_base: Option<&String>,
    app_exists: bool,
    destination: &str,
    dest_exists: bool,
    session_id: &str,
) -> (r: String)
    ensures
        r@ == spec_choose_session_db(
            match app_base {
                Some(b) => Some(b@),
                None => None,
            },
            app_exists,
            destination@,
            dest_exists,
            session_id@,
        ),
{
    match app_base {
        Some(b) => {
            if destination.unicode_len() > 0 {
                if app_exists {
                    session_db_path(b.as_str(), session_id)
                } else if dest_exists {
                    session_db_path(destination, session_id)
                } else {
                    session_db_path(b.as_str(), session_id)
                }
            } else {
                session_db_path(b.as_str(), session_id)
            }
        },
        None => session_db_path(destination, session_id),
    }
}

/// The resting path of a record's file: its directory joined with its name.
pub fn record_file_path(dir: &str, filename: &str) -> (r: String)
    ensures
        r@ == spec_path_join(dir@, filename@),
{
    path_join(dir, filename)
}

} // verus!
