//! The session orchestrator and the history views: session start, fan-out
//! and teardown; the progress payloads and history records a transfer
//! reports; and the summaries and details served from the recorded history.

use vstd::prelude::*;

use crate::filename::{determine_filename, spec_determine_filename};
use crate::model::{
    DownloadItem, DownloadProgress, DownloadRecord, DownloadRecordView, DownloadSessionSummary,
    DownloadStatus, History, QueueItem, QuickDownloadRequest,
};
use crate::paths::{session_db_path, spec_session_db_path, history_db_path, spec_history_db_path};
use crate::progress::{format_size, spec_format_size};
use crate::registry::{
    cancel_session, register_session_token, remove_session_pause_flag, unregister_session_token,
    PauseRegistry, SessionRegistry,
};
use crate::store::{clone_opt_string, HistoryStore};
use crate::table::Table;
use crate::table::TableRow;
use crate::strutil::{after_last, after_last_char, str_eq};
use crate::paths::record_file_path;
use crate::transfer::spec_path_join;
use crate::trusted::fresh_id;
use crate::trusted::now_timestamp;

verus! {

/// Starts a session: generates its id, creates and registers its
/// cancellation signal, and hands both back for the fan-out.
pub fn start_session(reg: &mut SessionRegistry) -> (r: (
    String,
    tokio_util::sync::CancellationToken,
))
    requires
        old(reg).wf(),
    ensures
        final(reg).wf(),
        final(reg).ids() == old(reg).ids().insert(r.0@),
        r.0@.len() == 36,
{
    let sid = fresh_id();
    let token = tokio_util::sync::CancellationToken::new();
    register_session_token(reg, sid.as_str(), token.clone());
    (sid, token)
}

/// Binds an item to its destination under a fresh transfer id.
pub fn make_queue_item(item: DownloadItem, dir: String) -> (q: QueueItem)
    ensures
        q.item == item,
        q.dir == dir,
        q.id@.len() == 36,
{
    QueueItem { id: fresh_id(), item, dir }
}

/// Tears a finished session down: cancels what is still registered (a
/// no-op when nothing is), unregisters the cancellation signal, and removes
/// the pause flag. Afterwards neither registry knows the id.
pub fn finish_session(sreg: &mut SessionRegistry, preg: &mut PauseRegistry, session_id: &str)
    requires
        old(sreg).wf(),
        old(preg).wf(),
    ensures
        final(sreg).wf(),
        final(preg).wf(),
        final(sreg).ids() == old(sreg).ids().remove(session_id@),
        !final(sreg).ids().contains(session_id@),
        final(preg)@ == old(preg)@.remove(session_id@),
        !final(preg)@.dom().contains(session_id@),
{
    let _ = cancel_session(sreg, session_id);
    unregister_session_token(sreg, session_id);
    remove_session_pause_flag(preg, session_id);
    proof {
        assert(final(sreg).ids() =~= old(sreg).ids().remove(session_id@));
    }
}

/// The name a transfer is shown and recorded under: the item's explicit
/// filename, else the last path segment of its url.
pub open spec fn spec_display_filename(item: DownloadItem) -> Seq<char> {
    match item.filename {
        Some(f) => f@,
        None => after_last(item.url@, '/'),
    }
}

/// The name a transfer is shown and recorded under.
pub fn display_filename(item: &DownloadItem) -> (r: String)
    ensures
        r@ == spec_display_filename(*item),
{
    match &item.filename {
        Some(f) => f.clone(),
        None => after_last_char(item.url.as_str(), '/'),
    }
}

/// Whether a status is terminal and so lands in the history store.
pub open spec fn is_terminal_status(s: Seq<char>) -> bool {
    s == "completed"@ || s == "failed"@ || s == "cancelled"@
}

/// Whether a progress report with this status also records history.
pub fn should_record_history(status: &str) -> (r: bool)
    ensures
        r == is_terminal_status(status@),
{
    str_eq(status, "completed") || str_eq(status, "failed") || str_eq(status, "cancelled")
}

/// The per-session store a progress report is written to: under the
/// application data directory when one is known, else under the transfer's
/// destination.
pub fn progress_db_target(app_base: Option<&String>, q_dir: &str, session_id: &str) -> (r: String)
    ensures
        r@ == match app_base {
            Some(b) => spec_session_db_path(b@, session_id@),
            None => spec_session_db_path(q_dir@, session_id@),
        },
{
    match app_base {
        Some(b) => session_db_path(b.as_str(), session_id),
        None => session_db_path(q_dir, session_id),
    }
}

/// The history store a terminal report is written to, chosen the same way.
pub fn history_db_target(app_base: Option<&String>, q_dir: &str) -> (r: String)
    ensures
        r@ == match app_base {
            Some(b) => spec_history_db_path(b@),
            None => spec_history_db_path(q_dir@),
        },
{
    match app_base {
        Some(b) => history_db_path(b.as_str()),
        None => history_db_path(q_dir),
    }
}

/// The payload of one progress tick for the event sink.
pub fn build_progress_payload(
    q: &QueueItem,
    progress_permille: u64,
    downloaded: u64,
    total: Option<u64>,
    speed_bps: u64,
    eta_secs: Option<u64>,
    status: &str,
    error: Option<String>,
) -> (r: DownloadProgress)
    ensures
        r.progress_permille == progress_permille,
        r.downloaded == downloaded,
        r.total == total,
        r.speed_bps == speed_bps,
        r.eta_secs == eta_secs,
        r.status@ == status@,
        r.url == q.item.url,
        r.filename@ == spec_display_filename(q.item),
        r.error == error,
{
    DownloadProgress {
        progress_permille,
        downloaded,
        total,
        speed_bps,
        eta_secs,
        status: status.to_owned(),
        url: q.item.url.clone(),
        filename: display_filename(&q.item),
        error,
    }
}

/// The history record a terminal report leaves: a fresh id, the transfer's
/// url, display name and destination, and the byte count when it completed.
pub fn build_history_record(
    q: &QueueItem,
    session_id: &str,
    status: &str,
    downloaded: u64,
) -> (r: DownloadRecord)
    ensures
        r.id@.len() == 36,
        r.session_id@ == session_id@,
        r.url == q.item.url,
        r.filename@ == spec_display_filename(q.item),
        r.dir == q.dir,
        r.size == if status@ == "completed"@ {
            Some(downloaded)
        } else {
            None::<u64>
        },
        r.status@ == status@,
        r.file_type == q.item.type_tag,
        r.script_name is None,
        r.source_url is None,
{
    let size: Option<u64> = if str_eq(status, "completed") {
        Some(downloaded)
    } else {
        None
    };
    DownloadRecord {
        id: fresh_id(),
        session_id: session_id.to_owned(),
        url: q.item.url.clone(),
        filename: display_filename(&q.item),
        dir: q.dir.clone(),
        size,
        status: status.to_owned(),
        file_type: clone_opt_string(&q.item.type_tag),
        script_name: None,
        source_url: None,
        created_at: now_timestamp(),
    }
}

/// The record left for a transfer that failed before completing.
pub fn build_failed_record(request: &QuickDownloadRequest) -> (r: DownloadRecord)
    ensures
        r.id@.len() == 36,
        match request.session_id {
            Some(s) => r.session_id == s,
            None => r.session_id@.len() == 36,
        },
        r.url == request.url,
        match request.filename {
            Some(f) => r.filename == f,
            None => r.filename@ == spec_determine_filename(request.url@, ""@),
        },
        r.dir == request.destination,
        r.size is None,
        r.status@ == "Failed"@,
        r.file_type == request.file_type,
        r.script_name == request.script_name,
        r.source_url == request.source_url,
{
    let session_id = match &request.session_id {
        Some(s) => s.clone(),
        None => fresh_id(),
    };
    let filename = match &request.filename {
        Some(f) => f.clone(),
        None => determine_filename(request.url.as_str(), ""),
    };
    DownloadRecord {
        id: fresh_id(),
        session_id,
        url: request.url.clone(),
        filename,
        dir: request.destination.clone(),
        size: None,
        status: "Failed".to_owned(),
        file_type: clone_opt_string(&request.file_type),
        script_name: clone_opt_string(&request.script_name),
        source_url: clone_opt_string(&request.source_url),
        created_at: now_timestamp(),
    }
}

/// The record left for an ad-hoc transfer that completed: the name it was
/// saved under and the bytes received.
pub fn build_completed_record(
    request: &QuickDownloadRequest,
    filename: &str,
    downloaded: u64,
) -> (r: DownloadRecord)
    ensures
        r.id@.len() == 36,
        match request.session_id {
            Some(s) => r.session_id == s,
            None => r.session_id@.len() == 36,
        },
        r.url == request.url,
        r.filename@ == filename@,
        r.dir == request.destination,
        r.size == Some(downloaded),
        r.status@ == "Completed"@,
        r.file_type == request.file_type,
        r.script_name == request.script_name,
        r.source_url == request.source_url,
{
    let session_id = match &request.session_id {
        Some(s) => s.clone(),
        None => fresh_id(),
    };
    DownloadRecord {
        id: fresh_id(),
        session_id,
        url: request.url.clone(),
        filename: filename.to_owned(),
        dir: request.destination.clone(),
        size: Some(downloaded),
        status: "Completed".to_owned(),
        file_type: clone_opt_string(&request.file_type),
        script_name: clone_opt_string(&request.script_name),
        source_url: clone_opt_string(&request.source_url),
        created_at: now_timestamp(),
    }
}

/// The user-facing outcome of an ad-hoc transfer, from its terminal status.
pub fn quick_download_outcome(status: DownloadStatus) -> (r: Result<String, String>)
    ensures
        match status {
            DownloadStatus::Completed { size, path } => r matches Ok(m) && m@
                == "Download completed successfully"@,
            DownloadStatus::Failed(e) => r matches Err(m) && m@ == "Download failed: "@ + e@,
            DownloadStatus::Canceled => r matches Err(m) && m@ == "Download was canceled"@,
            _ => r matches Err(m) && m@ == "Download is in progress"@,
        },
{
    match status {
        DownloadStatus::Completed { size: _, path: _ } => Ok(
            "Download completed successfully".to_owned(),
        ),
        DownloadStatus::Failed(e) => {
            let mut m = "Download failed: ".to_owned();
            m.append(e.as_str());
            Err(m)
        },
        DownloadStatus::Canceled => Err("Download was canceled".to_owned()),
        _ => Err("Download is in progress".to_owned()),
    }
}

/// The total bytes of a group of records: the sum of the known sizes,
/// capped at the largest representable value.
pub open spec fn spec_sum_sizes(s: Seq<DownloadRecord>) -> int
    decreases s.len(),
{
    if s.len() == 0 {
        0
    } else {
        let rest = spec_sum_sizes(s.drop_last());
        let add = match s.last().size {
            Some(v) => v as int,
            None => 0,
        };
        if rest + add > u64::MAX {
            u64::MAX as int
        } else {
            rest + add
        }
    }
}

/// Sums the known sizes of a group of records, saturating.
pub fn sum_sizes(group: &Vec<DownloadRecord>) -> (r: u64)
    ensures
        r == spec_sum_sizes(group@),
{
    let n = group.len();
    let mut acc: u64 = 0;
    let mut i: usize = 0;
    while i < n
        invariant
            i <= n,
            n == group@.len(),
            acc == spec_sum_sizes(group@.subrange(0, i as int)),
        decreases n - i,
    {
        let add: u64 = match group[i].size {
            Some(v) => v,
            None => 0,
        };
        acc = if acc > u64::MAX - add {
            u64::MAX
        } else {
            acc + add
        };
        proof {
            assert(group@.subrange(0, i + 1 as int).drop_last() =~= group@.subrange(0, i as int));
            assert(group@.subrange(0, i + 1 as int).last() == group@[i as int]);
        }
        i += 1;
    }
    proof {
        assert(group@.subrange(0, n as int) =~= group@);
    }
    acc
}

/// The status a session summary reports: Failed when every outcome failed,
/// Completed when every outcome completed, Mixed when failures and
/// successes both occurred, Incomplete otherwise.
pub open spec fn spec_group_status(s: Seq<DownloadRecord>) -> Seq<char> {
    let has_completed = exists|j: int| 0 <= j < s.len() && (#[trigger] s[j]).status@ == "Completed"@;
    let has_failed = exists|j: int| 0 <= j < s.len() && (#[trigger] s[j]).status@ == "Failed"@;
    let has_other = exists|j: int|
        0 <= j < s.len() && (#[trigger] s[j]).status@ != "Completed"@ && s[j].status@ != "Failed"@;
    if has_failed && !has_completed {
        "Failed"@
    } else if has_completed && !has_failed && !has_other {
        "Completed"@
    } else if has_failed && has_completed {
        "Mixed"@
    } else {
        "Incomplete"@
    }
}

/// Reports a group's combined status.
pub fn group_status(group: &Vec<DownloadRecord>) -> (r: String)
    ensures
        r@ == spec_group_status(group@),
{
    proof {
        reveal_strlit("Completed");
        reveal_strlit("Failed");
        assert("Completed"@.len() == 9);
        assert("Failed"@.len() == 6);
        assert("Completed"@ != "Failed"@);
    }
    let n = group.len();
    let mut has_completed = false;
    let mut has_failed = false;
    let mut has_other = false;
    let mut i: usize = 0;
    while i < n
        invariant
            i <= n,
            n == group@.len(),
            has_completed == exists|j: int|
                0 <= j < i && (#[trigger] group@[j]).status@ == "Completed"@,
            has_failed == exists|j: int| 0 <= j < i && (#[trigger] group@[j]).status@ == "Failed"@,
            has_other == exists|j: int|
                0 <= j < i && (#[trigger] group@[j]).status@ != "Completed"@ && group@[j].status@
                    != "Failed"@,
        decreases n - i,
    {
        proof {
            reveal_strlit("Completed");
            reveal_strlit("Failed");
            assert("Completed"@.len() == 9);
            assert("Failed"@.len() == 6);
        }
        if str_eq(group[i].status.as_str(), "Completed") {
            has_completed = true;
            proof {
                assert((group@[i as int]).status@ == "Completed"@);
            }
        } else if str_eq(group[i].status.as_str(), "Failed") {
            has_failed = true;
            proof {
                assert((group@[i as int]).status@ == "Failed"@);
            }
        } else {
            has_other = true;
            proof {
                assert((group@[i as int]).status@ != "Completed"@ && (group@[i as int]).status@
                    != "Failed"@);
            }
        }
        i += 1;
    }
    if has_failed && !has_completed {
        "Failed".to_owned()
    } else if has_completed && !has_failed && !has_other {
        "Completed".to_owned()
    } else if has_failed && has_completed {
        "Mixed".to_owned()
    } else {
        "Incomplete".to_owned()
    }
}

/// The index of the earliest record of a group: the first among those with
/// the smallest creation stamp.
pub open spec fn min_created_idx(s: Seq<DownloadRecord>) -> int
    decreases s.len(),
{
    if s.len() <= 1 {
        0
    } else {
        let j = min_created_idx(s.drop_last());
        if s.last().created_at < s[j].created_at {
            s.len() - 1
        } else {
            j
        }
    }
}

proof fn lemma_min_created_in_range(s: Seq<DownloadRecord>)
    requires
        s.len() > 0,
    ensures
        0 <= min_created_idx(s) < s.len(),
    decreases s.len(),
{
    if s.len() > 1 {
        lemma_min_created_in_range(s.drop_last());
    }
}

/// A summary of one session's records: identified by the session id, titled
/// from its earliest record, sized by the summed bytes, with the combined
/// status.
pub fn summarize_session(group: &Vec<DownloadRecord>) -> (r: DownloadSessionSummary)
    requires
        group@.len() > 0,
    ensures
        r.session_id == group@[0].session_id,
        ({
            let f = group@[min_created_idx(group@)];
            (r.title@ == match f.source_url {
                Some(u) => u@,
                None => f.url@,
            }) && (r.subtitle@ == match f.script_name {
                Some(s) => s@,
                None => "No scrapper used"@,
            }) && r.created_at == f.created_at
        }),
        r.total_size@ == spec_format_size(spec_sum_sizes(group@) as u64),
        r.status@ == spec_group_status(group@),
{
    proof {
        lemma_min_created_in_range(group@);
    }
    let n = group.len();
    let mut best: usize = 0;
    let mut i: usize = 1;
    while i < n
        invariant
            1 <= i <= n,
            n == group@.len(),
            best < i,
            best == min_created_idx(group@.subrange(0, i as int)),
        decreases n - i,
    {
        proof {
            assert(group@.subrange(0, i + 1 as int).drop_last() =~= group@.subrange(0, i as int));
            assert(group@.subrange(0, i + 1 as int).last() == group@[i as int]);
        }
        if group[i].created_at < group[best].created_at {
            best = i;
        }
        i += 1;
    }
    proof {
        assert(group@.subrange(0, n as int) =~= group@);
    }
    let first = &group[best];
    let title = match &first.source_url {
        Some(u) => u.clone(),
        None => first.url.clone(),
    };
    let subtitle = match &first.script_name {
        Some(s) => s.clone(),
        None => "No scrapper used".to_owned(),
    };
    let total = sum_sizes(group);
    DownloadSessionSummary {
        session_id: group[0].session_id.clone(),
        title,
        subtitle,
        total_size: format_size(total),
        status: group_status(group),
        created_at: first.created_at,
    }
}

/// Whether the recorded history mentions a session id.
pub open spec fn spec_has_session(items: Seq<DownloadRecord>, sid: Seq<char>) -> bool {
    exists|i: int| 0 <= i < items.len() && (#[trigger] items[i]).session_id@ == sid
}

/// Whether some group's id is the given one.
pub open spec fn spec_has_group(groups: Seq<Vec<DownloadRecord>>, sid: Seq<char>) -> bool {
    exists|g: int| 0 <= g < groups.len() && (#[trigger] groups[g])@[0].session_id@ == sid
}

/// The total number of records across all groups.
pub open spec fn sum_group_lens(groups: Seq<Vec<DownloadRecord>>) -> int
    decreases groups.len(),
{
    if groups.len() == 0 {
        0
    } else {
        sum_group_lens(groups.drop_last()) + groups.last()@.len()
    }
}

proof fn lemma_sum_update(groups: Seq<Vec<DownloadRecord>>, i: int, g: Vec<DownloadRecord>)
    requires
        0 <= i < groups.len(),
    ensures
        sum_group_lens(groups.update(i, g)) == sum_group_lens(groups) - groups[i]@.len()
            + g@.len(),
    decreases groups.len(),
{
    if i == groups.len() - 1 {
        assert(groups.update(i, g).drop_last() =~= groups.drop_last());
    } else {
        assert(groups.update(i, g).drop_last() =~= groups.drop_last().update(i, g));
        lemma_sum_update(groups.drop_last(), i, g);
    }
}

/// A sound grouping of the items: every group nonempty and homogeneous in
/// its session id, the groups' ids pairwise distinct, and every grouped
/// record one of the items.
pub open spec fn groups_wf(groups: Seq<Vec<DownloadRecord>>, items: Seq<DownloadRecord>) -> bool {
    (forall|g: int| 0 <= g < groups.len() ==> (#[trigger] groups[g])@.len() > 0) && (forall|
        g: int,
        j: int,
    |
        0 <= g < groups.len() && 0 <= j < groups[g]@.len() ==> (#[trigger] groups[g]@[
            j
        ]).session_id@ == groups[g]@[0].session_id@) && (forall|g1: int, g2: int|
        0 <= g1 < g2 < groups.len() ==> (#[trigger] groups[g1])@[0].session_id@ != (
        #[trigger] groups[g2])@[0].session_id@) && (forall|g: int, j: int|
        0 <= g < groups.len() && 0 <= j < groups[g]@.len() ==> items.contains(
            #[trigger] groups[g]@[j],
        ))
}

/// Groups the records by session id: each group is nonempty and homogeneous,
/// the groups' ids are pairwise distinct, every grouped record is a recorded
/// one, and every recorded session is represented.
pub fn group_by_session(items: &Vec<DownloadRecord>) -> (groups: Vec<Vec<DownloadRecord>>)
    ensures
        groups_wf(groups@, items@),
        forall|i: int|
            0 <= i < items@.len() ==> spec_has_group(groups@, (#[trigger] items@[i]).session_id@),
        sum_group_lens(groups@) == items@.len(),
{
    let n = items.len();
    let mut groups: Vec<Vec<DownloadRecord>> = Vec::new();
    let mut i: usize = 0;
    while i < n
        invariant
            i <= n,
            n == items@.len(),
            groups_wf(groups@, items@),
            forall|k: int|
                0 <= k < i ==> spec_has_group(groups@, (#[trigger] items@[k]).session_id@),
            sum_group_lens(groups@) == i,
        decreases n - i,
    {
        let rec = items[i].duplicate();
        proof {
            assert(items@.contains(items@[i as int]));
        }
        let m = groups.len();
        let mut g: usize = 0;
        let mut found: Option<usize> = None;
        while g < m
            invariant
                g <= m,
                m == groups@.len(),
                rec == items@[i as int],
                groups_wf(groups@, items@),
                match found {
                    Some(fg) => fg < m && groups@[fg as int]@[0].session_id@ == rec.session_id@,
                    None => forall|h: int|
                        0 <= h < g ==> (#[trigger] groups@[h])@[0].session_id@ != rec.session_id@,
                },
            ensures
                match found {
                    Some(fg) => fg < m && groups@[fg as int]@[0].session_id@ == rec.session_id@,
                    None => forall|h: int|
                        0 <= h < m ==> (#[trigger] groups@[h])@[0].session_id@ != rec.session_id@,
                },
            decreases m - g,
        {
            let grp = &groups[g];
            if str_eq(grp[0].session_id.as_str(), rec.session_id.as_str()) {
                found = Some(g);
                break ;
            }
            g += 1;
        }
        let ghost pre = groups@;
        match found {
            Some(fg) => {
                let mut grp = groups.remove(fg);
                grp.push(rec);
                groups.insert(fg, grp);
                proof {
                    assert(groups@ =~= pre.update(fg as int, groups@[fg as int]));
                    assert(groups@[fg as int]@ =~= pre[fg as int]@.push(items@[i as int]));
                    assert(groups@.len() == pre.len());
                    lemma_sum_update(pre, fg as int, groups[fg as int]);
                    assert forall|h: int| 0 <= h < groups@.len() implies (#[trigger] groups@[h])@[0]
                        == pre[h]@[0] && groups@[h]@.len() > 0 by {
                        if h == fg {
                            assert(groups@[h]@[0] == pre[h]@[0]);
                        } else {
                            assert(groups@[h] == pre[h]);
                        }
                    }
                    assert forall|h: int, j: int|
                        0 <= h < groups@.len() && 0 <= j < groups@[h]@.len() implies (
                    #[trigger] groups@[h]@[j]).session_id@ == groups@[h]@[0].session_id@
                        && items@.contains(groups@[h]@[j]) by {
                        if h == fg {
                            if j < pre[h]@.len() {
                                assert(groups@[h]@[j] == pre[h]@[j]);
                            } else {
                                assert(groups@[h]@[j] == items@[i as int]);
                            }
                        } else {
                            assert(groups@[h] == pre[h]);
                        }
                    }
                    assert(spec_has_group(groups@, items@[i as int].session_id@)) by {
                        assert(groups@[fg as int]@[0].session_id@ == items@[
                            i as int
                        ].session_id@);
                    }
                    assert forall|k: int| 0 <= k < i + 1 implies spec_has_group(
                        groups@,
                        (#[trigger] items@[k]).session_id@,
                    ) by {
                        if k < i {
                            let h = choose|h: int|
                                0 <= h < pre.len() && (#[trigger] pre[h])@[0].session_id@
                                    == items@[k].session_id@;
                            assert(groups@[h]@[0] == pre[h]@[0]);
                        }
                    }
                }
            },
            None => {
                let mut grp: Vec<DownloadRecord> = Vec::new();
                grp.push(rec);
                groups.push(grp);
                proof {
                    assert(items@.contains(items@[i as int]));
                    assert(groups@ =~= pre.push(groups@[pre.len() as int]));
                    assert(groups@.drop_last() =~= pre);
                    assert(groups@[pre.len() as int]@ =~= seq![items@[i as int]]);
                    assert forall|h: int| 0 <= h < pre.len() implies groups@[h] == pre[h] by {}
                    assert(spec_has_group(groups@, items@[i as int].session_id@)) by {
                        assert(groups@[pre.len() as int]@[0].session_id@ == items@[
                            i as int
                        ].session_id@);
                    }
                    assert forall|k: int| 0 <= k < i + 1 implies spec_has_group(
                        groups@,
                        (#[trigger] items@[k]).session_id@,
                    ) by {
                        if k < i {
                            let h = choose|h: int|
                                0 <= h < pre.len() && (#[trigger] pre[h])@[0].session_id@
                                    == items@[k].session_id@;
                            assert(groups@[h]@[0].session_id@ == items@[k].session_id@);
                        }
                    }
                    assert forall|g2: int, j: int|
                        0 <= g2 < groups@.len() && 0 <= j < groups@[g2]@.len()
                        implies (#[trigger] groups@[g2]@[j]).session_id@ == groups@[g2]@[0].session_id@
                            && items@.contains(groups@[g2]@[j]) by {
                        if g2 < pre.len() {
                            assert(groups@[g2] == pre[g2]);
                        } else {
                            assert(groups@[g2]@ =~= seq![items@[i as int]]);
                            assert(groups@[g2]@[j] == items@[i as int]);
                        }
                    }
                    assert(forall|g2: int| 0 <= g2 < groups@.len() ==> (#[trigger] groups@[g2])@.len() > 0);
                    assert forall|g1: int, g2: int|
                        0 <= g1 < g2 < groups@.len()
                        implies (#[trigger] groups@[g1])@[0].session_id@ != (#[trigger] groups@[g2])@[0].session_id@ by {
                        if g2 < pre.len() {
                            assert(groups@[g1] == pre[g1]);
                            assert(groups@[g2] == pre[g2]);
                        } else {
                            assert(groups@[g1] == pre[g1]);
                            assert(groups@[g2]@[0] == items@[i as int]);
                        }
                    }
                }
            },
        }
        i += 1;
    }
    groups
}

impl TableRow for DownloadSessionSummary {
    type Key = Seq<char>;

    open spec fn key(&self) -> Seq<char> {
        self.session_id@
    }

    open spec fn stamp(&self) -> int {
        self.created_at as int
    }

    fn key_matches(&self, other: &Self) -> (r: bool) {
        str_eq(self.session_id.as_str(), other.session_id.as_str())
    }

    fn stamp_ge(&self, other: &Self) -> (r: bool) {
        self.created_at >= other.created_at
    }

    fn duplicate(&self) -> (r: Self) {
        DownloadSessionSummary {
            session_id: self.session_id.clone(),
            title: self.title.clone(),
            subtitle: self.subtitle.clone(),
            total_size: self.total_size.clone(),
            status: self.status.clone(),
            created_at: self.created_at,
        }
    }
}

/// Whether some summary in the list is of the session id.
pub open spec fn spec_summarized(r: Seq<DownloadSessionSummary>, sid: Seq<char>) -> bool {
    exists|k: int| 0 <= k < r.len() && (#[trigger] r[k]).session_id@ == sid
}

/// The session history view: one summary per recorded session, newest
/// first. Every summary is of a recorded session, and every recorded
/// session appears.
pub fn summarize_history(items: &Vec<DownloadRecord>) -> (r: Vec<DownloadSessionSummary>)
    ensures
        forall|k1: int, k2: int|
            0 <= k1 < k2 < r@.len() ==> (#[trigger] r@[k1]).created_at >= (
            #[trigger] r@[k2]).created_at,
        forall|k: int|
            0 <= k < r@.len() ==> spec_has_session(items@, (#[trigger] r@[k]).session_id@),
        forall|i: int|
            0 <= i < items@.len() ==> spec_summarized(r@, (#[trigger] items@[i]).session_id@),
        forall|k1: int, k2: int|
            0 <= k1 < k2 < r@.len() ==> (#[trigger] r@[k1]).session_id@ != (
            #[trigger] r@[k2]).session_id@,
{
    broadcast use vstd::seq_lib::group_to_multiset_ensures;

    let groups = group_by_session(items);
    let m = groups.len();
    let mut tbl: Table<DownloadSessionSummary> = Table::new();
    let mut g: usize = 0;
    while g < m
        invariant
            g <= m,
            m == groups@.len(),
            groups_wf(groups@, items@),
            forall|i: int|
                0 <= i < items@.len() ==> spec_has_group(
                    groups@,
                    (#[trigger] items@[i]).session_id@,
                ),
            tbl.wf(),
            forall|sid: Seq<char>|
                #[trigger] tbl@.dom().contains(sid) ==> tbl@[sid].session_id@ == sid
                    && spec_has_session(items@, sid),
            forall|h: int|
                0 <= h < g ==> tbl@.dom().contains((#[trigger] groups@[h])@[0].session_id@),
        decreases m - g,
    {
        let s = summarize_session(&groups[g]);
        proof {
            let rec0 = groups@[g as int]@[0];
            assert(items@.contains(rec0));
            let i0 = choose|i0: int| 0 <= i0 < items@.len() && items@[i0] == rec0;
            assert(items@[i0].session_id@ == s.session_id@);
        }
        tbl.upsert(s);
        g += 1;
    }
    let sorted = tbl.snapshot_sorted();
    proof {
        assert forall|k: int| 0 <= k < sorted@.len() implies spec_has_session(
            items@,
            (#[trigger] sorted@[k]).session_id@,
        ) by {
            assert(sorted@.contains(sorted@[k]));
            assert(sorted@.to_multiset().contains(sorted@[k]));
            tbl.lemma_content(sorted@[k]);
        }
        assert forall|i: int| 0 <= i < items@.len() implies spec_summarized(
            sorted@,
            (#[trigger] items@[i]).session_id@,
        ) by {
            let h = choose|h: int|
                0 <= h < groups@.len() && (#[trigger] groups@[h])@[0].session_id@ == items@[
                    i
                ].session_id@;
            let sid = items@[i].session_id@;
            assert(tbl@.dom().contains(sid));
            let v = tbl@[sid];
            tbl.lemma_content(v);
            assert(tbl.row_mset().contains(v));
            assert(sorted@.to_multiset().contains(v));
            assert(sorted@.contains(v));
            let k = choose|k: int| 0 <= k < sorted@.len() && sorted@[k] == v;
            assert(sorted@[k].session_id@ == sid);
            assert(spec_summarized(sorted@, sid));
        }
        assert forall|k1: int, k2: int| 0 <= k1 < k2 < sorted@.len() implies (
        #[trigger] sorted@[k1]).session_id@ != (#[trigger] sorted@[k2]).session_id@ by {
            broadcast use vstd::multiset::group_multiset_axioms;

            let a = sorted@[k1];
            let b = sorted@[k2];
            if a.session_id@ == b.session_id@ {
                assert(sorted@.contains(a));
                assert(sorted@.contains(b));
                assert(sorted@.to_multiset().contains(a));
                assert(sorted@.to_multiset().contains(b));
                tbl.lemma_content(a);
                tbl.lemma_content(b);
                assert(a == b);
                let s2 = sorted@.remove(k1);
                assert(s2[k2 - 1] == a);
                assert(s2.contains(a));
                assert(s2.to_multiset() == sorted@.to_multiset().remove(a));
                assert(s2.to_multiset().count(a) > 0);
                assert(sorted@.to_multiset().count(a) >= 2);
                tbl.lemma_counts(a);
                assert(false);
            }
        }
    }
    sorted
}

/// Whether a view row presents a record: same fields, with the resting path
/// joined from the record's directory and name.
pub open spec fn view_of_record(v: DownloadRecordView, rec: DownloadRecord) -> bool {
    v.id == rec.id && v.url == rec.url && v.filename == rec.filename && v.path@ == spec_path_join(
        rec.dir@,
        rec.filename@,
    ) && v.size == rec.size && v.status == rec.status && v.file_type == rec.file_type
}

/// The records of one session, each presented with its resting path, in
/// recorded order.
pub fn session_details(items: &Vec<DownloadRecord>, session_id: &str) -> (r: Vec<
    DownloadRecordView,
>)
    ensures
        ({
            let flt = items@.filter(|rec: DownloadRecord| rec.session_id@ == session_id@);
            r@.len() == flt.len() && forall|k: int|
                0 <= k < flt.len() ==> view_of_record(#[trigger] r@[k], flt[k])
        }),
{
    broadcast use vstd::prelude::Seq::lemma_filter_push;

    let ghost pred = |rec: DownloadRecord| rec.session_id@ == session_id@;
    let n = items.len();
    let mut out: Vec<DownloadRecordView> = Vec::new();
    let mut i: usize = 0;
    while i < n
        invariant
            i <= n,
            n == items@.len(),
            pred == (|rec: DownloadRecord| rec.session_id@ == session_id@),
            ({
                let flt = items@.subrange(0, i as int).filter(pred);
                out@.len() == flt.len() && forall|k: int|
                    0 <= k < flt.len() ==> view_of_record(#[trigger] out@[k], flt[k])
            }),
        decreases n - i,
    {
        let ghost fpre = items@.subrange(0, i as int).filter(pred);
        proof {
            let s0 = items@.subrange(0, i as int);
            s0.lemma_filter_push(items@[i as int], pred);
            assert(items@.subrange(0, i + 1 as int) =~= s0.push(items@[i as int]));
            assert(s0.push(items@[i as int]).filter(pred) == if pred(items@[i as int]) {
                s0.filter(pred).push(items@[i as int])
            } else {
                s0.filter(pred)
            });
        }
        let rec = &items[i];
        if str_eq(rec.session_id.as_str(), session_id) {
            let v = DownloadRecordView {
                id: rec.id.clone(),
                url: rec.url.clone(),
                filename: rec.filename.clone(),
                path: record_file_path(rec.dir.as_str(), rec.filename.as_str()),
                size: rec.size,
                status: rec.status.clone(),
                file_type: clone_opt_string(&rec.file_type),
            };
            out.push(v);
            proof {
                assert(pred(items@[i as int]));
                assert(items@.subrange(0, i + 1 as int).filter(pred) =~= fpre.push(
                    items@[i as int],
                ));
            }
        } else {
            proof {
                assert(!pred(items@[i as int]));
                assert(items@.subrange(0, i + 1 as int).filter(pred) =~= fpre);
            }
        }
        i += 1;
    }
    proof {
        assert(items@.subrange(0, n as int) =~= items@);
    }
    out
}

/// Deletes a session from the legacy history: exactly the records of other
/// sessions remain, in their order.
pub fn remove_session_records(history: &mut History, session_id: &str)
    ensures
        final(history).items@ == old(history).items@.filter(
            |rec: DownloadRecord| rec.session_id@ != session_id@,
        ),
{
    broadcast use vstd::prelude::Seq::lemma_filter_push;

    let ghost pred = |rec: DownloadRecord| rec.session_id@ != session_id@;
    let n = history.items.len();
    let mut kept: Vec<DownloadRecord> = Vec::new();
    let mut i: usize = 0;
    while i < n
        invariant
            i <= n,
            n == history.items@.len(),
            history.items@ == old(history).items@,
            pred == (|rec: DownloadRecord| rec.session_id@ != session_id@),
            kept@ == history.items@.subrange(0, i as int).filter(pred),
        decreases n - i,
    {
        let ghost fpre = history.items@.subrange(0, i as int).filter(pred);
        proof {
            let s0 = history.items@.subrange(0, i as int);
            s0.lemma_filter_push(history.items@[i as int], pred);
            assert(history.items@.subrange(0, i + 1 as int) =~= s0.push(
                history.items@[i as int],
            ));
            assert(s0.push(history.items@[i as int]).filter(pred) == if pred(
                history.items@[i as int],
            ) {
                s0.filter(pred).push(history.items@[i as int])
            } else {
                s0.filter(pred)
            });
        }
        let rec = &history.items[i];
        if !str_eq(rec.session_id.as_str(), session_id) {
            kept.push(rec.duplicate());
            proof {
                assert(pred(history.items@[i as int]));
                assert(history.items@.subrange(0, i + 1 as int).filter(pred) =~= fpre.push(
                    history.items@[i as int],
                ));
            }
        } else {
            proof {
                assert(!pred(history.items@[i as int]));
                assert(history.items@.subrange(0, i + 1 as int).filter(pred) =~= fpre);
            }
        }
        i += 1;
    }
    proof {
        assert(history.items@.subrange(0, n as int) =~= history.items@);
    }
    history.items = kept;
}

/// Whether the legacy history names an id.
pub open spec fn spec_legacy_has_id(items: Seq<DownloadRecord>, id: Seq<char>) -> bool {
    exists|i: int| 0 <= i < items.len() && (#[trigger] items[i]).id@ == id
}

/// Replays the legacy flat history into the history store: afterwards the
/// store holds every legacy id, already-held records of other ids are
/// untouched, and no id appears that neither side had.
pub fn migrate_history(store: &mut HistoryStore, legacy: &History)
    requires
        old(store).wf(),
    ensures
        final(store).wf(),
        forall|i: int|
            0 <= i < legacy.items@.len() ==> final(store).records().dom().contains(
                (#[trigger] legacy.items@[i]).id@,
            ),
        forall|k: Seq<char>|
            old(store).records().dom().contains(k) ==> final(store).records().dom().contains(k),
        forall|k: Seq<char>|
            #[trigger] final(store).records().dom().contains(k) ==> old(
                store,
            ).records().dom().contains(k) || spec_legacy_has_id(legacy.items@, k),
        forall|k: Seq<char>|
            !spec_legacy_has_id(legacy.items@, k) && old(store).records().dom().contains(k)
                ==> final(store).records()[k] == old(store).records()[k],
{
    let n = legacy.items.len();
    let mut i: usize = 0;
    while i < n
        invariant
            i <= n,
            n == legacy.items@.len(),
            store.wf(),
            forall|j: int|
                0 <= j < i ==> store.records().dom().contains((#[trigger] legacy.items@[j]).id@),
            forall|k: Seq<char>|
                old(store).records().dom().contains(k) ==> store.records().dom().contains(k),
            forall|k: Seq<char>|
                #[trigger] store.records().dom().contains(k) ==> old(
                    store,
                ).records().dom().contains(k) || spec_legacy_has_id(legacy.items@, k),
            forall|k: Seq<char>|
                !spec_legacy_has_id(legacy.items@, k) && old(store).records().dom().contains(k)
                    ==> store.records()[k] == old(store).records()[k],
        decreases n - i,
    {
        let rec = legacy.items[i].duplicate();
        proof {
            assert(legacy.items@[i as int].id@ == rec.id@);
            assert(spec_legacy_has_id(legacy.items@, rec.id@));
        }
        store.insert_or_replace(rec);
        i += 1;
    }
}

} // verus!
